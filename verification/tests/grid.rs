use game_of_life::grid::{create_initial_grid, Grid, COLUMNS, ROWS};

#[test]
fn initial_board_has_the_configured_dimensions() {
    assert_eq!(ROWS, 48);
    assert_eq!(COLUMNS, 64);
    let grid = create_initial_grid();
    assert_eq!(grid.rows(), 48);
    assert_eq!(grid.cols(), 64);
}

#[test]
fn initial_board_holds_exactly_the_glider() {
    let grid = create_initial_grid();
    let seed = [(0, 1), (1, 2), (2, 0), (2, 1), (2, 2)];
    let mut alive = 0;
    for row in 0..grid.rows() {
        for col in 0..grid.cols() {
            let expected = if seed.contains(&(row, col)) { 1 } else { 0 };
            assert_eq!(grid.get(row, col), expected, "cell ({}, {})", row, col);
            alive += grid.get(row, col) as usize;
        }
    }
    assert_eq!(alive, 5);
}

#[test]
fn initial_board_is_the_same_every_time() {
    assert!(create_initial_grid() == create_initial_grid());
}

#[test]
fn new_board_is_dead() {
    let grid = Grid::new(3, 4);
    assert_eq!(grid.rows(), 3);
    assert_eq!(grid.cols(), 4);
    for row in 0..3 {
        for col in 0..4 {
            assert_eq!(grid.get(row, col), 0);
        }
    }
}

#[test]
fn new_board_may_be_empty() {
    let grid = Grid::new(0, 7);
    assert_eq!(grid.rows(), 0);
    assert_eq!(grid.cols(), 7);
    let grid = Grid::new(7, 0);
    assert_eq!(grid.rows(), 7);
    assert_eq!(grid.cols(), 0);
}

#[test]
fn set_changes_one_cell_only() {
    let mut grid = Grid::new(3, 4);
    grid.set(1, 2, 1);
    for row in 0..3 {
        for col in 0..4 {
            let expected = if (row, col) == (1, 2) { 1 } else { 0 };
            assert_eq!(grid.get(row, col), expected);
        }
    }
    grid.set(2, 3, 1);
    grid.set(1, 2, 0);
    for row in 0..3 {
        for col in 0..4 {
            let expected = if (row, col) == (2, 3) { 1 } else { 0 };
            assert_eq!(grid.get(row, col), expected);
        }
    }
}

#[test]
fn set_tells_rows_from_columns() {
    let mut grid = Grid::new(2, 5);
    grid.set(0, 4, 1);
    assert_eq!(grid.get(0, 4), 1);
    assert_eq!(grid.get(1, 0), 0);
    assert_eq!(grid.get(1, 4), 0);
    grid.set(1, 0, 1);
    assert_eq!(grid.get(1, 0), 1);
    assert_eq!(grid.get(0, 0), 0);
}

#[test]
fn set_twice_is_set_once() {
    let mut grid = Grid::new(2, 2);
    grid.set(1, 1, 1);
    let once = grid.clone();
    grid.set(1, 1, 1);
    assert!(grid == once);
}

#[test]
fn boards_are_equal_when_dimensions_and_cells_agree() {
    let mut a = Grid::new(2, 3);
    let mut b = Grid::new(2, 3);
    assert!(a == b);
    a.set(1, 2, 1);
    assert!(a != b);
    b.set(1, 2, 1);
    assert!(a == b);
    b.set(0, 0, 1);
    assert!(a != b);
}

#[test]
fn boards_of_different_dimensions_differ() {
    assert!(Grid::new(2, 3) != Grid::new(3, 2));
    assert!(Grid::new(2, 3) != Grid::new(2, 4));
    assert!(Grid::new(1, 6) != Grid::new(6, 1));
    assert!(Grid::new(0, 3) != Grid::new(0, 4));
    assert!(Grid::new(0, 3) == Grid::new(0, 3));
}

#[test]
fn clone_is_an_equal_board_of_its_own() {
    let mut grid = Grid::new(3, 3);
    grid.set(0, 1, 1);
    let mut copy = grid.clone();
    assert!(copy == grid);
    assert_eq!(copy.rows(), 3);
    assert_eq!(copy.cols(), 3);
    assert_eq!(copy.get(0, 1), 1);
    copy.set(2, 2, 1);
    assert_eq!(grid.get(2, 2), 0);
    assert!(copy != grid);
}
