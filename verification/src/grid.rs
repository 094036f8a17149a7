//! The executable board: a fixed number of rows and columns of binary cells,
//! kept in one row-major buffer.

use vstd::prelude::*;
use vstd::std_specs::cmp::PartialEqSpecImpl;
use crate::generation::Generation;
use crate::patterns::glider;

verus! {

/// Number of rows of the initial board.
pub const ROWS: usize = 48;

/// Number of columns of the initial board.
pub const COLUMNS: usize = 64;

/// The initial board: `ROWS` by `COLUMNS` cells with a glider in the top left
/// corner, that is with the cells (0, 1), (1, 2), (2, 0), (2, 1) and (2, 2)
/// alive.
pub open spec fn seed() -> Generation {
    glider(ROWS as nat, COLUMNS as nat, 0, 0)
}

/// A board of cells, each holding 0 (dead) or 1 (alive). Its dimensions are
/// fixed when it is made.
#[derive(Debug)]
pub struct Grid {
    rows: usize,
    cols: usize,
    cells: Vec<u8>,
}

/// A position on the board has a slot in the row-major buffer.
proof fn lemma_index_in_range(r: int, c: int, rows: int, cols: int)
    requires
        0 <= r < rows,
        0 <= c < cols,
    ensures
        0 <= r * cols + c < rows * cols,
{
    assert(0 <= r * cols && (r + 1) * cols <= rows * cols) by (nonlinear_arith)
        requires
            0 <= r < rows,
            0 <= cols,
    ;
    assert((r + 1) * cols == r * cols + cols) by (nonlinear_arith);
}

/// Two positions that share a slot of the row-major buffer are the same.
proof fn lemma_index_injective(r1: int, c1: int, r2: int, c2: int, cols: int)
    requires
        0 <= c1 < cols,
        0 <= c2 < cols,
        r1 * cols + c1 == r2 * cols + c2,
    ensures
        r1 == r2,
        c1 == c2,
{
    assert(r1 == r2) by (nonlinear_arith)
        requires
            0 <= c1 < cols,
            0 <= c2 < cols,
            r1 * cols + c1 == r2 * cols + c2,
    ;
}

/// A slot of the row-major buffer belongs to exactly one position.
proof fn lemma_index_position(i: int, rows: int, cols: int)
    requires
        0 <= i < rows * cols,
        0 <= rows,
        0 <= cols,
    ensures
        0 < cols,
        0 <= i / cols < rows,
        0 <= i % cols < cols,
        i == (i / cols) * cols + i % cols,
{
    assert(0 < cols) by (nonlinear_arith)
        requires
            0 <= i < rows * cols,
            0 <= cols,
    ;
    vstd::arithmetic::div_mod::lemma_fundamental_div_mod(i, cols);
    assert(0 <= i / cols < rows) by (nonlinear_arith)
        requires
            0 <= i < rows * cols,
            0 < cols,
            i == cols * (i / cols) + i % cols,
            0 <= i % cols < cols,
    ;
    assert((i / cols) * cols == cols * (i / cols)) by (nonlinear_arith);
}

/// Overwrites one slot of a buffer.
fn store(cells: &mut Vec<u8>, index: usize, value: u8)
    requires
        index < old(cells)@.len(),
    ensures
        final(cells)@ == old(cells)@.update(index as int, value),
    no_unwind
{
    cells[index] = value;
}

impl View for Grid {
    type V = Generation;

    closed spec fn view(&self) -> Generation {
        Generation {
            rows: self.rows as nat,
            cols: self.cols as nat,
            live: Set::new(
                |p: (int, int)|
                    0 <= p.0 < self.rows && 0 <= p.1 < self.cols && self.cells@[p.0 * self.cols
                        + p.1] == 1,
            ),
        }
    }
}

impl Grid {
    #[verifier::type_invariant]
    spec fn inv(self) -> bool {
        &&& self.cells.len() == self.rows * self.cols
        &&& forall|i: int| 0 <= i < self.cells@.len() ==> self.cells@[i] <= 1
    }

    /// The view of a board never holds a live position off the board.
    pub proof fn lemma_view_wf(&self)
        ensures
            self@.wf(),
    {
    }

    /// A board of `rows` by `cols` cells, all dead.
    pub fn new(rows: usize, cols: usize) -> (grid: Grid)
        requires
            rows * cols <= usize::MAX,
        ensures
            grid@ == Generation::dead(rows as nat, cols as nat),
    {
        let cells = vec![0u8; rows * cols];
        let grid = Grid { rows, cols, cells };
        proof {
            assert forall|p: (int, int)| !grid@.live.contains(p) by {
                if 0 <= p.0 < rows && 0 <= p.1 < cols {
                    lemma_index_in_range(p.0, p.1, rows as int, cols as int);
                }
            }
            assert(grid@.live =~= Set::empty());
        }
        grid
    }

    /// The number of rows. The cells of a board can always be counted in a
    /// `usize`.
    pub fn rows(&self) -> (rows: usize)
        ensures
            rows == self@.rows,
            self@.rows * self@.cols <= usize::MAX,
    {
        proof {
            use_type_invariant(self);
        }
        self.rows
    }

    /// The number of columns. The cells of a board can always be counted in a
    /// `usize`.
    pub fn cols(&self) -> (cols: usize)
        ensures
            cols == self@.cols,
            self@.rows * self@.cols <= usize::MAX,
    {
        proof {
            use_type_invariant(self);
        }
        self.cols
    }

    /// The value of the cell at `(row, col)`: 1 if it is alive, 0 if dead.
    pub fn get(&self, row: usize, col: usize) -> (cell: u8)
        requires
            self@.in_bounds(row as int, col as int),
        ensures
            cell == self@.cell(row as int, col as int),
    {
        proof {
            use_type_invariant(self);
            lemma_index_in_range(row as int, col as int, self.rows as int, self.cols as int);
        }
        self.cells[row * self.cols + col]
    }

    /// Stores `value` in the cell at `(row, col)` and leaves every other cell
    /// as it was.
    pub fn set(&mut self, row: usize, col: usize, value: u8)
        requires
            old(self)@.in_bounds(row as int, col as int),
            value <= 1,
        ensures
            final(self)@ == old(self)@.with_cell(row as int, col as int, value == 1),
    {
        proof {
            use_type_invariant(&*self);
            lemma_index_in_range(row as int, col as int, self.rows as int, self.cols as int);
        }
        let index = row * self.cols + col;
        store(&mut self.cells, index, value);
        proof {
            let cols = self.cols as int;
            assert forall|p: (int, int)|
                self@.live.contains(p) == old(self)@.with_cell(
                    row as int,
                    col as int,
                    value == 1,
                ).live.contains(p) by {
                if 0 <= p.0 < self.rows && 0 <= p.1 < self.cols {
                    lemma_index_in_range(p.0, p.1, self.rows as int, cols);
                    if p.0 * cols + p.1 == row * cols + col {
                        lemma_index_injective(p.0, p.1, row as int, col as int, cols);
                    }
                }
            }
            assert(self@.live =~= old(self)@.with_cell(row as int, col as int, value == 1).live);
        }
    }

    /// Whether two boards have the same dimensions and the same cells.
    fn same_as(&self, other: &Grid) -> (equal: bool)
        ensures
            equal == (self@ == other@),
    {
        proof {
            use_type_invariant(self);
            use_type_invariant(other);
        }
        if self.rows != other.rows || self.cols != other.cols {
            return false;
        }
        let n = self.cells.len();
        let mut i: usize = 0;
        while i < n
            invariant
                i <= n,
                n == self.cells@.len(),
                n == other.cells@.len(),
                n == self.rows * self.cols,
                self.rows == other.rows,
                self.cols == other.cols,
                forall|k: int| 0 <= k < n ==> self.cells@[k] <= 1,
                forall|k: int| 0 <= k < n ==> other.cells@[k] <= 1,
                forall|k: int| 0 <= k < i ==> self.cells@[k] == other.cells@[k],
            decreases n - i,
        {
            if self.cells[i] != other.cells[i] {
                proof {
                    let cols = self.cols as int;
                    lemma_index_position(i as int, self.rows as int, cols);
                    let p = (i as int / cols, i as int % cols);
                    assert(self@.live.contains(p) != other@.live.contains(p));
                }
                return false;
            }
            i += 1;
        }
        proof {
            assert(self.cells@ =~= other.cells@);
            assert(self@.live =~= other@.live);
        }
        true
    }
}

impl PartialEq for Grid {
    /// Two boards are equal when they have the same dimensions and the same
    /// cells are alive on both.
    fn eq(&self, other: &Grid) -> (equal: bool) {
        self.same_as(other)
    }
}

impl PartialEqSpecImpl for Grid {
    open spec fn obeys_eq_spec() -> bool {
        true
    }

    open spec fn eq_spec(&self, other: &Grid) -> bool {
        self@ == other@
    }
}

impl Clone for Grid {
    /// A second board with the same dimensions and the same cells.
    fn clone(&self) -> (copy: Self)
        ensures
            copy@ == self@,
    {
        proof {
            use_type_invariant(self);
        }
        let copy = Grid { rows: self.rows, cols: self.cols, cells: self.cells.clone() };
        proof {
            assert forall|p: (int, int)| copy@.live.contains(p) == self@.live.contains(p) by {
                if 0 <= p.0 < self.rows && 0 <= p.1 < self.cols {
                    lemma_index_in_range(p.0, p.1, self.rows as int, self.cols as int);
                }
            }
            assert(copy@.live =~= self@.live);
        }
        copy
    }
}

/// The board that the automaton starts from: `ROWS` by `COLUMNS` cells, all
/// dead but the five of a glider in the top left corner.
pub fn create_initial_grid() -> (grid: Grid)
    ensures
        grid@ == seed(),
{
    let mut grid = Grid::new(ROWS, COLUMNS);
    grid.set(0, 1, 1);
    grid.set(1, 2, 1);
    grid.set(2, 0, 1);
    grid.set(2, 1, 1);
    grid.set(2, 2, 1);
    assert(grid@.live =~= seed().live);
    grid
}

} // verus!
