//! The evolution engine: counting live neighbours, applying the rule to a
//! cell, and computing a whole generation from the previous one.

use vstd::prelude::*;
use crate::generation::{next_state, Generation};
use crate::grid::Grid;

verus! {

/// The eight directions to a neighbour, as `(row offset, column offset)`, in
/// the order in which they are visited.
spec fn direction(k: int) -> (int, int) {
    if k == 0 {
        (1, -1)
    } else if k == 1 {
        (1, 0)
    } else if k == 2 {
        (1, 1)
    } else if k == 3 {
        (0, 1)
    } else if k == 4 {
        (-1, 1)
    } else if k == 5 {
        (-1, 0)
    } else if k == 6 {
        (-1, -1)
    } else {
        (0, -1)
    }
}

/// The live cells among the first `k` neighbours of `(r, c)`.
spec fn counted(g: Generation, r: int, c: int, k: int) -> nat
    decreases k,
{
    if k <= 0 {
        0
    } else {
        counted(g, r, c, k - 1) + g.cell(r + direction(k - 1).0, c + direction(k - 1).1)
    }
}

/// Visiting all eight directions counts exactly the live neighbours.
proof fn lemma_counted_all(g: Generation, r: int, c: int)
    ensures
        counted(g, r, c, 8) == g.live_neighbors(r, c),
{
    reveal_with_fuel(counted, 9);
}

/// The index one step away from `i` in direction `d`, if it is below
/// `limit`.
fn shifted(i: usize, d: i8, limit: usize) -> (target: Option<usize>)
    requires
        -1 <= d <= 1,
    ensures
        target == if 0 <= i + d < limit {
            Some((i + d) as usize)
        } else {
            None
        },
{
    if d < 0 {
        if i > 0 && i - 1 < limit {
            Some(i - 1)
        } else {
            None
        }
    } else if d == 0 {
        if i < limit {
            Some(i)
        } else {
            None
        }
    } else {
        if i < usize::MAX && i + 1 < limit {
            Some(i + 1)
        } else {
            None
        }
    }
}

/// The number of live cells among the eight positions adjacent to
/// `(row, col)`. A position beyond an edge of the board is skipped, so a
/// corner cell has at most three neighbours and any other edge cell at most
/// five.
pub fn get_neighbors(state: &Grid, row: usize, col: usize) -> (count: usize)
    ensures
        count == state@.live_neighbors(row as int, col as int),
{
    let directions: [(i8, i8); 8] = [
        (1, -1),
        (1, 0),
        (1, 1),
        (0, 1),
        (-1, 1),
        (-1, 0),
        (-1, -1),
        (0, -1),
    ];
    let rows = state.rows();
    let cols = state.cols();
    let mut count: usize = 0;
    let mut k: usize = 0;
    while k < 8
        invariant
            k <= 8,
            rows == state@.rows,
            cols == state@.cols,
            count == counted(state@, row as int, col as int, k as int),
            count <= k,
            forall|j: int|
                0 <= j < 8 ==> (#[trigger] directions[j]).0 == direction(j).0 && directions[j].1
                    == direction(j).1,
        decreases 8 - k,
    {
        let (row_offset, col_offset) = directions[k];
        let target_row = shifted(row, row_offset, rows);
        let target_col = shifted(col, col_offset, cols);
        match (target_row, target_col) {
            (Some(r), Some(c)) => {
                if state.get(r, c) == 1 {
                    count += 1;
                }
            },
            _ => {},
        }
        k += 1;
    }
    proof {
        lemma_counted_all(state@, row as int, col as int);
    }
    count
}

/// The value of a cell in the following generation, from its value now and
/// the number of its live neighbours.
pub fn next_cell(cell: u8, neighbors: usize) -> (next: u8)
    requires
        cell <= 1,
    ensures
        next == if next_state(cell == 1, neighbors as nat) {
            1u8
        } else {
            0u8
        },
{
    if cell == 1 {
        if neighbors < 2 {
            0
        } else if neighbors <= 3 {
            1
        } else {
            0
        }
    } else if neighbors == 3 {
        1
    } else {
        cell
    }
}

/// The generation that follows `current`. The result is a fresh board: every
/// cell of it is decided from `current` alone.
pub fn next_generation(current: &Grid) -> (next: Grid)
    ensures
        next@ == current@.step(),
        next@.rows == current@.rows,
        next@.cols == current@.cols,
{
    let rows = current.rows();
    let cols = current.cols();
    let mut next = Grid::new(rows, cols);
    let mut i: usize = 0;
    while i < rows
        invariant
            i <= rows,
            rows == current@.rows,
            cols == current@.cols,
            next@.rows == rows,
            next@.cols == cols,
            forall|r: int, c: int|
                0 <= r < i && 0 <= c < cols ==> #[trigger] next@.live.contains((r, c))
                    == current@.alive_next(r, c),
        decreases rows - i,
    {
        let mut j: usize = 0;
        while j < cols
            invariant
                i < rows,
                j <= cols,
                rows == current@.rows,
                cols == current@.cols,
                next@.rows == rows,
                next@.cols == cols,
                forall|r: int, c: int|
                    0 <= r < i && 0 <= c < cols ==> #[trigger] next@.live.contains((r, c))
                        == current@.alive_next(r, c),
                forall|c: int|
                    0 <= c < j ==> #[trigger] next@.live.contains((i as int, c))
                        == current@.alive_next(i as int, c),
            decreases cols - j,
        {
            let neighbors = get_neighbors(current, i, j);
            let cell = next_cell(current.get(i, j), neighbors);
            next.set(i, j, cell);
            j += 1;
        }
        i += 1;
    }
    proof {
        next.lemma_view_wf();
        assert forall|p: (int, int)|
            next@.live.contains(p) == current@.step().live.contains(p) by {
            if next@.in_bounds(p.0, p.1) {
                assert(next@.live.contains((p.0, p.1)) == current@.alive_next(p.0, p.1));
            }
        }
        assert(next@.live =~= current@.step().live);
    }
    next
}

/// Advances the board by one generation, replacing it as a whole.
pub fn update_state(state: &mut Grid)
    ensures
        final(state)@ == old(state)@.step(),
        final(state)@.rows == old(state)@.rows,
        final(state)@.cols == old(state)@.cols,
{
    let next = next_generation(state);
    *state = next;
}

} // verus!
