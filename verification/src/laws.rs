//! General facts about the transition, proved over the model.

use vstd::prelude::*;
use crate::generation::Generation;
use crate::patterns::{block, glider};

verus! {

/// A step never changes the dimensions of the board, and its result holds no
/// live position off the board.
pub proof fn lemma_step_keeps_dimensions(g: Generation)
    ensures
        g.step().rows == g.rows,
        g.step().cols == g.cols,
        g.step().wf(),
{
}

/// A board on which every cell is dead stays so: nothing is born without
/// exactly three live neighbours.
pub proof fn lemma_dead_stays_dead(g: Generation)
    requires
        forall|r: int, c: int| !g.alive(r, c),
    ensures
        g.step() == Generation::dead(g.rows, g.cols),
{
    assert(g.step().live =~= Set::empty());
}

/// A live cell with no live neighbour is dead in the following generation.
pub proof fn lemma_isolated_cell_dies(g: Generation, r: int, c: int)
    requires
        g.alive(r, c),
        g.live_neighbors(r, c) == 0,
    ensures
        !g.step().alive(r, c),
{
}

/// A board with a single live cell is entirely dead one generation later.
pub proof fn lemma_lone_cell_leaves_dead_board(g: Generation, r: int, c: int)
    requires
        g.in_bounds(r, c),
        g.live == set![(r, c)],
    ensures
        g.step() == Generation::dead(g.rows, g.cols),
{
    assert(g.step().live =~= Set::empty());
}

/// A 2-by-2 block that lies on the board is a still life: a step leaves the
/// board exactly as it was.
pub proof fn lemma_block_is_still(rows: nat, cols: nat, r: int, c: int)
    requires
        0 <= r,
        0 <= c,
        r + 1 < rows,
        c + 1 < cols,
    ensures
        block(rows, cols, r, c).step() == block(rows, cols, r, c),
{
    let g = block(rows, cols, r, c);
    assert(g.step().live =~= g.live);
}

/// A block stays a block however often the board is advanced: the second
/// step gives the same board as the first, which is the board itself.
pub proof fn lemma_block_is_stable(rows: nat, cols: nat, r: int, c: int, n: nat)
    requires
        0 <= r,
        0 <= c,
        r + 1 < rows,
        c + 1 < cols,
    ensures
        block(rows, cols, r, c).step().step() == block(rows, cols, r, c).step(),
        block(rows, cols, r, c).step_n(n) == block(rows, cols, r, c),
    decreases n,
{
    lemma_block_is_still(rows, cols, r, c);
    if n > 0 {
        lemma_block_is_stable(rows, cols, r, c, (n - 1) as nat);
    }
}

/// Neighbours are never looked for beyond the edges: a corner cell has at
/// most three live neighbours, whatever the board holds.
pub proof fn lemma_corner_has_at_most_three_neighbors(g: Generation)
    ensures
        g.live_neighbors(0, 0) <= 3,
        g.live_neighbors(0, g.cols - 1) <= 3,
        g.live_neighbors(g.rows - 1, 0) <= 3,
        g.live_neighbors(g.rows - 1, g.cols - 1) <= 3,
{
}

/// A cell on an edge of the board has at most five live neighbours, and no
/// cell has more than eight.
pub proof fn lemma_edge_has_at_most_five_neighbors(g: Generation, r: int, c: int)
    ensures
        g.live_neighbors(r, c) <= 8,
        r == 0 || c == 0 || r == g.rows - 1 || c == g.cols - 1 ==> g.live_neighbors(r, c) <= 5,
{
}

/// The neighbour count of a cell depends on the cells of the board alone:
/// two snapshots of equal dimensions that agree on every position of the
/// board give the same count everywhere.
pub proof fn lemma_neighbors_ignore_outside(g: Generation, h: Generation, r: int, c: int)
    requires
        g.rows == h.rows,
        g.cols == h.cols,
        forall|i: int, j: int|
            g.in_bounds(i, j) ==> #[trigger] g.live.contains((i, j)) == h.live.contains((i, j)),
    ensures
        g.live_neighbors(r, c) == h.live_neighbors(r, c),
{
}

/// The glider of `glider(rows, cols, r, c)` one generation later.
spec fn glider_second(rows: nat, cols: nat, r: int, c: int) -> Generation {
    Generation {
        rows,
        cols,
        live: set![(r + 1, c), (r + 1, c + 2), (r + 2, c + 1), (r + 2, c + 2), (r + 3, c + 1)],
    }
}

/// The glider of `glider(rows, cols, r, c)` two generations later.
spec fn glider_third(rows: nat, cols: nat, r: int, c: int) -> Generation {
    Generation {
        rows,
        cols,
        live: set![(r + 1, c + 2), (r + 2, c), (r + 2, c + 2), (r + 3, c + 1), (r + 3, c + 2)],
    }
}

/// The glider of `glider(rows, cols, r, c)` three generations later.
spec fn glider_fourth(rows: nat, cols: nat, r: int, c: int) -> Generation {
    Generation {
        rows,
        cols,
        live: set![(r + 1, c + 1), (r + 2, c + 2), (r + 2, c + 3), (r + 3, c + 1), (r + 3, c + 2)],
    }
}

proof fn lemma_glider_first_step(rows: nat, cols: nat, r: int, c: int)
    requires
        0 <= r,
        0 <= c,
        r + 3 < rows,
        c + 3 < cols,
    ensures
        glider(rows, cols, r, c).step() == glider_second(rows, cols, r, c),
{
    assert(glider(rows, cols, r, c).step().live =~= glider_second(rows, cols, r, c).live);
}

proof fn lemma_glider_second_step(rows: nat, cols: nat, r: int, c: int)
    requires
        0 <= r,
        0 <= c,
        r + 3 < rows,
        c + 3 < cols,
    ensures
        glider_second(rows, cols, r, c).step() == glider_third(rows, cols, r, c),
{
    assert(glider_second(rows, cols, r, c).step().live =~= glider_third(rows, cols, r, c).live);
}

proof fn lemma_glider_third_step(rows: nat, cols: nat, r: int, c: int)
    requires
        0 <= r,
        0 <= c,
        r + 3 < rows,
        c + 3 < cols,
    ensures
        glider_third(rows, cols, r, c).step() == glider_fourth(rows, cols, r, c),
{
    assert(glider_third(rows, cols, r, c).step().live =~= glider_fourth(rows, cols, r, c).live);
}

proof fn lemma_glider_fourth_step(rows: nat, cols: nat, r: int, c: int)
    requires
        0 <= r,
        0 <= c,
        r + 3 < rows,
        c + 3 < cols,
    ensures
        glider_fourth(rows, cols, r, c).step() == glider(rows, cols, r + 1, c + 1),
{
    assert(glider_fourth(rows, cols, r, c).step().live =~= glider(rows, cols, r + 1, c + 1).live);
}

/// A glider with a free row below and a free column to the right of its box
/// is, four generations later, the same glider one row down and one column
/// to the right.
pub proof fn lemma_glider_moves_diagonally(rows: nat, cols: nat, r: int, c: int)
    requires
        0 <= r,
        0 <= c,
        r + 3 < rows,
        c + 3 < cols,
    ensures
        glider(rows, cols, r, c).step_n(4) == glider(rows, cols, r + 1, c + 1),
{
    let g = glider(rows, cols, r, c);
    reveal_with_fuel(Generation::step_n, 5);
    lemma_glider_first_step(rows, cols, r, c);
    lemma_glider_second_step(rows, cols, r, c);
    lemma_glider_third_step(rows, cols, r, c);
    lemma_glider_fourth_step(rows, cols, r, c);
    assert(g.step_n(4) == g.step().step().step().step());
}

} // verus!
