//! Named patterns of live cells, placed on a board of given dimensions.

use vstd::prelude::*;
use crate::generation::Generation;

verus! {

/// A board whose only live cells are the 2-by-2 block with top left corner
/// `(r, c)`.
pub open spec fn block(rows: nat, cols: nat, r: int, c: int) -> Generation {
    Generation { rows, cols, live: set![(r, c), (r, c + 1), (r + 1, c), (r + 1, c + 1)] }
}

/// A board whose only live cells are the five of a glider heading down and
/// to the right, in the 3-by-3 box with top left corner `(r, c)`.
pub open spec fn glider(rows: nat, cols: nat, r: int, c: int) -> Generation {
    Generation {
        rows,
        cols,
        live: set![(r, c + 1), (r + 1, c + 2), (r + 2, c), (r + 2, c + 1), (r + 2, c + 2)],
    }
}

} // verus!
