//! The mathematical model of a board and of one step of the automaton.

use vstd::prelude::*;

verus! {

/// A snapshot of the board: its dimensions and the positions, as
/// `(row, column)`, of the cells that are alive.
#[verifier::ext_equal]
pub struct Generation {
    pub rows: nat,
    pub cols: nat,
    pub live: Set<(int, int)>,
}

/// The transition rule for one cell: a live cell stays alive with two or
/// three live neighbours, a dead cell comes alive with exactly three.
pub open spec fn next_state(alive: bool, neighbors: nat) -> bool {
    if alive {
        neighbors == 2 || neighbors == 3
    } else {
        neighbors == 3
    }
}

impl Generation {
    /// The board of the given dimensions on which every cell is dead.
    pub open spec fn dead(rows: nat, cols: nat) -> Generation {
        Generation { rows, cols, live: Set::empty() }
    }

    /// Whether `(r, c)` is a position of the board.
    pub open spec fn in_bounds(self, r: int, c: int) -> bool {
        0 <= r < self.rows && 0 <= c < self.cols
    }

    /// Every live position lies on the board.
    pub open spec fn wf(self) -> bool {
        forall|r: int, c: int| #[trigger] self.live.contains((r, c)) ==> self.in_bounds(r, c)
    }

    /// Whether the cell at `(r, c)` is alive. A position off the board holds
    /// no cell, so nothing is alive there.
    pub open spec fn alive(self, r: int, c: int) -> bool {
        self.in_bounds(r, c) && self.live.contains((r, c))
    }

    /// The stored value of the cell at `(r, c)`: 1 if alive, 0 if dead.
    pub open spec fn cell(self, r: int, c: int) -> nat {
        if self.alive(r, c) {
            1
        } else {
            0
        }
    }

    /// The number of live cells among the eight positions adjacent to
    /// `(r, c)`. Positions off the board contribute nothing: the edges do not
    /// wrap around.
    pub open spec fn live_neighbors(self, r: int, c: int) -> nat {
        self.cell(r - 1, c - 1) + self.cell(r - 1, c) + self.cell(r - 1, c + 1)
            + self.cell(r, c - 1) + self.cell(r, c + 1)
            + self.cell(r + 1, c - 1) + self.cell(r + 1, c) + self.cell(r + 1, c + 1)
    }

    /// Whether the cell at `(r, c)` is alive in the following generation.
    pub open spec fn alive_next(self, r: int, c: int) -> bool {
        self.in_bounds(r, c) && next_state(self.alive(r, c), self.live_neighbors(r, c))
    }

    /// The following generation: same dimensions, every cell decided by the
    /// rule from this snapshot alone.
    pub open spec fn step(self) -> Generation {
        Generation {
            rows: self.rows,
            cols: self.cols,
            live: Set::new(|p: (int, int)| self.alive_next(p.0, p.1)),
        }
    }

    /// The generation reached after `n` steps.
    pub open spec fn step_n(self, n: nat) -> Generation
        decreases n,
    {
        if n == 0 {
            self
        } else {
            self.step_n((n - 1) as nat).step()
        }
    }

    /// This board with the cell at `(r, c)` made alive or dead.
    pub open spec fn with_cell(self, r: int, c: int, alive: bool) -> Generation {
        Generation {
            rows: self.rows,
            cols: self.cols,
            live: if alive {
                self.live.insert((r, c))
            } else {
                self.live.remove((r, c))
            },
        }
    }
}

} // verus!
