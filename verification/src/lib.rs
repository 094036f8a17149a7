//! Conway's Game of Life on a bounded rectangular grid.
//!
//! [`generation`] holds the mathematical model: a snapshot of the board as its
//! dimensions and its set of live positions, the neighbour count and the
//! transition rule. [`grid`] is the executable board, whose view is such a
//! snapshot. [`evolution`] computes one generation from the previous one and
//! [`layout`] turns a board into the tiles a display has to paint.
//! [`patterns`] names a few arrangements of live cells, and [`laws`] proves
//! general facts about the transition and about those patterns.

pub mod generation;
pub mod grid;
pub mod evolution;
pub mod patterns;
pub mod laws;
pub mod layout;
