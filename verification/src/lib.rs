//! Conway's Game of Life on a fixed-size rectangular grid.
//!
//! A [`Universe`] owns a grid of cells, each dead (`0`) or alive (`1`),
//! advances it one generation at a time under the standard neighbor-counting
//! rule, and keeps a bounded stack of prior grids for one-step-at-a-time
//! rewind. The grid rule itself is stated once, as spec functions in
//! [`rules`], and every method's contract is phrased over that model.

pub mod laws;
pub mod rules;
pub mod universe;

pub use universe::Universe;
