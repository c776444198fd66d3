//! A verified engine for Conway's Game of Life on a fixed-size toroidal grid.
//!
//! The grid is a flat, row-major array of binary cells. Neighbor counting
//! wraps around the edges, so the grid is topologically a torus. The engine
//! advances one generation per call, evaluating the standard Conway rule
//! against a frozen snapshot of the current state.

pub mod cell;
pub mod coords;
pub mod grid;

pub use cell::Cell;
pub use grid::BoolSource;
pub use grid::CycleSource;
pub use grid::GridError;
pub use grid::Universe;
