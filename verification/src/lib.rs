//! Conway's Game of Life on a torus, with the per-cell changes between
//! successive generations.
//!
//! The grid is a flat, row-major sequence of cells. Every executable function
//! carries a contract over the mathematical model in [`grid`], and the laws
//! that relate several functions are proved in [`laws`].

pub mod cell;
pub mod grid;
pub mod laws;
pub mod random;
pub mod universe;

pub use cell::Cell;
pub use cell::CellDelta;
pub use universe::Universe;
pub use universe::UniverseView;
