//! Conway's Game of Life on a torus, over a bit-packed grid.
//!
//! The [`Universe`] owns the grid dimensions and one bit per cell. Its
//! operations are specified against [`grid::Grid`], the mathematical view of
//! a universe, and proved to implement it.

pub mod bitset;
pub mod grid;
pub mod laws;
pub mod patterns;
pub mod universe;

pub use universe::Cell;
pub use universe::Universe;
