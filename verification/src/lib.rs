//! Conway's Game of Life on a fixed-size toroidal grid.
//!
//! The crate models a rectangular grid of cells, each `Dead` or `Alive`,
//! whose edges wrap around: every cell has exactly eight neighbors. A
//! [`Universe`] owns the cell buffer and advances it one generation at a
//! time under the standard transition rule, reading only the previous
//! generation.

pub mod grid;
pub mod rules;

pub use grid::OutOfRange;
pub use grid::Universe;
pub use rules::Cell;
