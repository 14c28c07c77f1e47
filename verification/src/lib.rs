//! Conway's Game of Life on a rectangular grid whose opposite edges are
//! joined.
//!
//! [`Universe`] holds the cells and the operations on them; each operation
//! states what it does over [`Grid`], the universe as a mathematical value.
//! The module [`laws`] proves what holds of every grid, and [`patterns`]
//! how two classic patterns evolve.

pub mod arith;
pub mod cell;
pub mod error;
pub mod grid;
pub mod laws;
pub mod patterns;
pub mod universe;

pub use cell::Cell;
pub use error::GridError;
pub use grid::Grid;
pub use universe::Universe;
