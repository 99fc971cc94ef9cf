//! Conway's Game of Life on a torus: a fixed-size grid of cells, stepped one
//! generation at a time and rendered into a caller's pixel buffer.

pub mod buffer;
pub mod cell;
pub mod generation;
pub mod theorems;
pub mod universe;

pub use buffer::create_buffer;
pub use cell::Cell;
pub use universe::Universe;
