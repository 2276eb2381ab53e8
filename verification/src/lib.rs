//! Conway's Game of Life on a fixed-size, non-wrapping board.
//!
//! The heart of the crate is [`grid::BoolGrid`], a double-buffered boolean
//! grid: reads go to the current generation, writes are staged into a second
//! buffer, and a flip promotes the staged generation to current. [`grid::Grid`]
//! is the interface a driver uses, [`rules`] the mathematical model the
//! contracts are stated over, [`laws`] the proved properties of the rule, and
//! [`ui`] the mapping from key presses to driver actions.

pub mod grid;
pub mod laws;
pub mod rules;
pub mod ui;
