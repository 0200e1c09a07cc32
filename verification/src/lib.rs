//! A bounded, sparse cellular-automaton engine.
//!
//! The [`model`] module holds the cell state type, the grid of alive
//! coordinates and the transition rule that produces one generation from
//! the previous one. The [`view`] module holds the geometry of a picture of
//! a grid; drawing it is left to the program that uses this library.

pub mod model;
pub mod view;
