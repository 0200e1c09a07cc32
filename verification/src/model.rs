//! The simulation model: cells, the grid that holds them and the rules
//! that advance it.

pub mod cell;
pub mod coord;
pub mod grid;
pub mod laws;
pub mod rules;
