//! The state of a single cell.

use vstd::prelude::*;

verus! {

/// Whether a cell is populated.
#[derive(Clone, Copy, Debug, PartialEq, Eq, Structural)]
pub enum CellState {
    Alive,
    Dead,
}

/// One cell of a dense matrix of states.
pub struct Cell {
    pub state: CellState,
}

impl Cell {
    /// True exactly when the cell's state is `Alive`.
    pub fn is_alive(&self) -> (alive: bool)
        ensures
            alive == (self.state == CellState::Alive),
            alive == (self.state != CellState::Dead),
    {
        self.state == CellState::Alive
    }

    /// True exactly when the cell's state is `Dead`.
    pub fn is_dead(&self) -> (dead: bool)
        ensures
            dead == (self.state == CellState::Dead),
            dead == (self.state != CellState::Alive),
    {
        self.state == CellState::Dead
    }
}

} // verus!
