//! The state of a single cell and the rule that decides its next state.

use vstd::prelude::*;

verus! {

/// One cell of the grid.
#[derive(Clone, Copy, Debug, PartialEq, Eq, Structural)]
pub enum Cell {
    Dead,
    Alive,
}

/// The other state.
pub open spec fn flipped(cell: Cell) -> Cell {
    if cell == Cell::Alive {
        Cell::Dead
    } else {
        Cell::Alive
    }
}

/// What a cell adds to the neighbour count of the cells around it.
pub open spec fn weight(cell: Cell) -> int {
    if cell == Cell::Alive {
        1
    } else {
        0
    }
}

/// The state of a cell in the next generation, given its state now and the
/// number of live cells among its eight neighbours.
pub open spec fn next_state(cell: Cell, live_neighbors: int) -> Cell {
    if cell == Cell::Alive {
        if live_neighbors == 2 || live_neighbors == 3 {
            Cell::Alive
        } else {
            Cell::Dead
        }
    } else {
        if live_neighbors == 3 {
            Cell::Alive
        } else {
            Cell::Dead
        }
    }
}

impl Cell {
    /// Flips the cell: a dead cell comes alive, a live cell dies.
    pub fn toggle(&mut self)
        ensures
            *final(self) == flipped(*old(self)),
    {
        *self = match *self {
            Cell::Dead => Cell::Alive,
            Cell::Alive => Cell::Dead,
        };
    }

    /// The cell as a byte: 1 for a live cell, 0 for a dead one.
    pub fn as_u8(self) -> (byte: u8)
        ensures
            byte == weight(self),
    {
        match self {
            Cell::Dead => 0,
            Cell::Alive => 1,
        }
    }

    /// The cell's state one generation on, by Conway's rules.
    pub fn next(self, live_neighbors: u8) -> (cell: Cell)
        ensures
            cell == next_state(self, live_neighbors as int),
    {
        match self {
            Cell::Alive => {
                if live_neighbors < 2 {
                    Cell::Dead
                } else if live_neighbors == 2 || live_neighbors == 3 {
                    Cell::Alive
                } else {
                    Cell::Dead
                }
            },
            Cell::Dead => {
                if live_neighbors == 3 {
                    Cell::Alive
                } else {
                    Cell::Dead
                }
            },
        }
    }
}

} // verus!
