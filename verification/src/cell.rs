//! The binary state of one grid position and the fixed transition rule.

use vstd::prelude::*;

verus! {

/// State of a single grid position: either dead or alive. A cell has no
/// identity beyond its position; the transition engine recomputes every
/// cell each generation.
#[derive(Clone, Copy, Debug, PartialEq, Eq, Structural)]
pub enum Cell {
    Dead,
    Alive,
}

/// The opposite state: alive becomes dead and dead becomes alive.
pub open spec fn flip(c: Cell) -> Cell {
    match c {
        Cell::Dead => Cell::Alive,
        Cell::Alive => Cell::Dead,
    }
}

/// Contribution of one cell to a live-neighbor sum: 1 if alive, 0 if dead.
pub open spec fn cell_bit(c: Cell) -> int {
    match c {
        Cell::Dead => 0,
        Cell::Alive => 1,
    }
}

/// The Game of Life rule table. A live cell with fewer than two live
/// neighbors dies (underpopulation); with two or three it survives; with
/// more than three it dies (overpopulation). A dead cell with exactly
/// three live neighbors becomes alive (reproduction); any other cell
/// keeps its state.
pub open spec fn next_cell_state(c: Cell, live_neighbors: int) -> Cell {
    match c {
        Cell::Alive => if live_neighbors < 2 {
            Cell::Dead
        } else if live_neighbors == 2 || live_neighbors == 3 {
            Cell::Alive
        } else {
            Cell::Dead
        },
        Cell::Dead => if live_neighbors == 3 {
            Cell::Alive
        } else {
            Cell::Dead
        },
    }
}

impl Cell {
    /// Flip this cell's state in place.
    pub fn toggle(&mut self)
        ensures
            *final(self) == flip(*old(self)),
    {
        *self = match *self {
            Cell::Dead => Cell::Alive,
            Cell::Alive => Cell::Dead,
        };
    }

    /// Set this cell alive.
    pub fn birth(&mut self)
        ensures
            *final(self) == Cell::Alive,
    {
        *self = Cell::Alive;
    }

    /// This cell's contribution to a live-neighbor sum.
    pub fn bit(&self) -> (b: u8)
        ensures
            b as int == cell_bit(*self),
    {
        match *self {
            Cell::Dead => 0,
            Cell::Alive => 1,
        }
    }

    /// Apply the rule table to this cell given its live-neighbor count.
    pub fn next_state(&self, live_neighbors: u8) -> (r: Cell)
        ensures
            r == next_cell_state(*self, live_neighbors as int),
    {
        match (*self, live_neighbors) {
            (Cell::Alive, x) if x < 2 => Cell::Dead,
            (Cell::Alive, 2) | (Cell::Alive, 3) => Cell::Alive,
            (Cell::Alive, x) if x > 3 => Cell::Dead,
            (Cell::Dead, 3) => Cell::Alive,
            (otherwise, _) => otherwise,
        }
    }
}

} // verus!
