//! One cell of the grid and the rule by which it lives or dies.

use vstd::prelude::*;

verus! {

/// The state of one cell.
#[derive(Clone, Copy, Debug, PartialEq, Eq, Structural)]
pub enum Cell {
    Dead,
    Alive,
}

impl Cell {
    /// The cell as a number: 0 when dead, 1 when alive. Live neighbours are
    /// counted by adding these up.
    pub open spec fn as_int(self) -> int {
        match self {
            Cell::Dead => 0,
            Cell::Alive => 1,
        }
    }

    /// The other state.
    pub open spec fn toggled(self) -> Cell {
        match self {
            Cell::Dead => Cell::Alive,
            Cell::Alive => Cell::Dead,
        }
    }

    /// The state of this cell in the next generation, given how many of its
    /// eight neighbours are alive now. A live cell survives with two or three
    /// live neighbours; a dead cell comes alive with exactly three.
    pub open spec fn evolved(self, live_neighbors: int) -> Cell {
        match self {
            Cell::Alive => if live_neighbors == 2 || live_neighbors == 3 {
                Cell::Alive
            } else {
                Cell::Dead
            },
            Cell::Dead => if live_neighbors == 3 {
                Cell::Alive
            } else {
                Cell::Dead
            },
        }
    }

    /// The cell that a coin flip seeds: heads (`true`) leaves it dead, tails
    /// makes it alive.
    pub open spec fn of_coin(flip: bool) -> Cell {
        if flip {
            Cell::Dead
        } else {
            Cell::Alive
        }
    }

    /// 0 for a dead cell, 1 for a live one.
    pub fn value(self) -> (v: u8)
        ensures
            v == self.as_int(),
    {
        match self {
            Cell::Dead => 0,
            Cell::Alive => 1,
        }
    }

    /// Flips the cell in place.
    pub fn toggle(&mut self)
        ensures
            *final(self) == old(self).toggled(),
    {
        *self = match *self {
            Cell::Dead => Cell::Alive,
            Cell::Alive => Cell::Dead,
        };
    }

    /// Applies the transition rule to one cell.
    pub fn evolve(self, live_neighbors: u8) -> (next: Cell)
        ensures
            next == self.evolved(live_neighbors as int),
    {
        match (self, live_neighbors) {
            (Cell::Alive, x) if x < 2 || x > 3 => Cell::Dead,
            (Cell::Alive, 2) | (_, 3) => Cell::Alive,
            (x, _) => x,
        }
    }

    /// Seeds a cell from a coin flip.
    pub fn from_coin(flip: bool) -> (cell: Cell)
        ensures
            cell == Cell::of_coin(flip),
    {
        if flip {
            Cell::Dead
        } else {
            Cell::Alive
        }
    }
}

} // verus!
