//! The state of a single grid cell and the rule that drives it.

use vstd::prelude::*;

verus! {

/// The glyph that stands for a dead cell in rendered text.
pub const DEAD_GLYPH: char = '\u{25FB}';

/// The glyph that stands for a live cell in rendered text.
pub const ALIVE_GLYPH: char = '\u{25FC}';

/// One cell of the grid: either dead or alive.
#[derive(Clone, Copy, Debug, PartialEq, Eq, Structural)]
pub enum Cell {
    Dead,
    Alive,
}

impl Cell {
    /// The cell that a seed value stands for: `true` is alive, `false` is dead.
    pub open spec fn seeded(alive: bool) -> Cell {
        if alive {
            Cell::Alive
        } else {
            Cell::Dead
        }
    }

    /// What the cell adds to the live-neighbor count of the cells around it.
    pub open spec fn population(self) -> nat {
        match self {
            Cell::Dead => 0,
            Cell::Alive => 1,
        }
    }

    /// The glyph that stands for the cell in rendered text.
    pub open spec fn glyph(self) -> char {
        match self {
            Cell::Dead => DEAD_GLYPH,
            Cell::Alive => ALIVE_GLYPH,
        }
    }

    /// The opposite state.
    pub open spec fn toggled(self) -> Cell {
        match self {
            Cell::Dead => Cell::Alive,
            Cell::Alive => Cell::Dead,
        }
    }

    /// The state of a cell in the next generation, given its current state
    /// and the number of its live neighbors.
    ///
    /// A live cell with fewer than two live neighbors dies of
    /// underpopulation, one with two or three lives on, and one with more
    /// than three dies of overpopulation. A dead cell comes alive with
    /// exactly three live neighbors and stays dead otherwise.
    pub open spec fn evolved(self, live_neighbors: nat) -> Cell {
        match self {
            Cell::Alive => if live_neighbors < 2 {
                Cell::Dead
            } else if live_neighbors == 2 || live_neighbors == 3 {
                Cell::Alive
            } else {
                Cell::Dead
            },
            Cell::Dead => if live_neighbors == 3 {
                Cell::Alive
            } else {
                Cell::Dead
            },
        }
    }

    /// Turns a seed value into a cell.
    pub fn from_seed(alive: bool) -> (cell: Cell)
        ensures
            cell == Cell::seeded(alive),
    {
        if alive {
            Cell::Alive
        } else {
            Cell::Dead
        }
    }

    /// Whether the cell is alive.
    pub fn is_alive(self) -> (alive: bool)
        ensures
            alive == (self == Cell::Alive),
    {
        match self {
            Cell::Dead => false,
            Cell::Alive => true,
        }
    }

    /// The glyph that stands for the cell in rendered text, as a string.
    pub fn symbol(self) -> (symbol: &'static str)
        ensures
            symbol@ == seq![self.glyph()],
    {
        proof {
            reveal_strlit("\u{25FB}");
            reveal_strlit("\u{25FC}");
        }
        let symbol = match self {
            Cell::Dead => "\u{25FB}",
            Cell::Alive => "\u{25FC}",
        };
        assert(symbol@ =~= seq![self.glyph()]);
        symbol
    }

    /// Flips the cell between dead and alive.
    pub fn toggle(&mut self)
        ensures
            *final(self) == old(self).toggled(),
    {
        *self = match *self {
            Cell::Dead => Cell::Alive,
            Cell::Alive => Cell::Dead,
        };
    }

    /// Applies the rule of the game to one cell.
    pub fn next_state(self, live_neighbors: u8) -> (next: Cell)
        ensures
            next == self.evolved(live_neighbors as nat),
    {
        match (self, live_neighbors) {
            (Cell::Alive, 2) | (Cell::Alive, 3) => Cell::Alive,
            (Cell::Dead, 3) => Cell::Alive,
            (_, _) => Cell::Dead,
        }
    }
}

} // verus!
