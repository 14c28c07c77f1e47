//! The mathematical model of a universe: a rectangle of cells, stored row
//! by row, whose opposite edges are joined so that it has no border.

use crate::cell::Cell;
use vstd::prelude::*;

verus! {

/// The largest number of cells that a universe may hold: the number of
/// cells is a 32-bit number.
pub const MAX_CELLS: u32 = 0xFFFF_FFFF;

/// What a universe is, as a mathematical value.
pub struct Grid {
    /// The number of columns.
    pub width: nat,
    /// The number of rows.
    pub height: nat,
    /// How many generations one tick advances the grid by.
    pub generations_per_tick: nat,
    /// The cells, row after row.
    pub cells: Seq<Cell>,
}

impl Grid {
    /// The cell buffer holds exactly one cell per coordinate.
    pub open spec fn wf(self) -> bool {
        self.cells.len() == self.width * self.height
    }

    /// Whether `width` by `height` cells are few enough to be held.
    pub open spec fn fits(width: nat, height: nat) -> bool {
        width * height <= MAX_CELLS
    }

    /// The grid of the given dimensions in which every cell is dead.
    pub open spec fn blank(width: nat, height: nat, generations_per_tick: nat) -> Grid {
        Grid {
            width,
            height,
            generations_per_tick,
            cells: Seq::new(width * height, |i: int| Cell::Dead),
        }
    }

    /// Whether every cell of the grid is dead.
    pub open spec fn all_dead(self) -> bool {
        forall|i: int| 0 <= i < self.cells.len() ==> self.cells[i] == Cell::Dead
    }

    /// Whether `(row, column)` names a cell of the grid.
    pub open spec fn in_bounds(self, row: int, column: int) -> bool {
        0 <= row < self.height && 0 <= column < self.width
    }

    /// The position of the cell `(row, column)` in the cell buffer.
    pub open spec fn index(self, row: int, column: int) -> int {
        row * self.width + column
    }

    /// The cell at `(row, column)`.
    pub open spec fn cell(self, row: int, column: int) -> Cell {
        self.cells[self.index(row, column)]
    }

    /// The row above `row`; above the first row lies the last one.
    pub open spec fn north(self, row: int) -> int {
        if row == 0 {
            self.height - 1
        } else {
            row - 1
        }
    }

    /// The row below `row`; below the last row lies the first one.
    pub open spec fn south(self, row: int) -> int {
        if row == self.height - 1 {
            0
        } else {
            row + 1
        }
    }

    /// The column left of `column`; left of the first column lies the last one.
    pub open spec fn west(self, column: int) -> int {
        if column == 0 {
            self.width - 1
        } else {
            column - 1
        }
    }

    /// The column right of `column`; right of the last column lies the first one.
    pub open spec fn east(self, column: int) -> int {
        if column == self.width - 1 {
            0
        } else {
            column + 1
        }
    }

    /// The number of live cells among the eight neighbors of `(row, column)`.
    pub open spec fn live_neighbor_count(self, row: int, column: int) -> nat {
        let north = self.north(row);
        let south = self.south(row);
        let west = self.west(column);
        let east = self.east(column);
        self.cell(north, west).population() + self.cell(north, column).population() + self.cell(
            north,
            east,
        ).population() + self.cell(row, west).population() + self.cell(row, east).population()
            + self.cell(south, west).population() + self.cell(south, column).population()
            + self.cell(south, east).population()
    }

    /// The state of the cell `(row, column)` one generation later.
    pub open spec fn next_cell(self, row: int, column: int) -> Cell {
        self.cell(row, column).evolved(self.live_neighbor_count(row, column))
    }

    /// The grid one generation later: every cell evolves at once, from the
    /// current generation alone.
    pub open spec fn next_generation(self) -> Grid {
        Grid {
            cells: Seq::new(
                self.cells.len(),
                |i: int| self.next_cell(i / (self.width as int), i % (self.width as int)),
            ),
            ..self
        }
    }

    /// The grid `generations` generations later.
    pub open spec fn advance(self, generations: nat) -> Grid
        decreases generations,
    {
        if generations == 0 {
            self
        } else {
            self.advance((generations - 1) as nat).next_generation()
        }
    }

    /// The grid after one tick.
    pub open spec fn tick(self) -> Grid {
        self.advance(self.generations_per_tick)
    }

    /// The grid after `count` ticks.
    pub open spec fn ticks(grid: Grid, count: nat) -> Grid
        decreases count,
    {
        if count == 0 {
            grid
        } else {
            Grid::ticks(grid, (count - 1) as nat).tick()
        }
    }

    /// The same grid, set to advance by `generations` generations per tick.
    pub open spec fn with_generations_per_tick(self, generations: nat) -> Grid {
        Grid { generations_per_tick: generations, ..self }
    }

    /// The grid with the cell `(row, column)` flipped.
    pub open spec fn toggled(self, row: int, column: int) -> Grid {
        Grid {
            cells: self.cells.update(self.index(row, column), self.cell(row, column).toggled()),
            ..self
        }
    }

    /// Whether every coordinate in `coordinates` names a cell of the grid.
    pub open spec fn all_in_bounds(self, coordinates: Seq<(u32, u32)>) -> bool {
        forall|k: int|
            0 <= k < coordinates.len() ==> self.in_bounds(
                (#[trigger] coordinates[k]).0 as int,
                coordinates[k].1 as int,
            )
    }

    /// Whether one of `coordinates` names the cell at position `i` of the
    /// cell buffer.
    pub open spec fn addressed(self, coordinates: Seq<(u32, u32)>, i: int) -> bool {
        exists|k: int|
            0 <= k < coordinates.len() && self.index(
                (#[trigger] coordinates[k]).0 as int,
                coordinates[k].1 as int,
            ) == i
    }

    /// The grid with every cell that `coordinates` names alive, and every
    /// other cell as it was.
    pub open spec fn stamped(self, coordinates: Seq<(u32, u32)>) -> Grid {
        Grid {
            cells: Seq::new(
                self.cells.len(),
                |i: int|
                    if self.addressed(coordinates, i) {
                        Cell::Alive
                    } else {
                        self.cells[i]
                    },
            ),
            ..self
        }
    }

    /// The grid as text: one line for each row, one glyph for each cell,
    /// and a line feed at the end of every line.
    pub open spec fn rendered(self) -> Seq<char> {
        Seq::new(
            self.height * (self.width + 1),
            |i: int|
                {
                    let row = i / (self.width as int + 1);
                    let column = i % (self.width as int + 1);
                    if column == self.width {
                        '\n'
                    } else {
                        self.cell(row, column).glyph()
                    }
                },
        )
    }
}

} // verus!
