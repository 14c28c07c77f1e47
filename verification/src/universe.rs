//! The universe: the grid of cells and the operations that read and change it.

use crate::arith::{lemma_position_div_mod, lemma_position_in_range};
use crate::cell::Cell;
use crate::error::GridError;
use crate::grid::{Grid, MAX_CELLS};
use crate::laws::stamp_one_more;
use vstd::prelude::*;

verus! {

/// A grid of cells that evolves by the rule of the game.
pub struct Universe {
    width: u32,
    height: u32,
    generations_per_tick: u32,
    cells: Vec<Cell>,
}

impl View for Universe {
    type V = Grid;

    closed spec fn view(&self) -> Grid {
        Grid {
            width: self.width as nat,
            height: self.height as nat,
            generations_per_tick: self.generations_per_tick as nat,
            cells: self.cells@,
        }
    }
}

impl Universe {
    #[verifier::type_invariant]
    spec fn inv(&self) -> bool {
        &&& self.cells@.len() == self.width * self.height
        &&& self.width * self.height <= MAX_CELLS
    }

    /// Whether every cell of `cells` is one that a call of `seed_fn` can
    /// give: alive for a seed of `true`, dead for a seed of `false`.
    pub open spec fn drawn_from<F: Fn() -> bool>(cells: Seq<Cell>, seed_fn: F) -> bool {
        forall|i: int|
            0 <= i < cells.len() ==> seed_fn.ensures((), (#[trigger] cells[i]) == Cell::Alive)
    }

    /// Creates a universe of `width` by `height` cells that advances by one
    /// generation per tick. Every cell is drawn from `seed_fn`, row by row:
    /// a seed of `true` gives a live cell, a seed of `false` a dead one.
    ///
    /// Dimensions that give more than [`MAX_CELLS`] cells are refused.
    pub fn new<F: Fn() -> bool>(width: u32, height: u32, seed_fn: F) -> (result: Result<
        Universe,
        GridError,
    >)
        requires
            seed_fn.requires(()),
        ensures
            match result {
                Ok(universe) => {
                    &&& Grid::fits(width as nat, height as nat)
                    &&& universe@.wf()
                    &&& universe@.width == width
                    &&& universe@.height == height
                    &&& universe@.generations_per_tick == 1
                    &&& Universe::drawn_from(universe@.cells, seed_fn)
                },
                Err(error) => {
                    &&& error == GridError::AllocationFailure
                    &&& !Grid::fits(width as nat, height as nat)
                },
            },
    {
        match width.checked_mul(height) {
            Some(count) => {
                let cells = Universe::generate_cells(count, seed_fn);
                Ok(Universe { width, height, generations_per_tick: 1, cells })
            },
            None => Err(GridError::AllocationFailure),
        }
    }

    /// Draws `count` cells from `seed_fn`, one call for each, in the order
    /// in which they are stored.
    fn generate_cells<F: Fn() -> bool>(count: u32, seed_fn: F) -> (cells: Vec<Cell>)
        requires
            seed_fn.requires(()),
        ensures
            cells@.len() == count,
            Universe::drawn_from(cells@, seed_fn),
    {
        let mut cells: Vec<Cell> = Vec::new();
        let mut drawn: u32 = 0;
        while drawn < count
            invariant
                drawn <= count,
                cells@.len() == drawn,
                seed_fn.requires(()),
                Universe::drawn_from(cells@, seed_fn),
            decreases count - drawn,
        {
            let seed = seed_fn();
            cells.push(Cell::from_seed(seed));
            drawn += 1;
        }
        cells
    }

    /// Replaces every cell by one drawn from `seed_fn`, row by row. The
    /// dimensions and the number of generations per tick stay as they are.
    pub fn reset<F: Fn() -> bool>(&mut self, seed_fn: F)
        requires
            seed_fn.requires(()),
        ensures
            old(self)@.wf(),
            final(self)@.wf(),
            final(self)@.width == old(self)@.width,
            final(self)@.height == old(self)@.height,
            final(self)@.generations_per_tick == old(self)@.generations_per_tick,
            Universe::drawn_from(final(self)@.cells, seed_fn),
    {
        proof {
            use_type_invariant(&*self);
        }
        let next = Universe::generate_cells(self.width * self.height, seed_fn);
        self.cells = next;
    }

    /// Sets the number of generations that one tick advances the universe
    /// by. With zero, a tick changes nothing.
    pub fn set_generations_per_tick(&mut self, updated_ticks: u32)
        ensures
            final(self)@ == old(self)@.with_generations_per_tick(updated_ticks as nat),
            old(self)@.wf(),
            final(self)@.wf(),
    {
        proof {
            use_type_invariant(&*self);
        }
        self.generations_per_tick = updated_ticks;
    }

    /// The number of generations that one tick advances the universe by.
    pub fn generations_per_tick(&self) -> (generations: u32)
        ensures
            generations == self@.generations_per_tick,
    {
        self.generations_per_tick
    }

    /// The number of columns.
    pub fn width(&self) -> (width: u32)
        ensures
            width == self@.width,
    {
        self.width
    }

    /// The number of rows.
    pub fn height(&self) -> (height: u32)
        ensures
            height == self@.height,
    {
        self.height
    }

    /// The cells, row after row.
    pub fn cells(&self) -> (cells: &[Cell])
        ensures
            cells@ == self@.cells,
            self@.wf(),
    {
        proof {
            use_type_invariant(self);
        }
        self.cells.as_slice()
    }

    /// The cells, row after row.
    pub fn get_cells(&self) -> (cells: &[Cell])
        ensures
            cells@ == self@.cells,
            self@.wf(),
    {
        proof {
            use_type_invariant(self);
        }
        self.cells.as_slice()
    }

    /// The position of the cell `(row, column)` in the cell buffer.
    pub fn get_index(&self, row: u32, column: u32) -> (index: usize)
        requires
            self@.in_bounds(row as int, column as int),
        ensures
            index == self@.index(row as int, column as int),
            index < self@.cells.len(),
    {
        proof {
            use_type_invariant(self);
            lemma_position_in_range(self.width as int, self.height as int, row as int, column as int);
        }
        row as usize * self.width as usize + column as usize
    }

    /// The position of the cell `(row, column)` in the cell buffer, or
    /// `OutOfRange` if the grid has no such cell.
    pub fn checked_index(&self, row: u32, column: u32) -> (result: Result<usize, GridError>)
        ensures
            match result {
                Ok(index) => {
                    &&& self@.in_bounds(row as int, column as int)
                    &&& index == self@.index(row as int, column as int)
                    &&& index < self@.cells.len()
                },
                Err(error) => {
                    &&& error == GridError::OutOfRange
                    &&& !self@.in_bounds(row as int, column as int)
                },
            },
    {
        if row < self.height && column < self.width {
            Ok(self.get_index(row, column))
        } else {
            Err(GridError::OutOfRange)
        }
    }

    /// The cell at `(row, column)`, or `OutOfRange` if the grid has no such
    /// cell.
    pub fn cell_at(&self, row: u32, column: u32) -> (result: Result<Cell, GridError>)
        ensures
            match result {
                Ok(cell) => {
                    &&& self@.in_bounds(row as int, column as int)
                    &&& cell == self@.cell(row as int, column as int)
                },
                Err(error) => {
                    &&& error == GridError::OutOfRange
                    &&& !self@.in_bounds(row as int, column as int)
                },
            },
    {
        match self.checked_index(row, column) {
            Ok(index) => Ok(self.cells[index]),
            Err(error) => Err(error),
        }
    }

    /// What the cell `(row, column)` adds to the live-neighbor count of the
    /// cells around it.
    fn population_at(&self, row: u32, column: u32) -> (population: u8)
        requires
            self@.in_bounds(row as int, column as int),
        ensures
            population == self@.cell(row as int, column as int).population(),
            population <= 1,
    {
        let index = self.get_index(row, column);
        match self.cells[index] {
            Cell::Dead => 0,
            Cell::Alive => 1,
        }
    }

    /// The number of live cells among the eight neighbors of
    /// `(row, column)`, where the grid wraps around at its edges.
    pub fn live_neighbor_count(&self, row: u32, column: u32) -> (count: u8)
        requires
            self@.in_bounds(row as int, column as int),
        ensures
            count == self@.live_neighbor_count(row as int, column as int),
            count <= 8,
    {
        let mut count: u8 = 0;

        let north = if row == 0 {
            self.height - 1
        } else {
            row - 1
        };

        let south = if row == self.height - 1 {
            0
        } else {
            row + 1
        };

        let west = if column == 0 {
            self.width - 1
        } else {
            column - 1
        };

        let east = if column == self.width - 1 {
            0
        } else {
            column + 1
        };

        count += self.population_at(north, west);
        count += self.population_at(north, column);
        count += self.population_at(north, east);
        count += self.population_at(row, west);
        count += self.population_at(row, east);
        count += self.population_at(south, west);
        count += self.population_at(south, column);
        count += self.population_at(south, east);

        count
    }

    /// The cells of the next generation, computed from the current
    /// generation alone.
    fn next_cells(&self) -> (next: Vec<Cell>)
        ensures
            next@ == self@.next_generation().cells,
    {
        let mut next: Vec<Cell> = Vec::new();
        let mut row: u32 = 0;
        while row < self.height
            invariant
                row <= self.height,
                next@.len() == row * self.width,
                forall|i: int|
                    0 <= i < next@.len() ==> next@[i] == self@.next_generation().cells[i],
            decreases self.height - row,
        {
            let mut column: u32 = 0;
            while column < self.width
                invariant
                    row < self.height,
                    column <= self.width,
                    next@.len() == row * self.width + column,
                    forall|i: int|
                        0 <= i < next@.len() ==> next@[i] == self@.next_generation().cells[i],
                decreases self.width - column,
            {
                let index = self.get_index(row, column);
                let current_cell = self.cells[index];
                let live_neighbors = self.live_neighbor_count(row, column);
                let next_cell = current_cell.next_state(live_neighbors);
                proof {
                    lemma_position_div_mod(self.width as int, row as int, column as int);
                }
                next.push(next_cell);
                column += 1;
            }
            proof {
                assert((row + 1) * self.width == row * self.width + self.width)
                    by (nonlinear_arith);
            }
            row += 1;
        }
        proof {
            use_type_invariant(self);
            assert(self.height * self.width == self.width * self.height) by (nonlinear_arith);
        }
        next
    }

    /// Advances the universe by as many generations as it is set to
    /// advance per tick. Every generation is computed from the one before
    /// it as a whole.
    pub fn tick(&mut self)
        ensures
            final(self)@ == old(self)@.tick(),
            old(self)@.wf(),
            final(self)@.wf(),
    {
        proof {
            use_type_invariant(&*self);
        }
        let mut generation: u32 = 0;
        while generation < self.generations_per_tick
            invariant
                generation <= self.generations_per_tick,
                self.generations_per_tick == old(self).generations_per_tick,
                self@ == old(self)@.advance(generation as nat),
            decreases self.generations_per_tick - generation,
        {
            let next = self.next_cells();
            proof {
                use_type_invariant(&*self);
            }
            self.cells = next;
            generation += 1;
        }
        proof {
            use_type_invariant(&*self);
        }
    }

    /// `count` dead cells.
    fn dead_cells(count: u32) -> (cells: Vec<Cell>)
        ensures
            cells@ == Seq::new(count as nat, |i: int| Cell::Dead),
    {
        let mut cells: Vec<Cell> = Vec::new();
        let mut made: u32 = 0;
        while made < count
            invariant
                made <= count,
                cells@ == Seq::new(made as nat, |i: int| Cell::Dead),
            decreases count - made,
        {
            cells.push(Cell::Dead);
            made += 1;
        }
        cells
    }

    /// Gives the universe `width` columns and makes every cell dead; what
    /// the cells held before is lost.
    ///
    /// A width that gives more than [`MAX_CELLS`] cells is refused, and the
    /// universe stays as it was.
    pub fn set_width(&mut self, width: u32) -> (result: Result<(), GridError>)
        ensures
            match result {
                Ok(()) => {
                    &&& Grid::fits(width as nat, old(self)@.height)
                    &&& final(self)@ == Grid::blank(
                        width as nat,
                        old(self)@.height,
                        old(self)@.generations_per_tick,
                    )
                    &&& final(self)@.all_dead()
                },
                Err(error) => {
                    &&& error == GridError::AllocationFailure
                    &&& !Grid::fits(width as nat, old(self)@.height)
                    &&& final(self)@ == old(self)@
                },
            },
            old(self)@.wf(),
            final(self)@.wf(),
    {
        proof {
            use_type_invariant(&*self);
        }
        match width.checked_mul(self.height) {
            Some(count) => {
                let cells = Universe::dead_cells(count);
                *self = Universe {
                    width,
                    height: self.height,
                    generations_per_tick: self.generations_per_tick,
                    cells,
                };
                Ok(())
            },
            None => Err(GridError::AllocationFailure),
        }
    }

    /// Gives the universe `height` rows and makes every cell dead; what the
    /// cells held before is lost.
    ///
    /// A height that gives more than [`MAX_CELLS`] cells is refused, and
    /// the universe stays as it was.
    pub fn set_height(&mut self, height: u32) -> (result: Result<(), GridError>)
        ensures
            match result {
                Ok(()) => {
                    &&& Grid::fits(old(self)@.width, height as nat)
                    &&& final(self)@ == Grid::blank(
                        old(self)@.width,
                        height as nat,
                        old(self)@.generations_per_tick,
                    )
                    &&& final(self)@.all_dead()
                },
                Err(error) => {
                    &&& error == GridError::AllocationFailure
                    &&& !Grid::fits(old(self)@.width, height as nat)
                    &&& final(self)@ == old(self)@
                },
            },
            old(self)@.wf(),
            final(self)@.wf(),
    {
        proof {
            use_type_invariant(&*self);
        }
        match self.width.checked_mul(height) {
            Some(count) => {
                let cells = Universe::dead_cells(count);
                *self = Universe {
                    width: self.width,
                    height,
                    generations_per_tick: self.generations_per_tick,
                    cells,
                };
                Ok(())
            },
            None => Err(GridError::AllocationFailure),
        }
    }

    /// Flips the cell at `(row, column)` between dead and alive. If the
    /// grid has no such cell, the universe stays as it was.
    pub fn toggle_cell(&mut self, row: u32, column: u32) -> (result: Result<(), GridError>)
        ensures
            match result {
                Ok(()) => {
                    &&& old(self)@.in_bounds(row as int, column as int)
                    &&& final(self)@ == old(self)@.toggled(row as int, column as int)
                },
                Err(error) => {
                    &&& error == GridError::OutOfRange
                    &&& !old(self)@.in_bounds(row as int, column as int)
                    &&& final(self)@ == old(self)@
                },
            },
            old(self)@.wf(),
            final(self)@.wf(),
    {
        proof {
            use_type_invariant(&*self);
        }
        match self.checked_index(row, column) {
            Ok(idx) => {
                self.cells[idx].toggle();
                Ok(())
            },
            Err(error) => Err(error),
        }
    }

    /// Makes every cell that `cells` names alive and leaves the other cells
    /// as they are. A cell may be named more than once.
    ///
    /// If any of the coordinates names no cell of the grid, the universe
    /// stays as it was.
    pub fn set_cells(&mut self, cells: &[(u32, u32)]) -> (result: Result<(), GridError>)
        ensures
            match result {
                Ok(()) => {
                    &&& old(self)@.all_in_bounds(cells@)
                    &&& final(self)@ == old(self)@.stamped(cells@)
                },
                Err(error) => {
                    &&& error == GridError::OutOfRange
                    &&& !old(self)@.all_in_bounds(cells@)
                    &&& final(self)@ == old(self)@
                },
            },
            old(self)@.wf(),
            final(self)@.wf(),
    {
        proof {
            use_type_invariant(&*self);
        }
        let mut checked: usize = 0;
        while checked < cells.len()
            invariant
                checked <= cells.len(),
                forall|k: int|
                    0 <= k < checked ==> self@.in_bounds(
                        (#[trigger] cells@[k]).0 as int,
                        cells@[k].1 as int,
                    ),
            decreases cells.len() - checked,
        {
            let (row, column) = cells[checked];
            if row >= self.height || column >= self.width {
                proof {
                    use_type_invariant(&*self);
                }
                assert(!self@.in_bounds(
                    cells@[checked as int].0 as int,
                    cells@[checked as int].1 as int,
                ));
                return Err(GridError::OutOfRange);
            }
            checked += 1;
        }
        proof {
            use_type_invariant(&*self);
            assert(self@.stamped(cells@.take(0)).cells =~= self@.cells) by {
                assert(forall|i: int| !self@.addressed(cells@.take(0), i));
            }
        }
        let mut stamped: usize = 0;
        while stamped < cells.len()
            invariant
                stamped <= cells.len(),
                old(self)@.all_in_bounds(cells@),
                self@ == old(self)@.stamped(cells@.take(stamped as int)),
            decreases cells.len() - stamped,
        {
            let (row, column) = cells[stamped];
            assert(old(self)@.in_bounds(cells@[stamped as int].0 as int, cells@[stamped as int].1 as int));
            let idx = self.get_index(row, column);
            proof {
                use_type_invariant(&*self);
                stamp_one_more(old(self)@, cells@.take(stamped as int), cells@[stamped as int]);
                assert(cells@.take(stamped as int + 1) =~= cells@.take(stamped as int).push(
                    cells@[stamped as int],
                ));
            }
            self.cells[idx] = Cell::Alive;
            stamped += 1;
        }
        proof {
            assert(cells@.take(cells@.len() as int) =~= cells@);
        }
        Ok(())
    }

    /// The grid as text: one line for each row, one glyph for each cell,
    /// and a line feed at the end of every line.
    pub fn render(&self) -> (text: String)
        ensures
            text@ == self@.rendered(),
    {
        let ghost line = self.width as int + 1;
        let ghost rendered = self@.rendered();
        proof {
            assert(self.height * line == line * self.height) by (nonlinear_arith);
        }
        let mut text = String::new();
        let mut row: u32 = 0;
        while row < self.height
            invariant
                row <= self.height,
                line == self.width + 1,
                rendered == self@.rendered(),
                rendered.len() == line * self.height,
                text@.len() == row * line,
                forall|i: int| 0 <= i < text@.len() ==> text@[i] == rendered[i],
            decreases self.height - row,
        {
            let mut column: u32 = 0;
            while column < self.width
                invariant
                    row < self.height,
                    column <= self.width,
                    line == self.width + 1,
                    rendered == self@.rendered(),
                    rendered.len() == line * self.height,
                    text@.len() == row * line + column,
                    forall|i: int| 0 <= i < text@.len() ==> text@[i] == rendered[i],
                decreases self.width - column,
            {
                let index = self.get_index(row, column);
                let symbol = self.cells[index].symbol();
                proof {
                    lemma_position_div_mod(line, row as int, column as int);
                    lemma_position_in_range(line, self.height as int, row as int, column as int);
                    assert(symbol@ =~= seq![rendered[row * line + column]]);
                }
                text.append(symbol);
                column += 1;
            }
            proof {
                reveal_strlit("\n");
                lemma_position_div_mod(line, row as int, column as int);
                lemma_position_in_range(line, self.height as int, row as int, column as int);
                assert("\n"@ =~= seq![rendered[row * line + column]]);
                assert((row + 1) * line == row * line + line) by (nonlinear_arith);
            }
            text.append("\n");
            row += 1;
        }
        assert(text@ =~= rendered);
        text
    }
}

} // verus!
