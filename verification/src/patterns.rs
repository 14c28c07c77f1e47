//! Two classic patterns and how they evolve on any grid that is large
//! enough to hold them: the block, which never changes, and the blinker,
//! which turns by a quarter with every generation.

use crate::cell::Cell;
use crate::grid::Grid;
use crate::laws::{index_in_range, index_is_onto, next_generation_follows_rule};
use vstd::prelude::*;

verus! {

impl Grid {
    /// Whether `(i, j)` lies in the two-by-two square whose upper left
    /// corner is `(row, column)`.
    pub open spec fn in_block(self, row: int, column: int, i: int, j: int) -> bool {
        (i == row || i == self.south(row)) && (j == column || j == self.east(column))
    }

    /// Whether `(i, j)` is `(row, column)` or the cell left or right of it.
    pub open spec fn in_horizontal_bar(self, row: int, column: int, i: int, j: int) -> bool {
        i == row && (j == self.west(column) || j == column || j == self.east(column))
    }

    /// Whether `(i, j)` is `(row, column)` or the cell above or below it.
    pub open spec fn in_vertical_bar(self, row: int, column: int, i: int, j: int) -> bool {
        j == column && (i == self.north(row) || i == row || i == self.south(row))
    }

    /// The live cells of the grid are exactly the four cells of the block
    /// whose upper left corner is `(row, column)`.
    pub open spec fn is_block(self, row: int, column: int) -> bool {
        forall|i: int, j: int|
            self.in_bounds(i, j) ==> ((#[trigger] self.cell(i, j)) == Cell::Alive
                <==> self.in_block(row, column, i, j))
    }

    /// The live cells of the grid are exactly three in a row, with
    /// `(row, column)` in the middle.
    pub open spec fn is_horizontal_blinker(self, row: int, column: int) -> bool {
        forall|i: int, j: int|
            self.in_bounds(i, j) ==> ((#[trigger] self.cell(i, j)) == Cell::Alive
                <==> self.in_horizontal_bar(row, column, i, j))
    }

    /// The live cells of the grid are exactly three in a column, with
    /// `(row, column)` in the middle.
    pub open spec fn is_vertical_blinker(self, row: int, column: int) -> bool {
        forall|i: int, j: int|
            self.in_bounds(i, j) ==> ((#[trigger] self.cell(i, j)) == Cell::Alive
                <==> self.in_vertical_bar(row, column, i, j))
    }
}

/// Two well-formed grids of the same shape with the same cell at every
/// coordinate hold the same cells.
proof fn lemma_same_cells(one: Grid, other: Grid)
    requires
        one.wf(),
        other.wf(),
        one.width == other.width,
        one.height == other.height,
        forall|i: int, j: int| one.in_bounds(i, j) ==> #[trigger] one.cell(i, j) == other.cell(i, j),
    ensures
        one.cells == other.cells,
{
    assert forall|p: int| 0 <= p < one.cells.len() implies one.cells[p] == other.cells[p] by {
        index_is_onto(one, p);
        let i = p / (one.width as int);
        let j = p % (one.width as int);
        assert(one.cell(i, j) == other.cell(i, j));
    }
    assert(one.cells =~= other.cells);
}

/// In a block, a cell is alive one generation later exactly if it belongs
/// to the block.
proof fn lemma_block_cell(grid: Grid, row: int, column: int, i: int, j: int)
    requires
        grid.wf(),
        grid.width >= 3,
        grid.height >= 3,
        grid.in_bounds(row, column),
        grid.is_block(row, column),
        grid.in_bounds(i, j),
    ensures
        grid.next_cell(i, j) == grid.cell(i, j),
{
    let north = grid.north(i);
    let south = grid.south(i);
    let west = grid.west(j);
    let east = grid.east(j);
    assert(grid.cell(i, j) == Cell::Alive <==> grid.in_block(row, column, i, j));
    assert(grid.cell(north, west) == Cell::Alive <==> grid.in_block(row, column, north, west));
    assert(grid.cell(north, j) == Cell::Alive <==> grid.in_block(row, column, north, j));
    assert(grid.cell(north, east) == Cell::Alive <==> grid.in_block(row, column, north, east));
    assert(grid.cell(i, west) == Cell::Alive <==> grid.in_block(row, column, i, west));
    assert(grid.cell(i, east) == Cell::Alive <==> grid.in_block(row, column, i, east));
    assert(grid.cell(south, west) == Cell::Alive <==> grid.in_block(row, column, south, west));
    assert(grid.cell(south, j) == Cell::Alive <==> grid.in_block(row, column, south, j));
    assert(grid.cell(south, east) == Cell::Alive <==> grid.in_block(row, column, south, east));
}

/// A block is a still life: on a grid of at least three rows and three
/// columns whose only live cells are the four of a two-by-two square, one
/// generation changes nothing.
pub proof fn block_is_still_life(grid: Grid, row: int, column: int)
    requires
        grid.wf(),
        grid.width >= 3,
        grid.height >= 3,
        grid.in_bounds(row, column),
        grid.is_block(row, column),
    ensures
        grid.next_generation() == grid,
{
    let next = grid.next_generation();
    assert forall|i: int, j: int| grid.in_bounds(i, j) implies #[trigger] next.cell(i, j)
        == grid.cell(i, j) by {
        next_generation_follows_rule(grid, i, j);
        lemma_block_cell(grid, row, column, i, j);
    }
    lemma_same_cells(next, grid);
}

/// In a horizontal blinker, a cell is alive one generation later exactly
/// if it belongs to the vertical bar through the middle.
proof fn lemma_horizontal_blinker_cell(grid: Grid, row: int, column: int, i: int, j: int)
    requires
        grid.wf(),
        grid.width >= 4,
        grid.height >= 4,
        grid.in_bounds(row, column),
        grid.is_horizontal_blinker(row, column),
        grid.in_bounds(i, j),
    ensures
        grid.next_cell(i, j) == Cell::Alive <==> grid.in_vertical_bar(row, column, i, j),
{
    let north = grid.north(i);
    let south = grid.south(i);
    let west = grid.west(j);
    let east = grid.east(j);
    assert(grid.cell(i, j) == Cell::Alive <==> grid.in_horizontal_bar(row, column, i, j));
    assert(grid.cell(north, west) == Cell::Alive <==> grid.in_horizontal_bar(
        row,
        column,
        north,
        west,
    ));
    assert(grid.cell(north, j) == Cell::Alive <==> grid.in_horizontal_bar(row, column, north, j));
    assert(grid.cell(north, east) == Cell::Alive <==> grid.in_horizontal_bar(
        row,
        column,
        north,
        east,
    ));
    assert(grid.cell(i, west) == Cell::Alive <==> grid.in_horizontal_bar(row, column, i, west));
    assert(grid.cell(i, east) == Cell::Alive <==> grid.in_horizontal_bar(row, column, i, east));
    assert(grid.cell(south, west) == Cell::Alive <==> grid.in_horizontal_bar(
        row,
        column,
        south,
        west,
    ));
    assert(grid.cell(south, j) == Cell::Alive <==> grid.in_horizontal_bar(row, column, south, j));
    assert(grid.cell(south, east) == Cell::Alive <==> grid.in_horizontal_bar(
        row,
        column,
        south,
        east,
    ));
}

/// In a vertical blinker, a cell is alive one generation later exactly if
/// it belongs to the horizontal bar through the middle.
proof fn lemma_vertical_blinker_cell(grid: Grid, row: int, column: int, i: int, j: int)
    requires
        grid.wf(),
        grid.width >= 4,
        grid.height >= 4,
        grid.in_bounds(row, column),
        grid.is_vertical_blinker(row, column),
        grid.in_bounds(i, j),
    ensures
        grid.next_cell(i, j) == Cell::Alive <==> grid.in_horizontal_bar(row, column, i, j),
{
    let north = grid.north(i);
    let south = grid.south(i);
    let west = grid.west(j);
    let east = grid.east(j);
    assert(grid.cell(i, j) == Cell::Alive <==> grid.in_vertical_bar(row, column, i, j));
    assert(grid.cell(north, west) == Cell::Alive <==> grid.in_vertical_bar(
        row,
        column,
        north,
        west,
    ));
    assert(grid.cell(north, j) == Cell::Alive <==> grid.in_vertical_bar(row, column, north, j));
    assert(grid.cell(north, east) == Cell::Alive <==> grid.in_vertical_bar(
        row,
        column,
        north,
        east,
    ));
    assert(grid.cell(i, west) == Cell::Alive <==> grid.in_vertical_bar(row, column, i, west));
    assert(grid.cell(i, east) == Cell::Alive <==> grid.in_vertical_bar(row, column, i, east));
    assert(grid.cell(south, west) == Cell::Alive <==> grid.in_vertical_bar(
        row,
        column,
        south,
        west,
    ));
    assert(grid.cell(south, j) == Cell::Alive <==> grid.in_vertical_bar(row, column, south, j));
    assert(grid.cell(south, east) == Cell::Alive <==> grid.in_vertical_bar(
        row,
        column,
        south,
        east,
    ));
}

/// A blinker turns: on a grid of at least four rows and four columns whose
/// only live cells are three in a row, the only live cells one generation
/// later are three in a column, with the same cell in the middle.
pub proof fn horizontal_blinker_turns_vertical(grid: Grid, row: int, column: int)
    requires
        grid.wf(),
        grid.width >= 4,
        grid.height >= 4,
        grid.in_bounds(row, column),
        grid.is_horizontal_blinker(row, column),
    ensures
        grid.next_generation().wf(),
        grid.next_generation().is_vertical_blinker(row, column),
{
    let next = grid.next_generation();
    assert forall|i: int, j: int| next.in_bounds(i, j) implies ((#[trigger] next.cell(i, j))
        == Cell::Alive <==> next.in_vertical_bar(row, column, i, j)) by {
        next_generation_follows_rule(grid, i, j);
        lemma_horizontal_blinker_cell(grid, row, column, i, j);
    }
}

/// A blinker turns back: on a grid of at least four rows and four columns
/// whose only live cells are three in a column, the only live cells one
/// generation later are three in a row, with the same cell in the middle.
pub proof fn vertical_blinker_turns_horizontal(grid: Grid, row: int, column: int)
    requires
        grid.wf(),
        grid.width >= 4,
        grid.height >= 4,
        grid.in_bounds(row, column),
        grid.is_vertical_blinker(row, column),
    ensures
        grid.next_generation().wf(),
        grid.next_generation().is_horizontal_blinker(row, column),
{
    let next = grid.next_generation();
    assert forall|i: int, j: int| next.in_bounds(i, j) implies ((#[trigger] next.cell(i, j))
        == Cell::Alive <==> next.in_horizontal_bar(row, column, i, j)) by {
        next_generation_follows_rule(grid, i, j);
        lemma_vertical_blinker_cell(grid, row, column, i, j);
    }
}

/// A blinker has period two: after two generations the grid is as it was.
pub proof fn blinker_returns_after_two_generations(grid: Grid, row: int, column: int)
    requires
        grid.wf(),
        grid.width >= 4,
        grid.height >= 4,
        grid.in_bounds(row, column),
        grid.is_horizontal_blinker(row, column) || grid.is_vertical_blinker(row, column),
    ensures
        grid.advance(2) == grid,
{
    let once = grid.next_generation();
    let twice = once.next_generation();
    assert(grid.advance(2) == twice) by {
        reveal_with_fuel(Grid::advance, 3);
    }
    if grid.is_horizontal_blinker(row, column) {
        horizontal_blinker_turns_vertical(grid, row, column);
        vertical_blinker_turns_horizontal(once, row, column);
    } else {
        vertical_blinker_turns_horizontal(grid, row, column);
        horizontal_blinker_turns_vertical(once, row, column);
    }
    assert forall|i: int, j: int| twice.in_bounds(i, j) implies #[trigger] twice.cell(i, j)
        == grid.cell(i, j) by {
        assert(twice.cell(i, j) == Cell::Alive <==> grid.cell(i, j) == Cell::Alive);
    }
    lemma_same_cells(twice, grid);
}

} // verus!
