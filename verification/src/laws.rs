//! Laws of the grid: what holds of indexing, of the wrap-around, of the
//! rule and of the operations, for every grid.

use crate::arith::{lemma_position_div_mod, lemma_position_in_range, lemma_position_split};
use crate::cell::Cell;
use crate::grid::Grid;
use vstd::prelude::*;

verus! {

/// Every cell of the grid has a position inside the cell buffer.
pub proof fn index_in_range(grid: Grid, row: int, column: int)
    requires
        grid.wf(),
        grid.in_bounds(row, column),
    ensures
        0 <= grid.index(row, column) < grid.cells.len(),
{
    lemma_position_in_range(grid.width as int, grid.height as int, row, column);
}

/// No two cells of the grid share a position in the cell buffer.
pub proof fn index_is_injective(grid: Grid, row1: int, column1: int, row2: int, column2: int)
    requires
        grid.in_bounds(row1, column1),
        grid.in_bounds(row2, column2),
        grid.index(row1, column1) == grid.index(row2, column2),
    ensures
        row1 == row2,
        column1 == column2,
{
    lemma_position_div_mod(grid.width as int, row1, column1);
    lemma_position_div_mod(grid.width as int, row2, column2);
}

/// Every position in the cell buffer belongs to a cell of the grid: to the
/// one whose row is the position divided by the width and whose column is
/// the remainder.
pub proof fn index_is_onto(grid: Grid, position: int)
    requires
        grid.wf(),
        0 <= position < grid.cells.len(),
    ensures
        grid.in_bounds(position / (grid.width as int), position % (grid.width as int)),
        grid.index(position / (grid.width as int), position % (grid.width as int)) == position,
{
    lemma_position_split(grid.width as int, grid.height as int, position);
}

/// The position of a cell, taken apart by the width, gives back the cell's
/// row and column.
pub proof fn index_splits(grid: Grid, row: int, column: int)
    requires
        grid.in_bounds(row, column),
    ensures
        grid.index(row, column) / (grid.width as int) == row,
        grid.index(row, column) % (grid.width as int) == column,
{
    lemma_position_div_mod(grid.width as int, row, column);
}

/// The neighbors of a cell are cells of the grid, and they lie where
/// arithmetic modulo the height and the width puts them: the grid is a
/// torus.
pub proof fn neighbors_wrap_around(grid: Grid, row: int, column: int)
    requires
        grid.in_bounds(row, column),
    ensures
        grid.north(row) == (row - 1) % (grid.height as int),
        grid.south(row) == (row + 1) % (grid.height as int),
        grid.west(column) == (column - 1) % (grid.width as int),
        grid.east(column) == (column + 1) % (grid.width as int),
        0 <= grid.north(row) < grid.height,
        0 <= grid.south(row) < grid.height,
        0 <= grid.west(column) < grid.width,
        0 <= grid.east(column) < grid.width,
{
    lemma_step_modulo(row, grid.height as int);
    lemma_step_modulo(column, grid.width as int);
}

/// One step down or up from `i`, modulo `n`.
proof fn lemma_step_modulo(i: int, n: int)
    requires
        0 <= i < n,
    ensures
        (i - 1) % n == if i == 0 {
            n - 1
        } else {
            i - 1
        },
        (i + 1) % n == if i == n - 1 {
            0
        } else {
            i + 1
        },
{
    if i == 0 {
        vstd::arithmetic::div_mod::lemma_fundamental_div_mod_converse(i - 1, n, -1, n - 1);
    } else {
        vstd::arithmetic::div_mod::lemma_small_mod((i - 1) as nat, n as nat);
    }
    if i == n - 1 {
        vstd::arithmetic::div_mod::lemma_fundamental_div_mod_converse(i + 1, n, 1, 0);
    } else {
        vstd::arithmetic::div_mod::lemma_small_mod((i + 1) as nat, n as nat);
    }
}

/// The cell in the last row and the last column is a neighbor of the cell
/// in the first row and the first column: if it is alive, it is counted.
pub proof fn first_cell_neighbors_last_cell(grid: Grid)
    requires
        grid.in_bounds(0, 0),
    ensures
        grid.north(0) == grid.height - 1,
        grid.west(0) == grid.width - 1,
        grid.live_neighbor_count(0, 0) >= grid.cell(
            grid.height - 1,
            grid.width - 1,
        ).population(),
{
}

/// A cell has at most eight live neighbors.
pub proof fn live_neighbor_count_at_most_eight(grid: Grid, row: int, column: int)
    ensures
        grid.live_neighbor_count(row, column) <= 8,
{
}

/// The rule of the game, row by row of its table.
pub proof fn rule_table(cell: Cell, live_neighbors: nat)
    ensures
        cell == Cell::Alive && live_neighbors < 2 ==> cell.evolved(live_neighbors) == Cell::Dead,
        cell == Cell::Alive && (live_neighbors == 2 || live_neighbors == 3) ==> cell.evolved(
            live_neighbors,
        ) == Cell::Alive,
        cell == Cell::Alive && live_neighbors > 3 ==> cell.evolved(live_neighbors) == Cell::Dead,
        cell == Cell::Dead && live_neighbors == 3 ==> cell.evolved(live_neighbors) == Cell::Alive,
        cell == Cell::Dead && live_neighbors != 3 ==> cell.evolved(live_neighbors) == Cell::Dead,
{
}

/// One generation applies the rule to every cell of the grid, with the
/// cell's state and the number of its live neighbors in the generation
/// before.
pub proof fn next_generation_follows_rule(grid: Grid, row: int, column: int)
    requires
        grid.wf(),
        grid.in_bounds(row, column),
    ensures
        grid.next_generation().cell(row, column) == grid.cell(row, column).evolved(
            grid.live_neighbor_count(row, column),
        ),
{
    index_in_range(grid, row, column);
    index_splits(grid, row, column);
}

/// Advancing a grid changes neither its dimensions, nor the number of its
/// cells, nor the number of generations per tick.
pub proof fn advance_keeps_shape(grid: Grid, generations: nat)
    ensures
        grid.advance(generations).width == grid.width,
        grid.advance(generations).height == grid.height,
        grid.advance(generations).generations_per_tick == grid.generations_per_tick,
        grid.advance(generations).cells.len() == grid.cells.len(),
        grid.wf() ==> grid.advance(generations).wf(),
    decreases generations,
{
    if generations > 0 {
        advance_keeps_shape(grid, (generations - 1) as nat);
    }
}

/// A grid in which every cell is dead stays as it is, however many
/// generations pass.
pub proof fn dead_grid_is_stable(grid: Grid, generations: nat)
    requires
        grid.wf(),
        grid.all_dead(),
    ensures
        grid.advance(generations) == grid,
    decreases generations,
{
    if generations > 0 {
        dead_grid_is_stable(grid, (generations - 1) as nat);
        assert forall|i: int| 0 <= i < grid.cells.len() implies grid.next_generation().cells[i]
            == Cell::Dead by {
            let row = i / (grid.width as int);
            let column = i % (grid.width as int);
            index_is_onto(grid, i);
            lemma_dead_neighborhood(grid, row, column);
        }
        assert(grid.next_generation().cells =~= grid.cells);
    }
}

/// A grid in which every cell is dead stays as it is, however many ticks
/// pass and however many generations a tick advances it by.
pub proof fn dead_grid_survives_ticks(grid: Grid, count: nat)
    requires
        grid.wf(),
        grid.all_dead(),
    ensures
        Grid::ticks(grid, count) == grid,
    decreases count,
{
    if count > 0 {
        dead_grid_survives_ticks(grid, (count - 1) as nat);
        dead_grid_is_stable(grid, grid.generations_per_tick);
    }
}

/// In a grid in which every cell is dead, no cell has a live neighbor.
proof fn lemma_dead_neighborhood(grid: Grid, row: int, column: int)
    requires
        grid.wf(),
        grid.all_dead(),
        grid.in_bounds(row, column),
    ensures
        grid.cell(row, column) == Cell::Dead,
        grid.live_neighbor_count(row, column) == 0,
{
    let north = grid.north(row);
    let south = grid.south(row);
    let west = grid.west(column);
    let east = grid.east(column);
    index_in_range(grid, row, column);
    index_in_range(grid, north, west);
    index_in_range(grid, north, column);
    index_in_range(grid, north, east);
    index_in_range(grid, row, west);
    index_in_range(grid, row, east);
    index_in_range(grid, south, west);
    index_in_range(grid, south, column);
    index_in_range(grid, south, east);
}

/// Advancing by `first` generations and then by `second` is advancing by
/// their sum.
pub proof fn advance_is_additive(grid: Grid, first: nat, second: nat)
    ensures
        grid.advance(first + second) == grid.advance(first).advance(second),
    decreases second,
{
    if second > 0 {
        advance_is_additive(grid, first, (second - 1) as nat);
        assert(first + second - 1 == first + (second - 1));
    }
}

/// How the cells evolve does not depend on the number of generations per
/// tick that the grid is set to.
pub proof fn advance_ignores_batching(grid: Grid, batch: nat, generations: nat)
    ensures
        grid.with_generations_per_tick(batch).advance(generations) == grid.advance(
            generations,
        ).with_generations_per_tick(batch),
    decreases generations,
{
    if generations > 0 {
        advance_ignores_batching(grid, batch, (generations - 1) as nat);
        lemma_next_generation_ignores_batching(grid.advance((generations - 1) as nat), batch);
    }
}

/// The next generation does not depend on the number of generations per
/// tick that the grid is set to.
proof fn lemma_next_generation_ignores_batching(grid: Grid, batch: nat)
    ensures
        grid.with_generations_per_tick(batch).next_generation()
            == grid.next_generation().with_generations_per_tick(batch),
{
    let other = grid.with_generations_per_tick(batch);
    assert forall|i: int| 0 <= i < grid.cells.len() implies other.next_generation().cells[i]
        == grid.next_generation().cells[i] by {
        lemma_next_cell_ignores_batching(
            grid,
            batch,
            i / (grid.width as int),
            i % (grid.width as int),
        );
    }
    assert(other.next_generation().cells =~= grid.next_generation().cells);
}

/// The next state of a cell does not depend on the number of generations
/// per tick that the grid is set to.
proof fn lemma_next_cell_ignores_batching(grid: Grid, batch: nat, row: int, column: int)
    ensures
        grid.with_generations_per_tick(batch).next_cell(row, column) == grid.next_cell(
            row,
            column,
        ),
{
}

/// One tick of a grid set to three generations per tick gives what three
/// ticks of the same grid set to one generation per tick give.
pub proof fn batching_equivalence(grid: Grid)
    ensures
        grid.with_generations_per_tick(3).tick() == grid.with_generations_per_tick(
            1,
        ).tick().tick().tick().with_generations_per_tick(3),
{
    let single = grid.with_generations_per_tick(1);
    assert(Grid::ticks(single, 3) == single.tick().tick().tick()) by {
        reveal_with_fuel(Grid::ticks, 4);
    }
    tick_is_repeated_single_tick(grid, 3);
}

/// A tick of a grid set to `batch` generations per tick gives what `batch`
/// ticks of the same grid set to one generation per tick give, one after
/// the other.
pub proof fn tick_is_repeated_single_tick(grid: Grid, batch: nat)
    ensures
        grid.with_generations_per_tick(batch).tick() == Grid::ticks(
            grid.with_generations_per_tick(1),
            batch,
        ).with_generations_per_tick(batch),
{
    let single = grid.with_generations_per_tick(1);
    lemma_single_ticks(single, batch);
    advance_ignores_batching(grid, 1, batch);
    advance_ignores_batching(grid, batch, batch);
}

/// With one generation per tick, `count` ticks advance the grid by `count`
/// generations.
proof fn lemma_single_ticks(grid: Grid, count: nat)
    requires
        grid.generations_per_tick == 1,
    ensures
        Grid::ticks(grid, count) == grid.advance(count),
    decreases count,
{
    if count > 0 {
        lemma_single_ticks(grid, (count - 1) as nat);
        advance_keeps_shape(grid, (count - 1) as nat);
        reveal_with_fuel(Grid::advance, 2);
    }
}

/// Flipping a cell twice gives back the grid as it was.
pub proof fn toggle_twice_restores(grid: Grid, row: int, column: int)
    requires
        grid.wf(),
        grid.in_bounds(row, column),
    ensures
        grid.toggled(row, column).toggled(row, column) == grid,
{
    index_in_range(grid, row, column);
    assert(grid.toggled(row, column).toggled(row, column).cells =~= grid.cells);
}

/// Flipping a cell changes that cell and no other.
pub proof fn toggle_changes_one_cell(grid: Grid, row: int, column: int, other_row: int, other_column: int)
    requires
        grid.wf(),
        grid.in_bounds(row, column),
        grid.in_bounds(other_row, other_column),
    ensures
        grid.toggled(row, column).wf(),
        grid.toggled(row, column).cell(row, column) == grid.cell(row, column).toggled(),
        (other_row != row || other_column != column) ==> grid.toggled(row, column).cell(
            other_row,
            other_column,
        ) == grid.cell(other_row, other_column),
{
    index_in_range(grid, row, column);
    index_in_range(grid, other_row, other_column);
    if other_row != row || other_column != column {
        if grid.index(row, column) == grid.index(other_row, other_column) {
            index_is_injective(grid, row, column, other_row, other_column);
        }
    }
}

/// A blank grid is well formed and all its cells are dead.
pub proof fn blank_is_all_dead(width: nat, height: nat, generations_per_tick: nat)
    ensures
        Grid::blank(width, height, generations_per_tick).wf(),
        Grid::blank(width, height, generations_per_tick).all_dead(),
{
}

/// Stamping one more coordinate makes the cell that it names alive and
/// leaves the other cells as the coordinates before it left them.
pub proof fn stamp_one_more(grid: Grid, coordinates: Seq<(u32, u32)>, last: (u32, u32))
    requires
        0 <= grid.index(last.0 as int, last.1 as int) < grid.cells.len(),
    ensures
        grid.stamped(coordinates.push(last)).cells == grid.stamped(coordinates).cells.update(
            grid.index(last.0 as int, last.1 as int),
            Cell::Alive,
        ),
{
    let longer = coordinates.push(last);
    assert forall|i: int| 0 <= i < grid.cells.len() implies grid.addressed(longer, i) == (
    grid.addressed(coordinates, i) || i == grid.index(last.0 as int, last.1 as int)) by {
        if grid.addressed(coordinates, i) {
            let k = choose|k: int|
                0 <= k < coordinates.len() && grid.index(
                    (#[trigger] coordinates[k]).0 as int,
                    coordinates[k].1 as int,
                ) == i;
            assert(longer[k] == coordinates[k]);
        }
        if i == grid.index(last.0 as int, last.1 as int) {
            assert(longer[coordinates.len() as int] == last);
        }
        if grid.addressed(longer, i) {
            let k = choose|k: int|
                0 <= k < longer.len() && grid.index(
                    (#[trigger] longer[k]).0 as int,
                    longer[k].1 as int,
                ) == i;
            if k < coordinates.len() {
                assert(coordinates[k] == longer[k]);
            }
        }
    }
    assert(grid.stamped(longer).cells =~= grid.stamped(coordinates).cells.update(
        grid.index(last.0 as int, last.1 as int),
        Cell::Alive,
    ));
}

/// Stamping makes the cells that the coordinates name alive and leaves
/// every other cell as it was.
pub proof fn stamp_sets_named_cells(grid: Grid, coordinates: Seq<(u32, u32)>, row: u32, column: u32)
    requires
        grid.wf(),
        grid.all_in_bounds(coordinates),
        grid.in_bounds(row as int, column as int),
    ensures
        grid.stamped(coordinates).wf(),
        grid.stamped(coordinates).cell(row as int, column as int) == if coordinates.contains(
            (row, column),
        ) {
            Cell::Alive
        } else {
            grid.cell(row as int, column as int)
        },
{
    index_in_range(grid, row as int, column as int);
    let i = grid.index(row as int, column as int);
    if grid.addressed(coordinates, i) {
        let k = choose|k: int|
            0 <= k < coordinates.len() && grid.index(
                (#[trigger] coordinates[k]).0 as int,
                coordinates[k].1 as int,
            ) == i;
        index_is_injective(
            grid,
            coordinates[k].0 as int,
            coordinates[k].1 as int,
            row as int,
            column as int,
        );
        assert(coordinates[k] == (row, column));
    }
    if coordinates.contains((row, column)) {
        let k = choose|k: int| 0 <= k < coordinates.len() && coordinates[k] == (row, column);
        assert(grid.index(coordinates[k].0 as int, coordinates[k].1 as int) == i);
    }
}

} // verus!
