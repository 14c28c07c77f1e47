use game_of_life::{Cell, GridError, Universe};

#[test]
fn get_index_is_row_times_width_plus_column() {
    let universe = Universe::new(4, 3, || false).unwrap();
    assert_eq!(universe.get_index(0, 0), 0);
    assert_eq!(universe.get_index(0, 3), 3);
    assert_eq!(universe.get_index(1, 0), 4);
    assert_eq!(universe.get_index(2, 1), 9);
    assert_eq!(universe.get_index(2, 3), 11);
}

#[test]
fn get_index_covers_every_position_once() {
    let universe = Universe::new(5, 7, || false).unwrap();
    let mut seen = vec![0u32; 35];
    for row in 0..7 {
        for column in 0..5 {
            let index = universe.get_index(row, column);
            assert!(index < 35);
            seen[index] += 1;
        }
    }
    assert!(seen.iter().all(|&count| count == 1));
}

#[test]
fn checked_index_agrees_with_get_index_inside_the_grid() {
    let universe = Universe::new(4, 3, || false).unwrap();
    for row in 0..3 {
        for column in 0..4 {
            assert_eq!(
                universe.checked_index(row, column),
                Ok(universe.get_index(row, column))
            );
        }
    }
}

#[test]
fn checked_index_refuses_coordinates_outside_the_grid() {
    let universe = Universe::new(4, 3, || false).unwrap();
    assert_eq!(universe.checked_index(3, 0), Err(GridError::OutOfRange));
    assert_eq!(universe.checked_index(0, 4), Err(GridError::OutOfRange));
    assert_eq!(universe.checked_index(3, 4), Err(GridError::OutOfRange));
    assert_eq!(universe.checked_index(u32::MAX, u32::MAX), Err(GridError::OutOfRange));
}

#[test]
fn checked_index_refuses_a_column_that_would_land_in_the_next_row() {
    let universe = Universe::new(4, 3, || false).unwrap();
    assert_eq!(universe.checked_index(0, 5), Err(GridError::OutOfRange));
}

#[test]
fn checked_index_refuses_everything_in_an_empty_grid() {
    let universe = Universe::new(0, 3, || false).unwrap();
    assert_eq!(universe.checked_index(0, 0), Err(GridError::OutOfRange));
}

#[test]
fn cell_at_reads_the_cell_or_refuses() {
    let mut universe = Universe::new(4, 3, || false).unwrap();
    universe.set_cells(&[(2, 1)]).unwrap();
    assert_eq!(universe.cell_at(2, 1), Ok(Cell::Alive));
    assert_eq!(universe.cell_at(1, 2), Ok(Cell::Dead));
    assert_eq!(universe.cell_at(3, 1), Err(GridError::OutOfRange));
    assert_eq!(universe.cell_at(2, 4), Err(GridError::OutOfRange));
}

#[test]
fn first_cell_counts_the_last_cell_as_a_neighbor() {
    let mut universe = Universe::new(5, 4, || false).unwrap();
    universe.set_cells(&[(3, 4)]).unwrap();
    assert_eq!(universe.live_neighbor_count(0, 0), 1);
}

#[test]
fn last_cell_counts_the_first_cell_as_a_neighbor() {
    let mut universe = Universe::new(5, 4, || false).unwrap();
    universe.set_cells(&[(0, 0)]).unwrap();
    assert_eq!(universe.live_neighbor_count(3, 4), 1);
}

#[test]
fn neighbors_wrap_around_every_edge() {
    let mut universe = Universe::new(5, 4, || false).unwrap();
    universe.set_cells(&[(3, 2), (0, 4), (1, 0)]).unwrap();
    // above the first row lies the last one
    assert_eq!(universe.live_neighbor_count(0, 2), 1);
    // left of the first column lies the last one
    assert_eq!(universe.live_neighbor_count(0, 0), 2);
    // right of the last column lies the first one
    assert_eq!(universe.live_neighbor_count(1, 4), 2);
    // below the last row lies the first one
    assert_eq!(universe.live_neighbor_count(3, 4), 1);
}

#[test]
fn a_cell_is_not_its_own_neighbor() {
    let mut universe = Universe::new(5, 5, || false).unwrap();
    universe.set_cells(&[(2, 2)]).unwrap();
    assert_eq!(universe.live_neighbor_count(2, 2), 0);
    assert_eq!(universe.live_neighbor_count(1, 1), 1);
    assert_eq!(universe.live_neighbor_count(3, 3), 1);
    assert_eq!(universe.live_neighbor_count(0, 0), 0);
}

#[test]
fn live_neighbor_count_reaches_eight() {
    let universe = Universe::new(5, 5, || true).unwrap();
    for row in 0..5 {
        for column in 0..5 {
            assert_eq!(universe.live_neighbor_count(row, column), 8);
        }
    }
}

#[test]
fn live_neighbor_count_counts_each_of_the_eight_neighbors() {
    let neighbors = [(1, 1), (1, 2), (1, 3), (2, 1), (2, 3), (3, 1), (3, 2), (3, 3)];
    for count in 0..=8usize {
        let mut universe = Universe::new(5, 5, || false).unwrap();
        universe.set_cells(&neighbors[..count]).unwrap();
        assert_eq!(universe.live_neighbor_count(2, 2), count as u8);
    }
}

#[test]
fn on_a_single_cell_grid_the_cell_is_all_its_neighbors() {
    let universe = Universe::new(1, 1, || true).unwrap();
    assert_eq!(universe.live_neighbor_count(0, 0), 8);
}

#[test]
fn on_a_two_by_two_grid_neighbors_are_counted_twice() {
    let mut universe = Universe::new(2, 2, || false).unwrap();
    universe.set_cells(&[(1, 1)]).unwrap();
    // the diagonal cell is reached over all four corners
    assert_eq!(universe.live_neighbor_count(0, 0), 4);
    // the cell beside is reached from the left and from the right
    assert_eq!(universe.live_neighbor_count(1, 0), 2);
    assert_eq!(universe.live_neighbor_count(0, 1), 2);
    assert_eq!(universe.live_neighbor_count(1, 1), 0);
}
