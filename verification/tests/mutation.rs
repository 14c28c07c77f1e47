use game_of_life::{Cell, GridError, Universe};

fn alive_cells(universe: &Universe) -> Vec<(u32, u32)> {
    let mut alive = Vec::new();
    for row in 0..universe.height() {
        for column in 0..universe.width() {
            if universe.cell_at(row, column) == Ok(Cell::Alive) {
                alive.push((row, column));
            }
        }
    }
    alive
}

#[test]
fn toggle_cell_flips_the_named_cell_only() {
    let mut universe = Universe::new(4, 3, || false).unwrap();
    assert_eq!(universe.toggle_cell(1, 2), Ok(()));
    assert_eq!(alive_cells(&universe), vec![(1, 2)]);
    assert_eq!(universe.get_cells()[6], Cell::Alive);
}

#[test]
fn toggle_cell_twice_gives_the_grid_back() {
    let calls = std::cell::Cell::new(0u32);
    let mut universe = Universe::new(4, 3, || {
        let call = calls.get();
        calls.set(call + 1);
        call % 3 == 1
    }).unwrap();
    let before = universe.get_cells().to_vec();
    for row in 0..3 {
        for column in 0..4 {
            universe.toggle_cell(row, column).unwrap();
            assert_ne!(universe.get_cells(), &before[..]);
            universe.toggle_cell(row, column).unwrap();
            assert_eq!(universe.get_cells(), &before[..]);
        }
    }
}

#[test]
fn toggle_cell_turns_a_live_cell_dead() {
    let mut universe = Universe::new(2, 2, || true).unwrap();
    assert_eq!(universe.toggle_cell(1, 0), Ok(()));
    assert_eq!(alive_cells(&universe), vec![(0, 0), (0, 1), (1, 1)]);
}

#[test]
fn toggle_cell_refuses_coordinates_outside_the_grid() {
    let mut universe = Universe::new(4, 3, || true).unwrap();
    let before = universe.get_cells().to_vec();
    assert_eq!(universe.toggle_cell(3, 0), Err(GridError::OutOfRange));
    assert_eq!(universe.toggle_cell(0, 4), Err(GridError::OutOfRange));
    assert_eq!(universe.toggle_cell(0, 5), Err(GridError::OutOfRange));
    assert_eq!(universe.toggle_cell(u32::MAX, 0), Err(GridError::OutOfRange));
    assert_eq!(universe.get_cells(), &before[..]);
}

#[test]
fn set_cells_makes_the_named_cells_alive() {
    let mut universe = Universe::new(4, 3, || false).unwrap();
    assert_eq!(universe.set_cells(&[(2, 3), (0, 1), (1, 0)]), Ok(()));
    assert_eq!(alive_cells(&universe), vec![(0, 1), (1, 0), (2, 3)]);
}

#[test]
fn set_cells_leaves_the_other_cells_as_they_are() {
    let mut universe = Universe::new(4, 3, || false).unwrap();
    universe.set_cells(&[(0, 0), (2, 2)]).unwrap();
    universe.set_cells(&[(1, 1)]).unwrap();
    assert_eq!(alive_cells(&universe), vec![(0, 0), (1, 1), (2, 2)]);
}

#[test]
fn set_cells_keeps_a_live_cell_alive() {
    let mut universe = Universe::new(2, 2, || true).unwrap();
    assert_eq!(universe.set_cells(&[(0, 1)]), Ok(()));
    assert!(universe.get_cells().iter().all(|&cell| cell == Cell::Alive));
}

#[test]
fn set_cells_accepts_a_cell_named_twice() {
    let mut universe = Universe::new(4, 3, || false).unwrap();
    assert_eq!(universe.set_cells(&[(1, 1), (2, 0), (1, 1)]), Ok(()));
    assert_eq!(alive_cells(&universe), vec![(1, 1), (2, 0)]);
}

#[test]
fn set_cells_with_no_coordinates_changes_nothing() {
    let mut universe = Universe::new(4, 3, || false).unwrap();
    assert_eq!(universe.set_cells(&[]), Ok(()));
    assert!(alive_cells(&universe).is_empty());
}

#[test]
fn set_cells_refuses_the_whole_list_if_one_coordinate_is_outside() {
    let mut universe = Universe::new(4, 3, || false).unwrap();
    universe.set_cells(&[(0, 0)]).unwrap();
    assert_eq!(
        universe.set_cells(&[(1, 1), (3, 0), (2, 2)]),
        Err(GridError::OutOfRange)
    );
    assert_eq!(alive_cells(&universe), vec![(0, 0)]);
    assert_eq!(
        universe.set_cells(&[(1, 1), (2, 2), (0, 4)]),
        Err(GridError::OutOfRange)
    );
    assert_eq!(alive_cells(&universe), vec![(0, 0)]);
}

#[test]
fn set_cells_refuses_everything_on_an_empty_grid() {
    let mut universe = Universe::new(0, 0, || false).unwrap();
    assert_eq!(universe.set_cells(&[(0, 0)]), Err(GridError::OutOfRange));
    assert_eq!(universe.set_cells(&[]), Ok(()));
}

#[test]
fn set_generations_per_tick_changes_only_the_setting() {
    let mut universe = Universe::new(3, 3, || true).unwrap();
    universe.set_generations_per_tick(7);
    assert_eq!(universe.generations_per_tick(), 7);
    assert_eq!(universe.width(), 3);
    assert_eq!(universe.height(), 3);
    assert!(universe.get_cells().iter().all(|&cell| cell == Cell::Alive));
}
