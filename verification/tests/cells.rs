use game_of_life::cell::{ALIVE_GLYPH, DEAD_GLYPH};
use game_of_life::Cell;

#[test]
fn toggle_flips_dead_to_alive() {
    let mut cell = Cell::Dead;
    cell.toggle();
    assert_eq!(cell, Cell::Alive);
}

#[test]
fn toggle_flips_alive_to_dead() {
    let mut cell = Cell::Alive;
    cell.toggle();
    assert_eq!(cell, Cell::Dead);
}

#[test]
fn toggle_twice_gives_the_cell_back() {
    for start in [Cell::Dead, Cell::Alive] {
        let mut cell = start;
        cell.toggle();
        assert_ne!(cell, start);
        cell.toggle();
        assert_eq!(cell, start);
    }
}

#[test]
fn from_seed_maps_true_to_alive_and_false_to_dead() {
    assert_eq!(Cell::from_seed(true), Cell::Alive);
    assert_eq!(Cell::from_seed(false), Cell::Dead);
}

#[test]
fn is_alive_tells_the_two_states_apart() {
    assert!(Cell::Alive.is_alive());
    assert!(!Cell::Dead.is_alive());
}

#[test]
fn glyphs_are_the_two_squares() {
    assert_eq!(DEAD_GLYPH, '◻');
    assert_eq!(ALIVE_GLYPH, '◼');
}

#[test]
fn live_cell_with_fewer_than_two_neighbors_dies() {
    assert_eq!(Cell::Alive.next_state(0), Cell::Dead);
    assert_eq!(Cell::Alive.next_state(1), Cell::Dead);
}

#[test]
fn live_cell_with_two_or_three_neighbors_lives_on() {
    assert_eq!(Cell::Alive.next_state(2), Cell::Alive);
    assert_eq!(Cell::Alive.next_state(3), Cell::Alive);
}

#[test]
fn live_cell_with_more_than_three_neighbors_dies() {
    for count in 4..=8u8 {
        assert_eq!(Cell::Alive.next_state(count), Cell::Dead, "count {}", count);
    }
}

#[test]
fn dead_cell_with_exactly_three_neighbors_comes_alive() {
    assert_eq!(Cell::Dead.next_state(3), Cell::Alive);
}

#[test]
fn dead_cell_with_any_other_count_stays_dead() {
    for count in [0u8, 1, 2, 4, 5, 6, 7, 8] {
        assert_eq!(Cell::Dead.next_state(count), Cell::Dead, "count {}", count);
    }
}

#[test]
fn next_state_is_total_beyond_eight_neighbors() {
    assert_eq!(Cell::Alive.next_state(9), Cell::Dead);
    assert_eq!(Cell::Dead.next_state(255), Cell::Dead);
}

#[test]
fn symbol_is_the_glyph_as_a_string() {
    assert_eq!(Cell::Dead.symbol(), "◻");
    assert_eq!(Cell::Alive.symbol(), "◼");
    assert_eq!(Cell::Dead.symbol().chars().count(), 1);
    assert_eq!(Cell::Alive.symbol().chars().next(), Some(ALIVE_GLYPH));
}
