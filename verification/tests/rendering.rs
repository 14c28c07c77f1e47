use game_of_life::Universe;

#[test]
fn render_draws_one_line_per_row_and_one_glyph_per_cell() {
    let mut universe = Universe::new(3, 2, || false).unwrap();
    universe.set_cells(&[(0, 1), (1, 2)]).unwrap();
    assert_eq!(universe.render(), "◻◼◻\n◻◻◼\n");
}

#[test]
fn render_of_an_all_alive_grid() {
    let universe = Universe::new(2, 3, || true).unwrap();
    assert_eq!(universe.render(), "◼◼\n◼◼\n◼◼\n");
}

#[test]
fn render_of_a_single_dead_cell() {
    let universe = Universe::new(1, 1, || false).unwrap();
    assert_eq!(universe.render(), "\u{25FB}\n");
}

#[test]
fn render_has_width_plus_one_characters_per_row() {
    let universe = Universe::new(7, 4, || false).unwrap();
    let text = universe.render();
    assert_eq!(text.chars().count(), 4 * 8);
    assert_eq!(text.lines().count(), 4);
    assert!(text.lines().all(|line| line.chars().count() == 7));
}

#[test]
fn render_of_a_grid_without_rows_is_empty() {
    let universe = Universe::new(5, 0, || true).unwrap();
    assert_eq!(universe.render(), "");
}

#[test]
fn render_of_a_grid_without_columns_is_empty_lines() {
    let universe = Universe::new(0, 3, || true).unwrap();
    assert_eq!(universe.render(), "\n\n\n");
}

#[test]
fn render_follows_the_grid_through_a_tick() {
    let mut universe = Universe::new(5, 5, || false).unwrap();
    universe.set_cells(&[(2, 1), (2, 2), (2, 3)]).unwrap();
    assert_eq!(
        universe.render(),
        "◻◻◻◻◻\n◻◻◻◻◻\n◻◼◼◼◻\n◻◻◻◻◻\n◻◻◻◻◻\n"
    );
    universe.tick();
    assert_eq!(
        universe.render(),
        "◻◻◻◻◻\n◻◻◼◻◻\n◻◻◼◻◻\n◻◻◼◻◻\n◻◻◻◻◻\n"
    );
}
