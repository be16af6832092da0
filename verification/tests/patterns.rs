//! Pattern seeding: the fixed textures, the injected random draws, and
//! the string-boundary dispatch.

use game_of_life::pattern::{create_cells, generate, pattern_from_name, random, space_ship};
use game_of_life::{Cell, GridError, Pattern};

#[test]
fn default_pattern_formula() {
    let cells = game_of_life::pattern::default(16);
    assert_eq!(cells.len(), 16);
    for (i, cell) in cells.iter().enumerate() {
        let expected = if i % 2 == 0 || i % 7 == 0 {
            Cell::Alive
        } else {
            Cell::Dead
        };
        assert_eq!(*cell, expected, "at index {i}");
    }
    // Spot checks of the formula's exact values.
    assert_eq!(cells[0], Cell::Alive);
    assert_eq!(cells[1], Cell::Dead);
    assert_eq!(cells[7], Cell::Alive);
    assert_eq!(cells[9], Cell::Dead);
    assert_eq!(cells[14], Cell::Alive);
}

#[test]
fn default_pattern_empty() {
    let cells = game_of_life::pattern::default(0);
    assert!(cells.is_empty());
}

#[test]
fn random_pattern_follows_draws() {
    let draws = vec![true, false, false, true, true, false];
    let cells = random(&draws);
    assert_eq!(
        cells,
        vec![
            Cell::Alive,
            Cell::Dead,
            Cell::Dead,
            Cell::Alive,
            Cell::Alive,
            Cell::Dead
        ]
    );
}

#[test]
fn space_ship_seed_positions() {
    let width = 5usize;
    let cells = space_ship(25, width);
    let alive: Vec<usize> = (0..25).filter(|&i| cells[i] == Cell::Alive).collect();
    // (row 0, col 1), (row 1, col 2), (row 2, cols 0..2).
    assert_eq!(alive, vec![1, width + 2, 2 * width, 2 * width + 1, 2 * width + 2]);
}

#[test]
fn space_ship_seed_on_wider_grid() {
    let cells = space_ship(40, 8);
    let alive: Vec<usize> = (0..40).filter(|&i| cells[i] == Cell::Alive).collect();
    assert_eq!(alive, vec![1, 10, 16, 17, 18]);
}

#[test]
fn pattern_names_resolve() {
    assert_eq!(pattern_from_name("default"), Ok(Pattern::Default));
    assert_eq!(pattern_from_name("random"), Ok(Pattern::Random));
    assert_eq!(pattern_from_name("space_ship"), Ok(Pattern::SpaceShip));
}

#[test]
fn unknown_pattern_name_is_invalid_argument() {
    assert_eq!(pattern_from_name("pulsar"), Err(GridError::InvalidArgument));
    assert_eq!(pattern_from_name(""), Err(GridError::InvalidArgument));
    assert_eq!(pattern_from_name("Default"), Err(GridError::InvalidArgument));
}

#[test]
fn create_cells_dispatches_by_name() {
    let draws = vec![true; 20];
    let by_name = create_cells("default", 20, 4, &draws).unwrap();
    assert_eq!(by_name, game_of_life::pattern::default(20));

    let by_name = create_cells("random", 20, 4, &draws).unwrap();
    assert_eq!(by_name, random(&draws));

    let by_name = create_cells("space_ship", 20, 4, &draws).unwrap();
    assert_eq!(by_name, space_ship(20, 4));
}

#[test]
fn create_cells_rejects_unknown_name() {
    let draws = Vec::new();
    assert_eq!(
        create_cells("gosper", 20, 4, &draws),
        Err(GridError::InvalidArgument)
    );
}

#[test]
fn generate_matches_each_pattern() {
    let draws = vec![false, true, false, true, false, true, false, true, false];
    assert_eq!(generate(Pattern::Default, 9, 3, &draws), game_of_life::pattern::default(9));
    assert_eq!(generate(Pattern::Random, 9, 3, &draws), random(&draws));
    assert_eq!(generate(Pattern::SpaceShip, 9, 3, &draws), space_ship(9, 3));
}

#[test]
fn cell_toggle_and_birth() {
    let mut c = Cell::Dead;
    c.toggle();
    assert_eq!(c, Cell::Alive);
    c.toggle();
    assert_eq!(c, Cell::Dead);
    c.birth();
    assert_eq!(c, Cell::Alive);
    c.birth();
    assert_eq!(c, Cell::Alive);
    assert_eq!(Cell::Alive.bit(), 1);
    assert_eq!(Cell::Dead.bit(), 0);
}
