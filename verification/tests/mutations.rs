//! Structural operations on a live grid: toggle, resize, clear, reseed,
//! bulk-set, stamping, and the read accessors.

use game_of_life::universe::Universe;
use game_of_life::{Cell, GridError};

fn dead_universe(width: u32, height: u32) -> Universe {
    let draws = vec![false; (width * height) as usize];
    Universe::new(width, height, &draws).unwrap()
}

fn alive_at(u: &Universe, row: u32, col: u32) -> bool {
    u.get_cells()[(row * u.width() + col) as usize] == Cell::Alive
}

#[test]
fn new_rejects_zero_dimensions() {
    assert!(matches!(
        Universe::new(0, 4, &Vec::new()),
        Err(GridError::DomainError)
    ));
    assert!(matches!(
        Universe::new(4, 0, &Vec::new()),
        Err(GridError::DomainError)
    ));
}

#[test]
fn new_seeds_from_draws() {
    let draws = vec![true, false, true, false, false, true];
    let u = Universe::new(3, 2, &draws).unwrap();
    assert_eq!(u.width(), 3);
    assert_eq!(u.height(), 2);
    let expected = [
        Cell::Alive,
        Cell::Dead,
        Cell::Alive,
        Cell::Dead,
        Cell::Dead,
        Cell::Alive,
    ];
    assert_eq!(u.get_cells(), expected.as_slice());
    assert_eq!(u.cells().as_slice(), expected.as_slice());
}

#[test]
fn mynew_is_sixty_four_square() {
    let draws = vec![true; 64 * 64];
    let u = Universe::mynew(&draws);
    assert_eq!(u.width(), 64);
    assert_eq!(u.height(), 64);
    assert_eq!(u.get_cells().len(), 64 * 64);
    assert!(u.get_cells().iter().all(|c| *c == Cell::Alive));
}

#[test]
fn toggle_cell_flips_exactly_one() {
    let mut u = dead_universe(4, 4);
    u.toggle_cell(2, 3);
    for row in 0..4u32 {
        for col in 0..4u32 {
            assert_eq!(alive_at(&u, row, col), row == 2 && col == 3);
        }
    }
    u.toggle_cell(2, 3);
    assert!(u.get_cells().iter().all(|c| *c == Cell::Dead));
}

#[test]
fn toggle_twice_restores_everything() {
    let draws = vec![
        true, false, false, true, true, true, false, true, false, false, true, false,
    ];
    let mut u = Universe::new(4, 3, &draws).unwrap();
    let before = u.get_cells().to_vec();
    u.toggle_cell(1, 2);
    u.toggle_cell(1, 2);
    assert_eq!(u.get_cells(), before.as_slice());
}

#[test]
fn set_cells_is_additive_union() {
    let mut u = dead_universe(4, 4);
    u.toggle_cell(0, 0);
    u.toggle_cell(2, 2);
    u.set_cells(&vec![(1, 3), (3, 0), (2, 2)]);
    let alive = [(0u32, 0u32), (2, 2), (1, 3), (3, 0)];
    for row in 0..4u32 {
        for col in 0..4u32 {
            let expected = alive.iter().any(|&(r, c)| r == row && c == col);
            assert_eq!(alive_at(&u, row, col), expected, "at ({row}, {col})");
        }
    }
}

#[test]
fn set_cells_empty_changes_nothing() {
    let mut u = dead_universe(3, 3);
    u.toggle_cell(1, 1);
    u.set_cells(&Vec::new());
    assert!(alive_at(&u, 1, 1));
    assert_eq!(
        u.get_cells().iter().filter(|c| **c == Cell::Alive).count(),
        1
    );
}

#[test]
fn set_width_keeps_height_and_kills_cells() {
    let draws = vec![true; 20];
    let mut u = Universe::new(4, 5, &draws).unwrap();
    assert_eq!(u.set_width(7), Ok(()));
    assert_eq!((u.width(), u.height()), (7, 5));
    assert_eq!(u.get_cells().len(), 35);
    assert!(u.get_cells().iter().all(|c| *c == Cell::Dead));
}

#[test]
fn set_height_keeps_width_and_kills_cells() {
    let draws = vec![true; 20];
    let mut u = Universe::new(4, 5, &draws).unwrap();
    assert_eq!(u.set_height(2), Ok(()));
    assert_eq!((u.width(), u.height()), (4, 2));
    assert_eq!(u.get_cells().len(), 8);
    assert!(u.get_cells().iter().all(|c| *c == Cell::Dead));
}

#[test]
fn zero_resize_is_rejected_and_harmless() {
    let draws = vec![true, true, false, false];
    let mut u = Universe::new(2, 2, &draws).unwrap();
    let before = u.get_cells().to_vec();
    assert_eq!(u.set_width(0), Err(GridError::DomainError));
    assert_eq!(u.set_height(0), Err(GridError::DomainError));
    assert_eq!((u.width(), u.height()), (2, 2));
    assert_eq!(u.get_cells(), before.as_slice());
}

#[test]
fn set_size_kills_cells_at_new_dimensions() {
    let draws = vec![true, true, true, true];
    let mut u = Universe::new(2, 2, &draws).unwrap();
    assert_eq!(u.set_size(3, 2), Ok(()));
    assert_eq!((u.width(), u.height()), (3, 2));
    assert_eq!(u.get_cells().len(), 6);
    assert!(u.get_cells().iter().all(|c| *c == Cell::Dead));
}

#[test]
fn set_size_rejects_zero() {
    let draws = vec![true, false, false, true];
    let mut u = Universe::new(2, 2, &draws).unwrap();
    let before = u.get_cells().to_vec();
    assert_eq!(u.set_size(0, 3), Err(GridError::DomainError));
    assert_eq!(u.set_size(3, 0), Err(GridError::DomainError));
    assert_eq!((u.width(), u.height()), (2, 2));
    assert_eq!(u.get_cells(), before.as_slice());
}

#[test]
fn clear_kills_everything_and_keeps_dimensions() {
    let draws = vec![true; 12];
    let mut u = Universe::new(4, 3, &draws).unwrap();
    u.clear();
    assert_eq!((u.width(), u.height()), (4, 3));
    assert!(u.get_cells().iter().all(|c| *c == Cell::Dead));
    // Cleared grid counts zero neighbors anywhere, corners included.
    for row in 0..3u32 {
        for col in 0..4u32 {
            assert_eq!(u.live_neighbor_count(row, col), 0);
        }
    }
}

#[test]
fn reset_reseeds_from_draws() {
    let mut u = dead_universe(2, 3);
    let draws = vec![true, true, false, false, true, false];
    u.reset(&draws);
    assert_eq!((u.width(), u.height()), (2, 3));
    let expected = [
        Cell::Alive,
        Cell::Alive,
        Cell::Dead,
        Cell::Dead,
        Cell::Alive,
        Cell::Dead,
    ];
    assert_eq!(u.get_cells(), expected.as_slice());
}

#[test]
fn glider_stamps_five_cells() {
    let mut u = dead_universe(6, 6);
    u.glider(1, 1);
    let alive = [(1u32, 2u32), (2, 3), (3, 1), (3, 2), (3, 3)];
    for row in 0..6u32 {
        for col in 0..6u32 {
            let expected = alive.iter().any(|&(r, c)| r == row && c == col);
            assert_eq!(alive_at(&u, row, col), expected, "at ({row}, {col})");
        }
    }
}

#[test]
fn glider_is_additive() {
    let mut u = dead_universe(6, 6);
    u.toggle_cell(5, 5);
    u.glider(0, 0);
    assert!(alive_at(&u, 5, 5));
    assert_eq!(
        u.get_cells().iter().filter(|c| **c == Cell::Alive).count(),
        6
    );
}

#[test]
fn glider_wraps_past_the_edges() {
    let mut u = dead_universe(5, 5);
    u.glider(3, 3);
    let alive = [(3u32, 4u32), (4, 0), (0, 3), (0, 4), (0, 0)];
    for row in 0..5u32 {
        for col in 0..5u32 {
            let expected = alive.iter().any(|&(r, c)| r == row && c == col);
            assert_eq!(alive_at(&u, row, col), expected, "at ({row}, {col})");
        }
    }
}

#[test]
fn pulsar_is_a_no_op() {
    let draws = vec![true, false, true, false];
    let mut u = Universe::new(2, 2, &draws).unwrap();
    let before = u.get_cells().to_vec();
    u.pulsar(1, 1);
    assert_eq!((u.width(), u.height()), (2, 2));
    assert_eq!(u.get_cells(), before.as_slice());
}

#[test]
fn render_draws_squares_and_newlines() {
    let draws = vec![true, false, false, true];
    let u = Universe::new(2, 2, &draws).unwrap();
    assert_eq!(u.render(), "◼◻\n◻◼\n");
}

#[test]
fn render_all_dead_row() {
    let u = dead_universe(3, 1);
    assert_eq!(u.render(), "◻◻◻\n");
}
