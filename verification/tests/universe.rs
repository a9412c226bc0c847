//! Construction, edits, resizes, rendering and repeated steps.

use wasm_game_of_life::Cell;
use wasm_game_of_life::CellDelta;
use wasm_game_of_life::Universe;

fn filled(height: u32, width: u32, live: &[(u32, u32)]) -> Universe {
    let mut universe = Universe::new_sized(width, height);
    universe.set_height(height);
    universe.set_cells(live);
    universe
}

#[test]
fn new_is_sixty_four_by_sixty_four() {
    let universe = Universe::new();
    assert_eq!(universe.width(), 64);
    assert_eq!(universe.height(), 64);
    assert_eq!(universe.get_cells().len(), 4096);
    assert_eq!(universe.changes().len(), 4096);
}

#[test]
fn new_sized_has_one_cell_for_each_position() {
    let universe = Universe::new_sized(7, 3);
    assert_eq!(universe.width(), 7);
    assert_eq!(universe.height(), 3);
    assert_eq!(universe.get_cells().len(), 21);
}

#[test]
fn new_sized_records_the_seeded_cells_as_births() {
    let universe = Universe::new_sized(16, 16);
    let cells = universe.get_cells();
    let changes = universe.changes();
    assert_eq!(changes.len(), 256);
    for i in 0..256 {
        let expected = if cells[i] == Cell::Alive { CellDelta::Birth } else { CellDelta::Unchanged };
        assert_eq!(changes[i], expected);
    }
}

#[test]
fn seeding_draws_both_states() {
    let universe = Universe::new();
    let live = universe.get_cells().iter().filter(|&&cell| cell == Cell::Alive).count();
    assert!(live > 0);
    assert!(live < 4096);
    // About six cells in ten are alive; the bounds are far out in the tails.
    assert!(live > 2048);
    assert!(live < 3072);
}

#[test]
fn degenerate_universes_are_empty_and_step() {
    let mut no_columns = Universe::new_sized(0, 5);
    assert_eq!(no_columns.get_cells().len(), 0);
    no_columns.tick();
    assert_eq!(no_columns.get_cells().len(), 0);
    assert_eq!(no_columns.changes().len(), 0);
    assert_eq!(no_columns.render(), "\n\n\n\n\n");

    let mut no_rows = Universe::new_sized(5, 0);
    assert_eq!(no_rows.get_cells().len(), 0);
    no_rows.tick();
    assert_eq!(no_rows.get_cells().len(), 0);
    assert_eq!(no_rows.render(), "");
}

#[test]
fn cell_from_roll_is_alive_below_sixty() {
    assert_eq!(Cell::from_roll(0), Cell::Alive);
    assert_eq!(Cell::from_roll(59), Cell::Alive);
    assert_eq!(Cell::from_roll(60), Cell::Dead);
    assert_eq!(Cell::from_roll(99), Cell::Dead);
}

#[test]
fn cell_toggle_flips() {
    let mut cell = Cell::Dead;
    cell.toggle();
    assert_eq!(cell, Cell::Alive);
    cell.toggle();
    assert_eq!(cell, Cell::Dead);
}

#[test]
fn cell_byte_is_one_for_alive() {
    assert_eq!(Cell::Dead.byte(), 0);
    assert_eq!(Cell::Alive.byte(), 1);
}

#[test]
fn cell_next_follows_the_five_rules() {
    for n in 0..=8u8 {
        let alive = if n == 2 || n == 3 { Cell::Alive } else { Cell::Dead };
        let dead = if n == 3 { Cell::Alive } else { Cell::Dead };
        assert_eq!(Cell::Alive.next(n), alive, "alive with {}", n);
        assert_eq!(Cell::Dead.next(n), dead, "dead with {}", n);
    }
}

#[test]
fn set_cells_sets_the_named_cells_and_no_others() {
    let mut universe = filled(3, 4, &[(0, 0)]);
    universe.set_cells(&[(1, 2), (2, 3), (1, 2)]);
    let cells = universe.get_cells();
    for row in 0..3u32 {
        for col in 0..4u32 {
            let live = [(0, 0), (1, 2), (2, 3)].contains(&(row, col));
            let expected = if live { Cell::Alive } else { Cell::Dead };
            assert_eq!(cells[(row * 4 + col) as usize], expected);
        }
    }
}

#[test]
fn set_cells_with_no_cells_changes_nothing() {
    let mut universe = filled(3, 3, &[(1, 1)]);
    let before = universe.get_cells().to_vec();
    universe.set_cells(&[]);
    assert_eq!(universe.get_cells(), &before[..]);
}

#[test]
fn toggle_cell_flips_one_cell() {
    let mut universe = filled(3, 4, &[(1, 1)]);
    universe.toggle_cell(2, 3);
    assert_eq!(universe.get_cells()[11], Cell::Alive);
    universe.toggle_cell(1, 1);
    assert_eq!(universe.get_cells()[5], Cell::Dead);
    universe.toggle_cell(2, 3);
    assert!(universe.get_cells().iter().all(|&cell| cell == Cell::Dead));
}

#[test]
fn set_width_resets_to_a_dead_grid() {
    let mut universe = Universe::new_sized(8, 5);
    universe.set_width(3);
    assert_eq!(universe.width(), 3);
    assert_eq!(universe.height(), 5);
    assert_eq!(universe.get_cells(), &[Cell::Dead; 15][..]);
}

#[test]
fn set_height_resets_to_a_dead_grid() {
    let mut universe = Universe::new_sized(8, 5);
    universe.set_height(9);
    assert_eq!(universe.width(), 8);
    assert_eq!(universe.height(), 9);
    assert_eq!(universe.get_cells(), &[Cell::Dead; 72][..]);
}

#[test]
fn resize_to_the_same_size_still_resets() {
    let mut universe = filled(4, 4, &[(0, 0), (1, 1), (2, 2)]);
    universe.set_width(4);
    assert_eq!(universe.get_cells(), &[Cell::Dead; 16][..]);
    universe.set_cells(&[(3, 3)]);
    universe.set_height(4);
    assert_eq!(universe.get_cells(), &[Cell::Dead; 16][..]);
}

#[test]
fn resize_to_zero_empties_the_grid() {
    let mut universe = Universe::new_sized(4, 4);
    universe.set_width(0);
    assert_eq!(universe.get_cells().len(), 0);
    universe.set_width(2);
    universe.set_height(0);
    assert_eq!(universe.get_cells().len(), 0);
}

#[test]
fn step_after_a_resize_keeps_one_cell_for_each_position() {
    let mut universe = Universe::new();
    universe.set_height(6);
    universe.set_width(6);
    universe.tick();
    assert_eq!(universe.get_cells().len(), 36);
    assert_eq!(universe.changes().len(), 36);
    universe.set_width(70);
    universe.set_height(70);
    universe.tick();
    assert_eq!(universe.get_cells().len(), 4900);
    assert_eq!(universe.changes().len(), 4900);
}

#[test]
fn render_writes_a_line_for_each_row() {
    let universe = filled(2, 3, &[(0, 1), (1, 2)]);
    assert_eq!(universe.render(), "\u{25FB}\u{25FC}\u{25FB}\n\u{25FB}\u{25FB}\u{25FC}\n");
}

#[test]
fn render_of_one_cell() {
    assert_eq!(filled(1, 1, &[]).render(), "\u{25FB}\n");
    assert_eq!(filled(1, 1, &[(0, 0)]).render(), "\u{25FC}\n");
}

#[test]
fn cell_glyph_text_is_one_square() {
    assert_eq!(Cell::Dead.glyph_text(), "\u{25FB}");
    assert_eq!(Cell::Alive.glyph_text(), "\u{25FC}");
}

#[test]
fn equal_grids_go_through_equal_generations() {
    let live = [(1, 2), (2, 3), (3, 1), (3, 2), (3, 3), (5, 5), (5, 6), (6, 5)];
    let mut first = filled(8, 9, &live);
    // The second universe remembers other generations and has other changes.
    let mut second = Universe::new_sized(9, 8);
    second.tick();
    second.set_width(9);
    second.set_cells(&live);
    assert_eq!(first.get_cells(), second.get_cells());
    for _ in 0..40 {
        first.tick();
        second.tick();
        assert_eq!(first.get_cells(), second.get_cells());
        assert_eq!(first.render(), second.render());
    }
}

#[test]
fn glider_returns_after_crossing_the_torus() {
    let mut universe = filled(6, 6, &[(1, 2), (2, 3), (3, 1), (3, 2), (3, 3)]);
    let start = universe.get_cells().to_vec();
    // A glider moves one cell diagonally every four steps.
    for _ in 0..24 {
        universe.tick();
    }
    assert_eq!(universe.get_cells(), &start[..]);
}
