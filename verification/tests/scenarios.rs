//! Scenarios on small universes: neighbour counts and single steps.

use wasm_game_of_life::Cell;
use wasm_game_of_life::Universe;

fn setup_scenario(length: u32, width: u32, cells: &[(u32, u32)]) -> Universe {
    let mut universe = Universe::new();
    universe.set_height(length);
    universe.set_width(width);
    universe.set_cells(cells);
    universe
}

fn input_spaceship() -> Universe {
    setup_scenario(6, 6, &[(1, 2), (2, 3), (3, 1), (3, 2), (3, 3)])
}

fn expected_spaceship() -> Universe {
    setup_scenario(6, 6, &[(2, 1), (2, 3), (3, 2), (3, 3), (4, 2)])
}

#[test]
fn test_setup() {
    let mut input_universe = input_spaceship();
    let expected_universe = expected_spaceship();

    input_universe.tick();
    assert_eq!(&input_universe.get_cells(), &expected_universe.get_cells());
}

#[test]
fn test_tick() {
    let mut input_universe = input_spaceship();
    let expected_universe = expected_spaceship();

    input_universe.tick();
    assert_eq!(&input_universe.get_cells(), &expected_universe.get_cells());
}

#[test]
fn test_count_zero_neighbours() {
    let universe = setup_scenario(5, 5, &[]);

    assert_eq!(universe.count_neighbours(2, 2), 0)
}

#[test]
fn test_count_one_horizontal_neighbours() {
    let universe = setup_scenario(5, 5, &[(2, 1)]);

    assert_eq!(universe.count_neighbours(2, 2), 1)
}

#[test]
fn test_count_one_vertical_neighbours() {
    let universe = setup_scenario(5, 5, &[(1, 2)]);

    assert_eq!(universe.count_neighbours(2, 2), 1)
}

#[test]
fn test_count_one_diagonal_neighbours() {
    let universe = setup_scenario(5, 5, &[(1, 1)]);

    assert_eq!(universe.count_neighbours(2, 2), 1)
}

#[test]
fn test_count_mixed_neighbours() {
    let universe = setup_scenario(5, 5, &[(1, 1), (2, 1), (1, 2)]);

    assert_eq!(universe.count_neighbours(2, 2), 3)
}

#[test]
fn pass() {
    assert_eq!(1 + 1, 2);
}

#[test]
fn glider_moves_to_exactly_five_cells() {
    let mut universe = input_spaceship();
    universe.tick();
    let live = [(2u32, 1u32), (2, 3), (3, 2), (3, 3), (4, 2)];
    let cells = universe.get_cells();
    assert_eq!(cells.len(), 36);
    for row in 0..6u32 {
        for col in 0..6u32 {
            let expected = if live.contains(&(row, col)) { Cell::Alive } else { Cell::Dead };
            assert_eq!(cells[(row * 6 + col) as usize], expected, "at ({}, {})", row, col);
        }
    }
}

#[test]
fn dead_universe_counts_zero_everywhere() {
    let universe = setup_scenario(5, 7, &[]);
    for row in 0..5 {
        for col in 0..7 {
            assert_eq!(universe.count_neighbours(row, col), 0);
        }
    }
}

#[test]
fn one_live_cell_is_counted_once_by_each_of_its_eight_neighbours() {
    let universe = setup_scenario(5, 5, &[(2, 2)]);
    for row in 0..5u32 {
        for col in 0..5u32 {
            let near = (1..=3).contains(&row) && (1..=3).contains(&col) && (row, col) != (2, 2);
            assert_eq!(universe.count_neighbours(row, col), if near { 1 } else { 0 });
        }
    }
}

#[test]
fn neighbour_across_the_top_edge() {
    let universe = setup_scenario(5, 5, &[(4, 2)]);
    assert_eq!(universe.count_neighbours(0, 2), 1);
    assert_eq!(universe.count_neighbours(0, 1), 1);
    assert_eq!(universe.count_neighbours(0, 3), 1);
    assert_eq!(universe.count_neighbours(1, 2), 0);
}

#[test]
fn neighbour_across_the_bottom_edge() {
    let universe = setup_scenario(5, 5, &[(0, 2)]);
    assert_eq!(universe.count_neighbours(4, 2), 1);
    assert_eq!(universe.count_neighbours(4, 1), 1);
    assert_eq!(universe.count_neighbours(4, 3), 1);
}

#[test]
fn neighbour_across_the_left_edge() {
    let universe = setup_scenario(5, 5, &[(2, 4)]);
    assert_eq!(universe.count_neighbours(2, 0), 1);
    assert_eq!(universe.count_neighbours(1, 0), 1);
    assert_eq!(universe.count_neighbours(3, 0), 1);
}

#[test]
fn neighbour_across_the_right_edge() {
    let universe = setup_scenario(5, 5, &[(2, 0)]);
    assert_eq!(universe.count_neighbours(2, 4), 1);
    assert_eq!(universe.count_neighbours(1, 4), 1);
    assert_eq!(universe.count_neighbours(3, 4), 1);
}

#[test]
fn origin_is_a_neighbour_of_the_three_far_corners_and_edges() {
    for (height, width) in [(3u32, 3u32), (4, 7), (7, 4), (6, 6)] {
        let universe = setup_scenario(height, width, &[(0, 0)]);
        assert_eq!(universe.count_neighbours(height - 1, 0), 1);
        assert_eq!(universe.count_neighbours(0, width - 1), 1);
        assert_eq!(universe.count_neighbours(height - 1, width - 1), 1);
        assert_eq!(universe.count_neighbours(0, 0), 0);
    }
}

#[test]
fn on_two_columns_the_cell_beside_is_reached_by_two_steps() {
    let universe = setup_scenario(3, 2, &[(1, 1)]);
    assert_eq!(universe.count_neighbours(1, 0), 2);
    assert_eq!(universe.count_neighbours(0, 0), 2);
    assert_eq!(universe.count_neighbours(0, 1), 1);
    assert_eq!(universe.count_neighbours(1, 1), 0);
}

#[test]
fn on_a_single_cell_every_step_leads_back() {
    let mut universe = setup_scenario(1, 1, &[(0, 0)]);
    assert_eq!(universe.count_neighbours(0, 0), 8);
    universe.tick();
    assert_eq!(universe.get_cells(), &[Cell::Dead]);
}

#[test]
fn on_a_single_row_the_cell_is_above_and_below_itself() {
    let universe = setup_scenario(1, 4, &[(0, 1)]);
    assert_eq!(universe.count_neighbours(0, 1), 2);
    assert_eq!(universe.count_neighbours(0, 0), 3);
    assert_eq!(universe.count_neighbours(0, 2), 3);
    assert_eq!(universe.count_neighbours(0, 3), 0);
}

#[test]
fn blinker_turns_and_turns_back() {
    let mut universe = setup_scenario(5, 5, &[(2, 1), (2, 2), (2, 3)]);
    let flat = universe.get_cells().to_vec();
    universe.tick();
    let upright = setup_scenario(5, 5, &[(1, 2), (2, 2), (3, 2)]);
    assert_eq!(universe.get_cells(), upright.get_cells());
    universe.tick();
    assert_eq!(universe.get_cells(), &flat[..]);
}

#[test]
fn block_is_still() {
    let mut universe = setup_scenario(4, 4, &[(1, 1), (1, 2), (2, 1), (2, 2)]);
    let before = universe.get_cells().to_vec();
    universe.tick();
    assert_eq!(universe.get_cells(), &before[..]);
}

#[test]
fn lonely_cell_dies_and_three_parents_give_birth() {
    let mut lonely = setup_scenario(5, 5, &[(2, 2)]);
    lonely.tick();
    assert!(lonely.get_cells().iter().all(|&cell| cell == Cell::Dead));

    let mut corner = setup_scenario(5, 5, &[(1, 1), (1, 2), (2, 1)]);
    corner.tick();
    let block = setup_scenario(5, 5, &[(1, 1), (1, 2), (2, 1), (2, 2)]);
    assert_eq!(corner.get_cells(), block.get_cells());
}

#[test]
fn crowded_cell_dies() {
    let mut universe = setup_scenario(5, 5, &[(1, 1), (1, 2), (1, 3), (2, 1), (2, 2)]);
    assert_eq!(universe.count_neighbours(2, 2), 4);
    universe.tick();
    assert_eq!(universe.get_cells()[(2 * 5 + 2) as usize], Cell::Dead);
}
