use life_grid::grid::{number_of_alive_neighbours, snapshot, startup_spawn, update_cells, Grid, Position};
use life_grid::rules::next_alive;
use life_grid::run_state::{user_input, AppState, RunState};
use life_grid::screen::{convert_coords_to_screen_space, size_scaling, Fraction};

fn grid_with(width: i32, height: i32, alive: &[(i32, i32)]) -> Grid {
    let mut g = Grid::new(width, height);
    for &(x, y) in alive {
        g.set_alive(x, y, true);
    }
    g
}

fn alive_cells(g: &Grid) -> Vec<(i32, i32)> {
    let mut r = Vec::new();
    for x in 0..g.width {
        for y in 0..g.height {
            if g.is_alive(x, y) {
                r.push((x, y));
            }
        }
    }
    r
}

fn running() -> AppState {
    AppState(RunState::Running)
}

#[test]
fn rule_zero_or_one_neighbour_dies() {
    assert!(!next_alive(0));
    assert!(!next_alive(1));
}

#[test]
fn rule_two_or_three_neighbours_live() {
    assert!(next_alive(2));
    assert!(next_alive(3));
}

#[test]
fn rule_four_or_more_neighbours_die() {
    for n in 4..=8 {
        assert!(!next_alive(n));
    }
}

#[test]
fn lonely_alive_cell_dies() {
    let mut g = grid_with(5, 5, &[(2, 2), (3, 2)]);
    update_cells(&mut g, &running());
    assert!(!g.is_alive(2, 2));
    assert!(!g.is_alive(3, 2));
}

#[test]
fn dead_cell_with_two_neighbours_becomes_alive() {
    let mut g = grid_with(5, 5, &[(1, 1), (3, 3)]);
    update_cells(&mut g, &running());
    assert!(g.is_alive(2, 2));
}

#[test]
fn crowded_cell_dies() {
    let mut g = grid_with(5, 5, &[(2, 2), (1, 1), (3, 1), (1, 3), (3, 3)]);
    update_cells(&mut g, &running());
    assert!(!g.is_alive(2, 2));
}

#[test]
fn dead_grid_stays_dead() {
    let mut g = Grid::new(8, 6);
    for _ in 0..5 {
        update_cells(&mut g, &running());
        assert!(alive_cells(&g).is_empty());
    }
}

#[test]
fn blinker_steps_use_the_snapshot() {
    let mut g = grid_with(5, 5, &[(1, 2), (2, 2), (3, 2)]);
    update_cells(&mut g, &running());
    assert_eq!(
        alive_cells(&g),
        vec![(1, 1), (1, 3), (2, 1), (2, 2), (2, 3), (3, 1), (3, 3)]
    );
    update_cells(&mut g, &running());
    assert_eq!(
        alive_cells(&g),
        vec![
            (0, 2),
            (1, 0),
            (1, 1),
            (1, 3),
            (1, 4),
            (2, 0),
            (2, 1),
            (2, 3),
            (2, 4),
            (3, 0),
            (3, 1),
            (3, 3),
            (3, 4),
            (4, 2)
        ]
    );
}

#[test]
fn pending_state_is_committed() {
    let mut g = grid_with(5, 5, &[(1, 2), (2, 2), (3, 2)]);
    update_cells(&mut g, &running());
    for c in &g.cells {
        assert_eq!(c.will_be_alive, c.is_currently_alive);
    }
}

#[test]
fn edge_tiles_symmetric_about_centre() {
    let left = convert_coords_to_screen_space(0, 975, 16);
    let right = convert_coords_to_screen_space(15, 975, 16);
    assert_eq!(left, Fraction { numerator: -14625, denominator: 32 });
    assert_eq!(right, Fraction { numerator: 14625, denominator: 32 });
    assert_eq!(left.numerator + right.numerator, 0);
}

#[test]
fn screen_position_exact_value() {
    // 3 / 4 * 100 - 50 + 12.5 = 37.5
    let p = convert_coords_to_screen_space(3, 100, 4);
    assert_eq!(p, Fraction { numerator: 300, denominator: 8 });
}

#[test]
fn tile_scale_is_nine_tenths_of_a_share() {
    assert_eq!(size_scaling(1000, 16), Fraction { numerator: 9000, denominator: 160 });
}

#[test]
fn corner_counts_only_cells_inside() {
    let g = grid_with(4, 4, &[(1, 0), (0, 1), (1, 1)]);
    let m = snapshot(&g);
    assert_eq!(number_of_alive_neighbours(&m, 4, 4, Position { x: 0, y: 0 }), 3);
    assert_eq!(number_of_alive_neighbours(&m, 4, 4, Position { x: -1, y: -1 }), 0);
    assert_eq!(number_of_alive_neighbours(&m, 4, 4, Position { x: 2, y: 2 }), 1);
}

#[test]
fn corner_step_matches_rule() {
    let mut g = grid_with(4, 4, &[(1, 0), (0, 1), (1, 1)]);
    update_cells(&mut g, &running());
    assert_eq!(
        alive_cells(&g),
        vec![(0, 0), (0, 1), (0, 2), (1, 0), (1, 1), (1, 2), (2, 0), (2, 1)]
    );
}

#[test]
fn snapshot_holds_every_cell() {
    let g = grid_with(3, 3, &[(0, 0), (2, 2)]);
    let m = snapshot(&g);
    assert_eq!(number_of_alive_neighbours(&m, 3, 3, Position { x: 1, y: 1 }), 2);
    assert_eq!(number_of_alive_neighbours(&m, 3, 3, Position { x: 0, y: 1 }), 1);
}

#[test]
fn paused_ticks_change_nothing() {
    let mut g = startup_spawn(16, 16);
    let before = alive_cells(&g);
    let paused = AppState::new();
    assert_eq!(paused.0, RunState::Paused);
    for _ in 0..4 {
        update_cells(&mut g, &paused);
    }
    assert_eq!(alive_cells(&g), before);
}

#[test]
fn toggling_runs_exactly_one_step() {
    let mut g = startup_spawn(16, 16);
    let mut state = AppState::new();
    user_input(true, &mut state);
    assert_eq!(state.0, RunState::Running);
    update_cells(&mut g, &state);
    let mut expected = Vec::new();
    for y in 0..16 {
        expected.push((1, y));
    }
    for y in 1..15 {
        expected.push((2, y));
    }
    for y in 0..16 {
        expected.push((3, y));
    }
    assert_eq!(alive_cells(&g), expected);
    user_input(true, &mut state);
    assert_eq!(state.0, RunState::Paused);
}

#[test]
fn no_key_press_keeps_state() {
    let mut state = AppState::new();
    user_input(false, &mut state);
    assert_eq!(state.0, RunState::Paused);
}

#[test]
fn startup_pattern_is_column_two() {
    let g = startup_spawn(16, 16);
    let mut expected = Vec::new();
    for y in 0..16 {
        expected.push((2, y));
    }
    assert_eq!(alive_cells(&g), expected);
    assert!(!g.is_alive(-1, 0));
    assert!(!g.is_alive(2, 16));
}
