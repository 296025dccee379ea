use game_of_life::grid::{create_empty_grid, grids_equal, Grid};
use game_of_life::seeder::{
    add_not_gate, apply_pattern, glider_gun_pattern, initialize_glider_gun, level_alive,
    not_gate_pattern, randomize_grid, LEVEL_SCALE,
};
use game_of_life::stepper::{count_live_neighbors, next_cell_state, step, update_grid};

fn live_count(g: &Grid) -> usize {
    let mut n = 0;
    for r in 0..g.height {
        for c in 0..g.width {
            if g.get(r, c) {
                n += 1;
            }
        }
    }
    n
}

fn assert_all_dead(g: &Grid) {
    for r in 0..g.height {
        for c in 0..g.width {
            assert!(!g.get(r, c), "cell ({}, {}) should be dead", r, c);
        }
    }
}

#[test]
fn new_rejects_zero_dimensions() {
    assert!(Grid::new(0, 5).is_none());
    assert!(Grid::new(5, 0).is_none());
    assert!(Grid::new(0, 0).is_none());
    let g = Grid::new(3, 4).expect("positive dimensions");
    assert_eq!(g.width, 3);
    assert_eq!(g.height, 4);
    assert_all_dead(&g);
}

#[test]
fn empty_grid_starts_all_dead() {
    let g = create_empty_grid(7, 2);
    assert_eq!(g.width, 7);
    assert_eq!(g.height, 2);
    assert_all_dead(&g);
}

#[test]
fn set_changes_one_cell_only() {
    let mut g = create_empty_grid(4, 4);
    g.set(1, 2, true);
    for r in 0..4 {
        for c in 0..4 {
            assert_eq!(g.get(r, c), r == 1 && c == 2);
        }
    }
    g.set(1, 2, false);
    assert_all_dead(&g);
}

#[test]
fn step_of_all_dead_is_all_dead() {
    let g = create_empty_grid(5, 5);
    let s = step(&g);
    assert_eq!(s.width, 5);
    assert_eq!(s.height, 5);
    assert_all_dead(&s);
}

#[test]
fn neighbor_count_is_at_most_eight_and_excludes_self() {
    let mut g = create_empty_grid(3, 3);
    for r in 0..3 {
        for c in 0..3 {
            g.set(r, c, true);
        }
    }
    assert_eq!(count_live_neighbors(&g, 1, 1), 8);
    // Killing the center cell itself changes no cell's neighbor count by
    // its own state: the center still sees 8.
    g.set(1, 1, false);
    assert_eq!(count_live_neighbors(&g, 1, 1), 8);
}

#[test]
fn boundary_cells_count_fewer_neighbors() {
    let mut g = create_empty_grid(3, 3);
    for r in 0..3 {
        for c in 0..3 {
            g.set(r, c, true);
        }
    }
    // No wraparound: a corner sees 3 of the 9 live cells, an edge 5.
    assert_eq!(count_live_neighbors(&g, 0, 0), 3);
    assert_eq!(count_live_neighbors(&g, 0, 2), 3);
    assert_eq!(count_live_neighbors(&g, 2, 0), 3);
    assert_eq!(count_live_neighbors(&g, 2, 2), 3);
    assert_eq!(count_live_neighbors(&g, 0, 1), 5);
    assert_eq!(count_live_neighbors(&g, 1, 0), 5);
}

#[test]
fn isolated_corner_cell_dies() {
    let mut g = create_empty_grid(3, 3);
    g.set(0, 0, true);
    // The live corner's own count is 0, and no other cell sees more than 1.
    assert_eq!(count_live_neighbors(&g, 0, 0), 0);
    assert_eq!(count_live_neighbors(&g, 0, 1), 1);
    assert_eq!(count_live_neighbors(&g, 1, 1), 1);
    assert_eq!(count_live_neighbors(&g, 2, 2), 0);
    let s = step(&g);
    assert_all_dead(&s);
}

#[test]
fn block_is_a_still_life() {
    let mut g = create_empty_grid(4, 4);
    g.set(1, 1, true);
    g.set(1, 2, true);
    g.set(2, 1, true);
    g.set(2, 2, true);
    let s = step(&g);
    assert!(grids_equal(&g, &s));
}

#[test]
fn blinker_oscillates_with_period_two() {
    let mut g = create_empty_grid(5, 5);
    g.set(2, 1, true);
    g.set(2, 2, true);
    g.set(2, 3, true);
    let s1 = step(&g);
    assert!(!grids_equal(&g, &s1));
    // The horizontal bar becomes a vertical one.
    assert!(s1.get(1, 2) && s1.get(2, 2) && s1.get(3, 2));
    assert_eq!(live_count(&s1), 3);
    let s2 = step(&s1);
    assert!(grids_equal(&g, &s2));
}

#[test]
fn update_grid_matches_step() {
    let mut g = create_empty_grid(5, 5);
    g.set(2, 1, true);
    g.set(2, 2, true);
    g.set(2, 3, true);
    let s = step(&g);
    update_grid(&mut g);
    assert!(grids_equal(&g, &s));
}

#[test]
fn next_cell_state_follows_the_rules() {
    let mut g = create_empty_grid(4, 4);
    g.set(1, 1, true);
    g.set(1, 2, true);
    g.set(2, 1, true);
    // (2, 2) is dead with exactly 3 live neighbors: it is born.
    assert!(next_cell_state(&g, 2, 2));
    // (0, 0) is dead with 1 live neighbor: it stays dead.
    assert!(!next_cell_state(&g, 0, 0));
    // (1, 1) is alive with 2 live neighbors: it survives.
    assert!(next_cell_state(&g, 1, 1));
    // (3, 3) is dead with 0 live neighbors: it stays dead.
    assert!(!next_cell_state(&g, 3, 3));
}

#[test]
fn randomize_with_zero_threshold_fills_the_board() {
    let mut g = create_empty_grid(6, 4);
    randomize_grid(&mut g, 0);
    for r in 0..4 {
        for c in 0..6 {
            assert!(g.get(r, c));
        }
    }
}

#[test]
fn randomize_with_full_threshold_clears_the_board() {
    let mut g = create_empty_grid(6, 4);
    randomize_grid(&mut g, 0);
    randomize_grid(&mut g, LEVEL_SCALE);
    assert_all_dead(&g);
    randomize_grid(&mut g, LEVEL_SCALE + 1);
    assert_all_dead(&g);
}

#[test]
fn level_comparison_is_at_threshold() {
    assert!(level_alive(0, 0));
    assert!(level_alive(300000, 300000));
    assert!(!level_alive(299999, 300000));
    assert!(!level_alive(LEVEL_SCALE - 1, LEVEL_SCALE));
}

#[test]
fn pattern_seeding_sets_exactly_the_listed_cells() {
    let mut g = create_empty_grid(5, 4);
    let coords = vec![(0usize, 1usize), (2, 3), (3, 0), (2, 3)];
    apply_pattern(&mut g, &coords);
    for r in 0..4 {
        for c in 0..5 {
            let listed = (r == 0 && c == 1) || (r == 2 && c == 3) || (r == 3 && c == 0);
            assert_eq!(g.get(r, c), listed, "cell ({}, {})", r, c);
        }
    }
}

#[test]
fn pattern_seeding_leaves_other_live_cells_alone() {
    let mut g = create_empty_grid(5, 5);
    g.set(4, 4, true);
    let coords = vec![(1usize, 1usize)];
    apply_pattern(&mut g, &coords);
    assert!(g.get(1, 1));
    assert!(g.get(4, 4));
    assert_eq!(live_count(&g), 2);
}

#[test]
fn glider_gun_sets_exactly_its_cells() {
    let mut g = create_empty_grid(40, 12);
    initialize_glider_gun(&mut g);
    let coords = glider_gun_pattern();
    assert_eq!(coords.len(), 36);
    for &(r, c) in &coords {
        assert!(g.get(r, c), "gun cell ({}, {})", r, c);
    }
    assert_eq!(live_count(&g), 36);
}

#[test]
fn not_gate_sets_exactly_its_cells() {
    let mut g = create_empty_grid(10, 20);
    add_not_gate(&mut g);
    let coords = not_gate_pattern();
    assert_eq!(coords.len(), 14);
    for &(r, c) in &coords {
        assert!(g.get(r, c), "gate cell ({}, {})", r, c);
    }
    assert_eq!(live_count(&g), 14);
}
