use game_of_life::control::{pointer_to_cell, Simulation};
use game_of_life::grid::Grid;

fn grid_with(width: usize, height: usize, live: &[(usize, usize)]) -> Grid {
    let mut g = Grid::new(width, height);
    for &(x, y) in live {
        g.toggle(x, y);
    }
    g
}

fn live_cells(g: &Grid) -> Vec<(usize, usize)> {
    let mut out = Vec::new();
    for x in 0..g.width() {
        for y in 0..g.height() {
            if g.is_alive(x, y) {
                out.push((x, y));
            }
        }
    }
    out
}

#[test]
fn new_grid_is_all_dead() {
    let g = Grid::new(4, 3);
    assert_eq!(g.width(), 4);
    assert_eq!(g.height(), 3);
    assert!(live_cells(&g).is_empty());
}

#[test]
fn step_is_deterministic() {
    let g = grid_with(5, 5, &[(1, 1), (2, 2), (3, 3), (2, 3), (1, 3)]);
    let a = g.step();
    let b = g.step();
    assert_eq!(live_cells(&a), live_cells(&b));
}

#[test]
fn live_cell_with_zero_neighbors_dies() {
    let g = grid_with(3, 3, &[(1, 1)]);
    let s = g.step();
    assert!(!s.is_alive(1, 1));
}

#[test]
fn live_cell_with_one_neighbor_dies() {
    let g = grid_with(4, 4, &[(1, 1), (2, 2)]);
    let s = g.step();
    assert!(!s.is_alive(1, 1));
    assert!(!s.is_alive(2, 2));
}

#[test]
fn live_cell_with_two_neighbors_survives() {
    let g = grid_with(4, 4, &[(0, 0), (1, 1), (2, 2)]);
    let s = g.step();
    assert!(s.is_alive(1, 1));
}

#[test]
fn live_cell_with_three_neighbors_survives() {
    let g = grid_with(4, 4, &[(1, 1), (0, 0), (2, 0), (0, 2)]);
    let s = g.step();
    assert!(s.is_alive(1, 1));
}

#[test]
fn live_cell_with_four_neighbors_dies() {
    let g = grid_with(4, 4, &[(1, 1), (0, 0), (2, 0), (0, 2), (2, 2)]);
    let s = g.step();
    assert!(!s.is_alive(1, 1));
}

#[test]
fn dead_cell_with_three_neighbors_is_born() {
    let g = grid_with(4, 4, &[(0, 0), (2, 0), (0, 2)]);
    assert!(!g.is_alive(1, 1));
    let s = g.step();
    assert!(s.is_alive(1, 1));
}

#[test]
fn dead_cell_with_two_neighbors_stays_dead() {
    let g = grid_with(4, 4, &[(0, 0), (2, 0)]);
    let s = g.step();
    assert!(!s.is_alive(1, 1));
}

#[test]
fn dead_cell_with_four_neighbors_stays_dead() {
    let g = grid_with(4, 4, &[(0, 0), (2, 0), (0, 2), (2, 2)]);
    let s = g.step();
    assert!(!s.is_alive(1, 1));
}

#[test]
fn corner_cell_has_three_neighbors() {
    let g = Grid::new(5, 4);
    assert_eq!(g.neighbors(0, 0).len(), 3);
    assert_eq!(g.neighbors(4, 0).len(), 3);
    assert_eq!(g.neighbors(0, 3).len(), 3);
    assert_eq!(g.neighbors(4, 3).len(), 3);
}

#[test]
fn edge_cell_has_five_neighbors() {
    let g = Grid::new(5, 4);
    assert_eq!(g.neighbors(2, 0).len(), 5);
    assert_eq!(g.neighbors(0, 2).len(), 5);
    assert_eq!(g.neighbors(4, 1).len(), 5);
    assert_eq!(g.neighbors(3, 3).len(), 5);
}

#[test]
fn interior_cell_has_eight_neighbors() {
    let g = Grid::new(5, 4);
    assert_eq!(g.neighbors(2, 2).len(), 8);
    assert_eq!(g.neighbors(1, 1).len(), 8);
}

#[test]
fn neighbors_never_include_the_cell_itself() {
    let g = Grid::new(4, 4);
    for x in 0..4 {
        for y in 0..4 {
            for &(nx, ny) in g.neighbors(x, y).iter() {
                assert_ne!((nx, ny), (x, y));
                assert!(nx < 4 && ny < 4);
                assert!(nx.abs_diff(x) <= 1 && ny.abs_diff(y) <= 1);
            }
        }
    }
}

#[test]
fn live_neighbor_count_matches_enumeration() {
    let g = grid_with(4, 4, &[(0, 0), (1, 0), (2, 1), (3, 3)]);
    assert_eq!(g.live_neighbor_count(1, 1), 3);
    assert_eq!(g.live_neighbor_count(0, 0), 1);
    assert_eq!(g.live_neighbor_count(3, 3), 0);
    assert_eq!(g.live_neighbor_count(2, 2), 2);
}

#[test]
fn empty_grid_is_stable() {
    let g = Grid::new(6, 6);
    let s = g.step();
    assert!(live_cells(&s).is_empty());
    assert_eq!(s.width(), 6);
    assert_eq!(s.height(), 6);
}

#[test]
fn block_is_a_still_life() {
    let g = grid_with(5, 5, &[(1, 1), (2, 1), (1, 2), (2, 2)]);
    let s = g.step();
    assert_eq!(live_cells(&s), vec![(1, 1), (1, 2), (2, 1), (2, 2)]);
}

#[test]
fn block_in_the_corner_is_a_still_life() {
    let g = grid_with(4, 4, &[(0, 0), (1, 0), (0, 1), (1, 1)]);
    let s = g.step();
    assert_eq!(live_cells(&s), vec![(0, 0), (0, 1), (1, 0), (1, 1)]);
}

#[test]
fn blinker_oscillates_with_period_two() {
    let g = grid_with(3, 3, &[(1, 0), (1, 1), (1, 2)]);
    let once = g.step();
    assert_eq!(live_cells(&once), vec![(0, 1), (1, 1), (2, 1)]);
    let twice = once.step();
    assert_eq!(live_cells(&twice), vec![(1, 0), (1, 1), (1, 2)]);
}

#[test]
fn toggle_changes_only_the_given_cell() {
    let mut g = grid_with(4, 4, &[(0, 0), (3, 3)]);
    g.toggle(2, 1);
    assert_eq!(live_cells(&g), vec![(0, 0), (2, 1), (3, 3)]);
    g.toggle(0, 0);
    assert_eq!(live_cells(&g), vec![(2, 1), (3, 3)]);
}

#[test]
fn pointer_maps_by_integer_division() {
    assert_eq!(pointer_to_cell(12, 7, 100, 100, 5), Some((2, 1)));
}

#[test]
fn pointer_on_a_cell_boundary_maps_to_that_cell() {
    assert_eq!(pointer_to_cell(10, 0, 100, 100, 5), Some((2, 0)));
}

#[test]
fn pointer_outside_the_board_is_out_of_bounds() {
    assert_eq!(pointer_to_cell(-1, 0, 100, 100, 5), None);
    assert_eq!(pointer_to_cell(500, 0, 100, 100, 5), None);
    assert_eq!(pointer_to_cell(0, -1, 100, 100, 5), None);
    assert_eq!(pointer_to_cell(0, 500, 100, 100, 5), None);
    assert_eq!(pointer_to_cell(499, 499, 100, 100, 5), Some((99, 99)));
}

#[test]
fn rate_has_a_floor_of_one() {
    let mut sim = Simulation::new(10, 10, 5, true);
    assert_eq!(sim.rate(), 1);
    sim.decrease_rate();
    assert_eq!(sim.rate(), 1);
    sim.increase_rate();
    sim.increase_rate();
    assert_eq!(sim.rate(), 3);
    sim.decrease_rate();
    assert_eq!(sim.rate(), 2);
}

#[test]
fn paused_simulation_ignores_ticks() {
    let mut sim = Simulation::new(5, 5, 5, true);
    sim.mouse_moved(7, 7);
    sim.click();
    assert!(sim.is_cell_alive(1, 1));
    sim.tick();
    assert!(sim.is_cell_alive(1, 1));
    assert!(sim.is_paused());
}

#[test]
fn running_simulation_steps_on_tick() {
    let mut sim = Simulation::new(5, 5, 5, false);
    assert!(!sim.is_paused());
    sim.mouse_moved(7, 7);
    sim.click();
    assert!(sim.is_cell_alive(1, 1));
    sim.tick();
    assert!(!sim.is_cell_alive(1, 1));
}

#[test]
fn toggle_pause_switches_states() {
    let mut sim = Simulation::new(5, 5, 5, true);
    assert!(sim.is_paused());
    sim.toggle_pause();
    assert!(!sim.is_paused());
    sim.toggle_pause();
    assert!(sim.is_paused());
}

#[test]
fn clicks_outside_the_board_are_dropped() {
    let mut sim = Simulation::new(5, 5, 5, true);
    sim.mouse_moved(7, 7);
    sim.mouse_moved(100, 3);
    assert_eq!(sim.cursor(), None);
    sim.click();
    for x in 0..5 {
        for y in 0..5 {
            assert!(!sim.is_cell_alive(x, y));
        }
    }
}

#[test]
fn click_resolves_against_the_last_in_bounds_position() {
    let mut sim = Simulation::new(5, 5, 5, true);
    sim.mouse_moved(22, 13);
    assert_eq!(sim.cursor(), Some((4, 2)));
    sim.click();
    assert!(sim.is_cell_alive(4, 2));
    sim.click();
    assert!(!sim.is_cell_alive(4, 2));
}

#[test]
fn blinker_through_the_simulation_loop() {
    let mut sim = Simulation::new(3, 3, 5, true);
    for &(px, py) in &[(7, 2), (7, 7), (7, 12)] {
        sim.mouse_moved(px, py);
        sim.click();
    }
    assert!(sim.is_cell_alive(1, 0) && sim.is_cell_alive(1, 1) && sim.is_cell_alive(1, 2));
    sim.toggle_pause();
    sim.tick();
    assert!(sim.is_cell_alive(0, 1) && sim.is_cell_alive(1, 1) && sim.is_cell_alive(2, 1));
    assert!(!sim.is_cell_alive(1, 0) && !sim.is_cell_alive(1, 2));
}
