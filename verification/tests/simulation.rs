use ant_colony::Cell;
use ant_colony::GridError;
use ant_colony::Universe;
use ant_colony::DEPOSIT_Q;
use ant_colony::MAX_ANT_STEPS;

fn idx(row: u32, column: u32, width: u32) -> usize {
    (row * width + column) as usize
}

#[test]
fn new_universe_shape() {
    let u = Universe::new(64, 64, 100, 7);
    assert_eq!(u.width(), 64);
    assert_eq!(u.height(), 64);
    assert_eq!(u.cells().len(), 64 * 64);
    assert_eq!(u.pheromones().len(), 64 * 64);
    assert_eq!(u.ants().len(), 100);
    assert_eq!(u.completed_routes(), 0);
    assert_eq!(u.start(), (0, 0));
    assert_eq!(u.end(), (63, 63));
    assert_eq!(u.cells()[0], Cell::Start);
    assert_eq!(u.cells()[64 * 64 - 1], Cell::End);
    for i in 1..(64 * 64 - 1) {
        let expected = if i % 2 == 0 || i % 7 == 0 { Cell::Ground } else { Cell::Wall };
        assert_eq!(u.cells()[i], expected);
    }
    for &p in u.pheromones().iter() {
        assert_eq!(p, 0);
    }
    for a in u.ants().iter() {
        assert!(a.alive);
        assert_eq!((a.row, a.column), (0, 0));
        assert!(a.route.is_empty());
    }
}

#[test]
fn toggle_wall_flips_ground_and_wall() {
    let mut u = Universe::new(3, 3, 1, 0);
    // Index 2 is Ground in the initial pattern.
    assert_eq!(u.cells()[idx(0, 2, 3)], Cell::Ground);
    u.toggle_wall(0, 2).unwrap();
    assert_eq!(u.cells()[idx(0, 2, 3)], Cell::Wall);
    u.toggle_wall(0, 2).unwrap();
    assert_eq!(u.cells()[idx(0, 2, 3)], Cell::Ground);
    // Index 1 is Wall in the initial pattern.
    assert_eq!(u.cells()[idx(0, 1, 3)], Cell::Wall);
    u.toggle_wall(0, 1).unwrap();
    assert_eq!(u.cells()[idx(0, 1, 3)], Cell::Ground);
}

#[test]
fn toggle_wall_on_start_is_noop() {
    let mut u = Universe::new(3, 3, 1, 0);
    u.toggle_wall(0, 0).unwrap();
    assert_eq!(u.cells()[0], Cell::Start);
    u.toggle_wall(2, 2).unwrap();
    assert_eq!(u.cells()[8], Cell::End);
}

#[test]
fn toggle_wall_out_of_bounds_is_rejected() {
    let mut u = Universe::new(3, 3, 1, 0);
    assert_eq!(u.toggle_wall(3, 0), Err(GridError::IndexOutOfBounds));
    assert_eq!(u.toggle_wall(0, 3), Err(GridError::IndexOutOfBounds));
    assert_eq!(u.toggle_wall(100, 100), Err(GridError::IndexOutOfBounds));
}

#[test]
fn set_start_moves_the_marker() {
    let mut u = Universe::new(3, 3, 1, 0);
    u.set_start(1, 1).unwrap();
    assert_eq!(u.cells()[0], Cell::Ground);
    assert_eq!(u.cells()[idx(1, 1, 3)], Cell::Start);
    assert_eq!(u.start(), (1, 1));
    // Exactly one Start remains.
    let starts = u.cells().iter().filter(|c| **c == Cell::Start).count();
    assert_eq!(starts, 1);
}

#[test]
fn set_end_moves_the_marker() {
    let mut u = Universe::new(3, 3, 1, 0);
    u.set_end(0, 2).unwrap();
    assert_eq!(u.cells()[8], Cell::Ground);
    assert_eq!(u.cells()[idx(0, 2, 3)], Cell::End);
    assert_eq!(u.end(), (0, 2));
    let ends = u.cells().iter().filter(|c| **c == Cell::End).count();
    assert_eq!(ends, 1);
}

#[test]
fn set_start_overrides_a_wall() {
    let mut u = Universe::new(3, 3, 1, 0);
    assert_eq!(u.cells()[idx(0, 1, 3)], Cell::Wall);
    u.set_start(0, 1).unwrap();
    assert_eq!(u.cells()[idx(0, 1, 3)], Cell::Start);
}

#[test]
fn set_start_on_end_cell_is_noop() {
    let mut u = Universe::new(3, 3, 1, 0);
    u.set_start(2, 2).unwrap();
    assert_eq!(u.cells()[8], Cell::End);
    assert_eq!(u.start(), (0, 0));
    assert_eq!(u.cells()[0], Cell::Start);
}

#[test]
fn set_end_on_start_cell_is_noop() {
    let mut u = Universe::new(3, 3, 1, 0);
    u.set_end(0, 0).unwrap();
    assert_eq!(u.cells()[0], Cell::Start);
    assert_eq!(u.end(), (2, 2));
}

#[test]
fn set_start_out_of_bounds_is_rejected() {
    let mut u = Universe::new(3, 3, 1, 0);
    assert_eq!(u.set_start(9, 0), Err(GridError::IndexOutOfBounds));
    assert_eq!(u.set_end(0, 9), Err(GridError::IndexOutOfBounds));
    assert_eq!(u.start(), (0, 0));
    assert_eq!(u.end(), (2, 2));
}

#[test]
fn intensity_at_reads_the_field() {
    let mut u = Universe::new(3, 3, 1, 0);
    assert_eq!(u.intensity_at(1, 2), Ok(0));
    assert_eq!(u.intensity_at(3, 0), Err(GridError::IndexOutOfBounds));
    u.deposit(&vec![(1, 2)], 42);
    assert_eq!(u.intensity_at(1, 2), Ok(42));
    assert_eq!(u.intensity_at(1, 1), Ok(0));
}

#[test]
fn evaporation_halves_a_uniform_field() {
    let mut u = Universe::new(3, 3, 1, 0);
    let mut everywhere: Vec<(u32, u32)> = Vec::new();
    for r in 0..3 {
        for c in 0..3 {
            everywhere.push((r, c));
        }
    }
    u.deposit(&everywhere, 10);
    u.evaporate(1, 2);
    for r in 0..3 {
        for c in 0..3 {
            assert_eq!(u.intensity_at(r, c), Ok(5));
        }
    }
}

#[test]
fn evaporation_rounds_down_for_other_factors() {
    let mut u = Universe::new(3, 3, 1, 0);
    u.deposit(&vec![(2, 1)], 10);
    u.evaporate(3, 4);
    assert_eq!(u.intensity_at(2, 1), Ok(7));
}

#[test]
fn deposits_accumulate() {
    let mut u = Universe::new(3, 3, 1, 0);
    u.deposit(&vec![(0, 2), (1, 2)], 10);
    u.deposit(&vec![(1, 2), (2, 2)], 5);
    assert_eq!(u.intensity_at(0, 2), Ok(10));
    assert_eq!(u.intensity_at(1, 2), Ok(15));
    assert_eq!(u.intensity_at(2, 2), Ok(5));
}

#[test]
fn evaporation_floors_vanishing_intensity_to_zero() {
    let mut u = Universe::new(3, 3, 1, 0);
    u.deposit(&vec![(0, 1)], 1);
    u.evaporate(1, 2);
    assert_eq!(u.intensity_at(0, 1), Ok(0));
}

#[test]
fn shorter_route_earns_strictly_larger_deposit() {
    // Per-cell amounts for routes of lengths 2 and 4.
    let short_amount = DEPOSIT_Q / 2;
    let long_amount = DEPOSIT_Q / 4;
    assert!(short_amount > long_amount);
    let mut u_short = Universe::new(3, 3, 1, 0);
    let mut u_long = Universe::new(3, 3, 1, 0);
    u_short.deposit(&vec![(0, 1), (0, 2)], short_amount);
    u_long.deposit(&vec![(0, 1), (0, 2), (1, 2), (2, 2)], long_amount);
    let s = u_short.intensity_at(0, 1).unwrap();
    let l = u_long.intensity_at(0, 1).unwrap();
    assert_eq!(s, 50_000);
    assert_eq!(l, 25_000);
    assert!(s > l);
}

#[test]
fn walled_in_ant_dies_on_its_first_tick() {
    // In the default 3x3 pattern both neighbors of Start, (0,1) and (1,0),
    // are walls: the ant has no eligible move.
    let mut u = Universe::new(3, 3, 1, 11);
    assert_eq!(u.cells()[idx(0, 1, 3)], Cell::Wall);
    assert_eq!(u.cells()[idx(1, 0, 3)], Cell::Wall);
    u.tick();
    let a = &u.ants()[0];
    assert!(!a.alive);
    assert_eq!(a.route.len(), 0);
    assert_eq!(u.completed_routes(), 0);
}

#[test]
fn dead_ant_respawns_at_start_next_tick() {
    let mut u = Universe::new(3, 3, 1, 11);
    u.tick();
    assert!(!u.ants()[0].alive);
    u.tick();
    let a = &u.ants()[0];
    assert!(a.alive);
    assert_eq!((a.row, a.column), (0, 0));
    assert!(a.route.is_empty());
}

#[test]
fn ant_reaches_end_on_an_open_grid() {
    let mut u = Universe::new(3, 3, 1, 42);
    // Clear the three walls: the grid becomes all Ground between Start and End.
    u.toggle_wall(0, 1).unwrap();
    u.toggle_wall(1, 0).unwrap();
    u.toggle_wall(1, 2).unwrap();
    let mut completed = 0;
    for _ in 0..500 {
        u.tick();
        completed = u.completed_routes();
        if completed >= 1 {
            break;
        }
    }
    assert!(completed >= 1, "the ant never reached End within 500 ticks");
    // A success deposited pheromone along its route this very tick.
    let total: u64 = u.pheromones().iter().sum();
    assert!(total > 0);
    // The successful ant was reset to Start with a fresh attempt.
    let a = &u.ants()[0];
    assert!(a.alive);
    assert_eq!((a.row, a.column), (0, 0));
    assert!(a.route.is_empty());
}

#[test]
fn ants_stay_in_bounds_and_off_walls() {
    let mut u = Universe::new(8, 8, 20, 3);
    for _ in 0..100 {
        u.tick();
        // The colony size never changes: death is a reset, not a removal.
        assert_eq!(u.ants().len(), 20);
        for a in u.ants().iter() {
            assert!(a.row < 8 && a.column < 8);
            assert_ne!(u.cells()[idx(a.row, a.column, 8)], Cell::Wall);
            assert!(a.route.len() <= MAX_ANT_STEPS as usize);
        }
    }
}

#[test]
fn route_length_never_exceeds_budget_on_an_open_field() {
    // A fully open 32x32 field with the End unreachable (walled off) forces
    // long walks; routes must still be reset at the budget.
    let mut u = Universe::new(32, 32, 4, 9);
    for r in 0..32 {
        for c in 0..32 {
            if u.cells()[idx(r, c, 32)] == Cell::Wall {
                u.toggle_wall(r, c).unwrap();
            }
        }
    }
    // Wall the End cell's two neighbors back in.
    u.toggle_wall(30, 31).unwrap();
    u.toggle_wall(31, 30).unwrap();
    for _ in 0..400 {
        u.tick();
        for a in u.ants().iter() {
            assert!(a.route.len() <= MAX_ANT_STEPS as usize);
        }
    }
    assert_eq!(u.completed_routes(), 0);
}

#[test]
fn pheromones_stay_bounded() {
    let mut u = Universe::new(4, 4, 50, 21);
    u.toggle_wall(0, 1).unwrap();
    u.toggle_wall(1, 0).unwrap();
    u.toggle_wall(1, 2).unwrap();
    u.toggle_wall(2, 1).unwrap();
    u.toggle_wall(2, 3).unwrap();
    u.toggle_wall(3, 2).unwrap();
    for _ in 0..200 {
        u.tick();
        for &p in u.pheromones().iter() {
            assert!(p <= 1_000_000_000);
        }
    }
}

#[test]
fn fixed_seed_replays_identically() {
    let mut u1 = Universe::new(6, 6, 10, 12345);
    let mut u2 = Universe::new(6, 6, 10, 12345);
    for _ in 0..50 {
        u1.tick();
        u2.tick();
    }
    assert_eq!(u1.completed_routes(), u2.completed_routes());
    assert_eq!(u1.pheromones(), u2.pheromones());
    for (a, b) in u1.ants().iter().zip(u2.ants().iter()) {
        assert_eq!(a.alive, b.alive);
        assert_eq!((a.row, a.column), (b.row, b.column));
        assert_eq!(a.route, b.route);
    }
}

#[test]
fn different_seeds_may_diverge() {
    let mut u1 = Universe::new(6, 6, 10, 1);
    let mut u2 = Universe::new(6, 6, 10, 2);
    let mut diverged = false;
    for _ in 0..50 {
        u1.tick();
        u2.tick();
        for (a, b) in u1.ants().iter().zip(u2.ants().iter()) {
            if (a.row, a.column) != (b.row, b.column) {
                diverged = true;
            }
        }
    }
    assert!(diverged);
}

#[test]
fn moving_start_mid_simulation_respawns_there() {
    let mut u = Universe::new(3, 3, 1, 11);
    // The walled-in ant dies on the first tick.
    u.tick();
    assert!(!u.ants()[0].alive);
    // Move Start to an open corner; the dead ant respawns at the new Start.
    u.set_start(2, 0).unwrap();
    u.tick();
    let a = &u.ants()[0];
    assert!(a.alive);
    assert_eq!((a.row, a.column), (2, 0));
}
