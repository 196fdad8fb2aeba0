use life_grid::{next_state, Grid, GridError};
use std::cell::Cell;

fn grid_with(width: i64, height: i64, alive: &[(i64, i64)]) -> Grid {
    match Grid::create(width, height, |x, y| alive.contains(&(x, y))) {
        Ok(g) => g,
        Err(e) => panic!("grid construction failed: {:?}", e),
    }
}

fn alive_cells(g: &Grid) -> Vec<(i64, i64)> {
    let (w, h) = g.dimensions();
    let mut out = Vec::new();
    for x in 0..w {
        for y in 0..h {
            if g.get(x, y) == Ok(true) {
                out.push((x, y));
            }
        }
    }
    out
}

#[test]
fn zero_width_is_invalid() {
    assert!(matches!(
        Grid::create(0, 5, |_, _| true),
        Err(GridError::InvalidDimension)
    ));
}

#[test]
fn negative_height_is_invalid() {
    assert!(matches!(
        Grid::create(5, -1, |_, _| true),
        Err(GridError::InvalidDimension)
    ));
}

#[test]
fn get_at_width_is_out_of_bounds() {
    let g = grid_with(4, 3, &[(3, 2)]);
    assert_eq!(g.get(4, 0), Err(GridError::OutOfBounds));
    assert_eq!(g.get(0, 3), Err(GridError::OutOfBounds));
    assert_eq!(g.get(-1, 0), Err(GridError::OutOfBounds));
    assert_eq!(g.get(3, 2), Ok(true));
    assert_eq!(g.get(2, 2), Ok(false));
}

#[test]
fn create_follows_initializer_once_per_cell() {
    let calls = Cell::new(0u32);
    let g = Grid::create(5, 3, |x, y| {
        calls.set(calls.get() + 1);
        (x + y) % 2 == 0
    })
    .unwrap();
    assert_eq!(calls.get(), 15);
    assert_eq!(g.dimensions(), (5, 3));
    for x in 0..5 {
        for y in 0..3 {
            assert_eq!(g.get(x, y), Ok((x + y) % 2 == 0));
        }
    }
}

#[test]
fn step_preserves_dimensions() {
    let g = grid_with(7, 3, &[(0, 0), (1, 1), (6, 2)]);
    assert_eq!(g.step().dimensions(), (7, 3));
    let one = grid_with(1, 1, &[(0, 0)]);
    assert_eq!(one.step().dimensions(), (1, 1));
    assert_eq!(one.step().get(0, 0), Ok(false));
}

#[test]
fn step_is_deterministic() {
    let alive = [(0, 0), (1, 0), (2, 1), (3, 3), (4, 2), (1, 4), (2, 4)];
    let a = grid_with(6, 5, &alive);
    let b = grid_with(6, 5, &alive);
    let first = a.step();
    let second = a.step();
    let other = b.step();
    assert_eq!(alive_cells(&first), alive_cells(&second));
    assert_eq!(alive_cells(&first), alive_cells(&other));
    assert_eq!(alive_cells(&a), alive_cells(&b));
}

#[test]
fn step_does_not_change_its_input() {
    let alive = [(1, 2), (2, 2), (3, 2)];
    let g = grid_with(5, 5, &alive);
    let _ = g.step();
    assert_eq!(alive_cells(&g), vec![(1, 2), (2, 2), (3, 2)]);
}

#[test]
fn isolated_cells_die() {
    let lone = grid_with(5, 5, &[(2, 2)]);
    assert_eq!(alive_cells(&lone.step()), Vec::<(i64, i64)>::new());
    let pair = grid_with(5, 5, &[(2, 2), (3, 2)]);
    assert_eq!(alive_cells(&pair.step()), Vec::<(i64, i64)>::new());
}

#[test]
fn three_neighbors_give_life() {
    // dead centre with three living neighbours is born
    let g = grid_with(3, 3, &[(0, 0), (2, 0), (1, 2)]);
    assert_eq!(g.living_neighbors(1, 1), Ok(3));
    assert_eq!(g.step().get(1, 1), Ok(true));
    // living centre with three living neighbours survives
    let h = grid_with(3, 3, &[(0, 0), (2, 0), (1, 2), (1, 1)]);
    assert_eq!(h.living_neighbors(1, 1), Ok(3));
    assert_eq!(h.step().get(1, 1), Ok(true));
}

#[test]
fn two_neighbors_keep_state() {
    let alive = grid_with(3, 3, &[(0, 0), (2, 2), (1, 1)]);
    assert_eq!(alive.step().get(1, 1), Ok(true));
    let dead = grid_with(3, 3, &[(0, 0), (2, 2)]);
    assert_eq!(dead.step().get(1, 1), Ok(false));
}

#[test]
fn crowded_cells_die() {
    let plus = [(1, 0), (0, 1), (2, 1), (1, 2)];
    let dead_centre = grid_with(3, 3, &plus);
    assert_eq!(dead_centre.living_neighbors(1, 1), Ok(4));
    assert_eq!(dead_centre.step().get(1, 1), Ok(false));
    let mut with_centre = plus.to_vec();
    with_centre.push((1, 1));
    let live_centre = grid_with(3, 3, &with_centre);
    assert_eq!(live_centre.step().get(1, 1), Ok(false));
    let full = grid_with(3, 3, &[(0, 0), (1, 0), (2, 0), (0, 1), (1, 1), (2, 1), (0, 2), (1, 2), (2, 2)]);
    assert_eq!(full.living_neighbors(1, 1), Ok(8));
    assert_eq!(full.step().get(1, 1), Ok(false));
}

#[test]
fn boundary_cells_have_fewer_candidates() {
    let full = Grid::create(3, 3, |_, _| true).unwrap();
    assert_eq!(full.living_neighbors(0, 0), Ok(3));
    assert_eq!(full.living_neighbors(2, 2), Ok(3));
    assert_eq!(full.living_neighbors(1, 0), Ok(5));
    assert_eq!(full.living_neighbors(0, 1), Ok(5));
    assert_eq!(full.living_neighbors(1, 1), Ok(8));
    assert_eq!(full.living_neighbors(3, 1), Err(GridError::OutOfBounds));
    assert_eq!(full.living_neighbors(1, -1), Err(GridError::OutOfBounds));
    // corners survive (3 neighbours), edges and centre die (5 and 8)
    assert_eq!(alive_cells(&full.step()), vec![(0, 0), (0, 2), (2, 0), (2, 2)]);
}

#[test]
fn no_wraparound_at_edges() {
    // a bar along the left edge would feed the right edge on a torus
    let g = grid_with(4, 4, &[(0, 0), (0, 1), (0, 2)]);
    let next = g.step();
    assert_eq!(alive_cells(&next), vec![(0, 1), (1, 1)]);
}

#[test]
fn block_is_a_still_life() {
    let alive = [(1, 1), (1, 2), (2, 1), (2, 2)];
    let g = grid_with(4, 4, &alive);
    let next = g.step();
    assert_eq!(alive_cells(&next), vec![(1, 1), (1, 2), (2, 1), (2, 2)]);
    assert_eq!(alive_cells(&next.step()), vec![(1, 1), (1, 2), (2, 1), (2, 2)]);
}

#[test]
fn blinker_oscillates_with_period_two() {
    let g = grid_with(5, 5, &[(1, 2), (2, 2), (3, 2)]);
    let once = g.step();
    assert_eq!(alive_cells(&once), vec![(2, 1), (2, 2), (2, 3)]);
    let twice = once.step();
    assert_eq!(alive_cells(&twice), vec![(1, 2), (2, 2), (3, 2)]);
}

#[test]
fn empty_grid_stays_empty() {
    let mut g = Grid::create(6, 4, |_, _| false).unwrap();
    for _ in 0..10 {
        g = g.step();
        assert_eq!(alive_cells(&g), Vec::<(i64, i64)>::new());
        assert_eq!(g.dimensions(), (6, 4));
    }
}

#[test]
fn rule_table() {
    for n in 0u8..=8 {
        assert_eq!(next_state(true, n), n == 2 || n == 3, "alive with {}", n);
        assert_eq!(next_state(false, n), n == 3, "dead with {}", n);
    }
}

#[test]
fn random_grid_has_requested_dimensions() {
    let g = Grid::random(16, 9).unwrap();
    assert_eq!(g.dimensions(), (16, 9));
    assert_eq!(g.step().dimensions(), (16, 9));
    assert!(matches!(Grid::random(0, 9), Err(GridError::InvalidDimension)));
    assert!(matches!(Grid::random(9, -3), Err(GridError::InvalidDimension)));
}

#[test]
fn random_grid_draws_both_states() {
    let g = Grid::random(40, 40).unwrap();
    let alive = alive_cells(&g).len();
    assert!(alive > 0 && alive < 1600, "alive cells: {}", alive);
}
