use crate::grid::{in_bounds, GridModel};
use crate::life::{generations, neighbor_count, next_generation};
use vstd::prelude::*;

verus! {

/// 1 when `(x, y)` lies inside a `width` x `height` grid, else 0.
pub open spec fn position_count(width: int, height: int, x: int, y: int) -> int {
    if in_bounds(width, height, x, y) {
        1
    } else {
        0
    }
}

/// Number of the eight Moore neighbour positions of `(x, y)` that lie inside
/// a `width` x `height` grid.
pub open spec fn candidate_count(width: int, height: int, x: int, y: int) -> int {
    position_count(width, height, x - 1, y - 1) + position_count(width, height, x, y - 1)
        + position_count(width, height, x + 1, y - 1) + position_count(width, height, x - 1, y)
        + position_count(width, height, x + 1, y) + position_count(width, height, x - 1, y + 1)
        + position_count(width, height, x, y + 1) + position_count(width, height, x + 1, y + 1)
}

/// The 2 x 2 square whose top-left cell is `(a, b)`.
pub open spec fn block(a: int, b: int) -> Set<(int, int)> {
    Set::new(|p: (int, int)| a <= p.0 <= a + 1 && b <= p.1 <= b + 1)
}

/// Three cells in a row centred on `(a, b)`.
pub open spec fn horizontal_bar(a: int, b: int) -> Set<(int, int)> {
    Set::new(|p: (int, int)| a - 1 <= p.0 <= a + 1 && p.1 == b)
}

/// Three cells in a column centred on `(a, b)`.
pub open spec fn vertical_bar(a: int, b: int) -> Set<(int, int)> {
    Set::new(|p: (int, int)| p.0 == a && b - 1 <= p.1 <= b + 1)
}

/// A step keeps the dimensions, and keeps every living cell inside them.
pub proof fn law_step_preserves_dimensions(m: GridModel)
    requires
        m.wf(),
    ensures
        next_generation(m).width == m.width,
        next_generation(m).height == m.height,
        next_generation(m).wf(),
{
}

/// The next generation depends on the dimensions and the cell states alone:
/// two grids that agree on them step to the same grid.
pub proof fn law_step_deterministic(a: GridModel, b: GridModel)
    requires
        a.wf(),
        b.wf(),
        a.width == b.width,
        a.height == b.height,
        a.alive == b.alive,
    ensures
        next_generation(a) == next_generation(b),
{
}

/// A cell with at most one living neighbour is dead in the next generation,
/// whatever its state now.
pub proof fn law_isolated_cell_dies(m: GridModel, x: int, y: int)
    requires
        m.wf(),
        in_bounds(m.width, m.height, x, y),
        neighbor_count(m, x, y) <= 1,
    ensures
        !next_generation(m).alive.contains((x, y)),
{
}

/// A cell with exactly three living neighbours is alive in the next
/// generation, whatever its state now.
pub proof fn law_three_neighbors_live(m: GridModel, x: int, y: int)
    requires
        m.wf(),
        in_bounds(m.width, m.height, x, y),
        neighbor_count(m, x, y) == 3,
    ensures
        next_generation(m).alive.contains((x, y)),
{
}

/// A cell with four or more living neighbours is dead in the next
/// generation: a living one dies of overcrowding, a dead one is not born.
pub proof fn law_crowded_cell_dies(m: GridModel, x: int, y: int)
    requires
        m.wf(),
        in_bounds(m.width, m.height, x, y),
        neighbor_count(m, x, y) >= 4,
    ensures
        !next_generation(m).alive.contains((x, y)),
{
}

/// A corner cell has at most three neighbour positions inside the grid, a
/// cell on an edge at most five, an interior cell exactly eight.
pub proof fn law_boundary_candidates(width: int, height: int, x: int, y: int)
    requires
        in_bounds(width, height, x, y),
    ensures
        candidate_count(width, height, x, y) <= 8,
        (x == 0 || x == width - 1) && (y == 0 || y == height - 1) ==> candidate_count(
            width,
            height,
            x,
            y,
        ) <= 3,
        (x == 0 || x == width - 1 || y == 0 || y == height - 1) ==> candidate_count(
            width,
            height,
            x,
            y,
        ) <= 5,
        0 < x < width - 1 && 0 < y < height - 1 ==> candidate_count(width, height, x, y) == 8,
{
}

/// Only neighbour positions inside the grid are counted: the living
/// neighbours of a cell never outnumber its candidate positions.
pub proof fn law_neighbors_within_candidates(m: GridModel, x: int, y: int)
    requires
        m.wf(),
        in_bounds(m.width, m.height, x, y),
    ensures
        0 <= neighbor_count(m, x, y) <= candidate_count(m.width, m.height, x, y),
{
}

/// A lone 2 x 2 block is a still life: a step leaves the grid unchanged.
pub proof fn law_block_still_life(m: GridModel, a: int, b: int)
    requires
        m.wf(),
        0 <= a,
        a + 1 < m.width,
        0 <= b,
        b + 1 < m.height,
        m.alive == block(a, b),
    ensures
        next_generation(m) == m,
{
    assert(next_generation(m).alive =~= m.alive);
}

/// A lone bar of three cells is an oscillator of period two: a horizontal bar
/// turns into the vertical bar through its centre, which turns back.
pub proof fn law_blinker(m: GridModel, a: int, b: int)
    requires
        m.wf(),
        1 <= a,
        a + 1 < m.width,
        1 <= b,
        b + 1 < m.height,
        m.alive == horizontal_bar(a, b),
    ensures
        next_generation(m).alive == vertical_bar(a, b),
        next_generation(next_generation(m)) == m,
{
    let n = next_generation(m);
    assert(n.alive =~= vertical_bar(a, b));
    assert(next_generation(n).alive =~= m.alive);
}

/// A grid with no living cell stays empty for any number of steps.
pub proof fn law_extinction(m: GridModel, steps: nat)
    requires
        m.wf(),
        m.alive == Set::<(int, int)>::empty(),
    ensures
        generations(m, steps) == m,
    decreases steps,
{
    if steps > 0 {
        law_extinction(m, (steps - 1) as nat);
        assert(next_generation(m).alive =~= m.alive);
    }
}

} // verus!
