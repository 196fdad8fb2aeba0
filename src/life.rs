use crate::grid::{cell_index, in_bounds, lemma_cell_index, Grid, GridError, GridModel};
use vstd::prelude::*;

verus! {

/// 1 when `(x, y)` is inside the grid and alive, else 0.
pub open spec fn alive_count(m: GridModel, x: int, y: int) -> int {
    if m.is_alive(x, y) {
        1
    } else {
        0
    }
}

/// Number of living cells among the eight Moore neighbours of `(x, y)`;
/// positions outside the grid are left out of the count.
pub open spec fn neighbor_count(m: GridModel, x: int, y: int) -> int {
    alive_count(m, x - 1, y - 1) + alive_count(m, x, y - 1) + alive_count(m, x + 1, y - 1)
        + alive_count(m, x - 1, y) + alive_count(m, x + 1, y)
        + alive_count(m, x - 1, y + 1) + alive_count(m, x, y + 1) + alive_count(m, x + 1, y + 1)
}

/// The birth/survival rule: a dead cell with three living neighbours is born,
/// a living one with two or three survives, every other cell is dead.
pub open spec fn rule(alive: bool, neighbors: int) -> bool {
    (!alive && neighbors == 3) || (alive && (neighbors == 2 || neighbors == 3))
}

/// State of `(x, y)` in the generation after `m`.
pub open spec fn next_alive(m: GridModel, x: int, y: int) -> bool {
    rule(m.alive.contains((x, y)), neighbor_count(m, x, y))
}

/// The generation after `m`: every cell updated at once from `m` alone.
pub open spec fn next_generation(m: GridModel) -> GridModel {
    GridModel {
        width: m.width,
        height: m.height,
        alive: Set::new(
            |p: (int, int)| in_bounds(m.width, m.height, p.0, p.1) && next_alive(m, p.0, p.1),
        ),
    }
}

/// The generation `n` steps after `m`.
pub open spec fn generations(m: GridModel, n: nat) -> GridModel
    decreases n,
{
    if n == 0 {
        m
    } else {
        next_generation(generations(m, (n - 1) as nat))
    }
}

/// Next state of a cell that is `alive` (or not) and has `living_neighbors`
/// living neighbours.
pub fn next_state(alive: bool, living_neighbors: u8) -> (r: bool)
    ensures
        r == rule(alive, living_neighbors as int),
{
    if alive {
        living_neighbors == 2 || living_neighbors == 3
    } else {
        living_neighbors == 3
    }
}

impl Grid {
    /// Living neighbours of an in-bounds cell.
    fn count_at(&self, x: usize, y: usize) -> (r: u8)
        requires
            self.wf(),
            in_bounds(self@.width, self@.height, x as int, y as int),
        ensures
            r as int == neighbor_count(self@, x as int, y as int),
    {
        let (w, h) = self.size();
        let left = x > 0;
        let right = x + 1 < w;
        let up = y > 0;
        let down = y + 1 < h;
        let mut n: u8 = 0;
        if up && left && self.cell_at(x - 1, y - 1) {
            n = n + 1;
        }
        if up && self.cell_at(x, y - 1) {
            n = n + 1;
        }
        if up && right && self.cell_at(x + 1, y - 1) {
            n = n + 1;
        }
        if left && self.cell_at(x - 1, y) {
            n = n + 1;
        }
        if right && self.cell_at(x + 1, y) {
            n = n + 1;
        }
        if down && left && self.cell_at(x - 1, y + 1) {
            n = n + 1;
        }
        if down && self.cell_at(x, y + 1) {
            n = n + 1;
        }
        if down && right && self.cell_at(x + 1, y + 1) {
            n = n + 1;
        }
        n
    }

    /// Number of living Moore neighbours of `(x, y)`; `OutOfBounds` for a
    /// coordinate outside the grid.
    pub fn living_neighbors(&self, x: i64, y: i64) -> (r: Result<u8, GridError>)
        requires
            self.wf(),
        ensures
            in_bounds(self@.width, self@.height, x as int, y as int) ==> (r matches Ok(n) && n
                == neighbor_count(self@, x as int, y as int)),
            !in_bounds(self@.width, self@.height, x as int, y as int) ==> r == Err::<
                u8,
                GridError,
            >(GridError::OutOfBounds),
    {
        let (w, h) = self.size();
        if x < 0 || y < 0 || x >= w as i64 || y >= h as i64 {
            Err(GridError::OutOfBounds)
        } else {
            Ok(self.count_at(x as usize, y as usize))
        }
    }

    /// The next generation: each cell's new state is computed from this grid
    /// alone, and the result is a new grid of the same dimensions.
    pub fn step(&self) -> (r: Grid)
        requires
            self.wf(),
        ensures
            r.wf(),
            r@ == next_generation(self@),
    {
        let (w, h) = self.size();
        let ghost m = self@;
        let mut cells: Vec<bool> = Vec::new();
        let mut y: usize = 0;
        while y < h
            invariant
                self.wf(),
                m == self@,
                w == m.width,
                h == m.height,
                w * h <= usize::MAX,
                y <= h,
                cells.len() == y * w,
                forall|xx: int, yy: int|
                    0 <= xx < w && 0 <= yy < y ==> #[trigger] cells@[cell_index(w as int, xx, yy)]
                        == next_alive(m, xx, yy),
            decreases h - y,
        {
            let mut x: usize = 0;
            while x < w
                invariant
                    self.wf(),
                    m == self@,
                    w == m.width,
                    h == m.height,
                    w * h <= usize::MAX,
                    y < h,
                    x <= w,
                    cells.len() == y * w + x,
                    forall|xx: int, yy: int|
                        0 <= xx < w && 0 <= yy < y ==> #[trigger] cells@[cell_index(
                            w as int,
                            xx,
                            yy,
                        )] == next_alive(m, xx, yy),
                    forall|xx: int|
                        0 <= xx < x ==> #[trigger] cells@[cell_index(w as int, xx, y as int)]
                            == next_alive(m, xx, y as int),
                decreases w - x,
            {
                let v = next_state(self.cell_at(x, y), self.count_at(x, y));
                let ghost before = cells@;
                proof {
                    lemma_cell_index(w as int, h as int, x as int, y as int);
                }
                cells.push(v);
                proof {
                    assert forall|xx: int, yy: int| 0 <= xx < w && 0 <= yy < y implies #[trigger] cells@[cell_index(
                        w as int,
                        xx,
                        yy,
                    )] == next_alive(m, xx, yy) by {
                        lemma_cell_index(w as int, h as int, xx, yy);
                        assert((yy + 1) * w <= y * w) by (nonlinear_arith)
                            requires
                                yy + 1 <= y,
                                0 < w,
                        ;
                        assert(cells@[cell_index(w as int, xx, yy)] == before[cell_index(w as int, xx, yy)]);
                    }
                    assert forall|xx: int| 0 <= xx < x + 1 implies #[trigger] cells@[cell_index(
                        w as int,
                        xx,
                        y as int,
                    )] == next_alive(m, xx, y as int) by {
                        if xx < x {
                            assert(cells@[cell_index(w as int, xx, y as int)] == before[cell_index(w as int, xx, y as int)]);
                        }
                    }
                }
                x = x + 1;
            }
            proof {
                assert((y + 1) * w == y * w + w) by (nonlinear_arith);
            }
            y = y + 1;
        }
        proof {
            assert(w * h == h * w) by (nonlinear_arith);
        }
        let r = Grid::from_cells(w, h, cells);
        proof {
            assert(r@.alive =~= next_generation(m).alive);
        }
        r
    }
}

} // verus!
