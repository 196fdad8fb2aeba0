use vstd::prelude::*;

verus! {

/// Errors reported by grid construction and coordinate accessors.
#[derive(Debug, Clone, Copy, PartialEq, Eq, Structural)]
pub enum GridError {
    /// A width or height that is not strictly positive.
    InvalidDimension,
    /// A coordinate outside `[0, width) x [0, height)`.
    OutOfBounds,
}

/// Mathematical picture of a grid: its dimensions and the set of living cells.
pub ghost struct GridModel {
    pub width: int,
    pub height: int,
    pub alive: Set<(int, int)>,
}

/// `(x, y)` lies inside a `width` x `height` grid.
pub open spec fn in_bounds(width: int, height: int, x: int, y: int) -> bool {
    0 <= x < width && 0 <= y < height
}

impl GridModel {
    /// Positive dimensions, and only cells inside the grid are alive.
    pub open spec fn wf(self) -> bool {
        &&& self.width > 0
        &&& self.height > 0
        &&& forall|p: (int, int)| #[trigger]
            self.alive.contains(p) ==> in_bounds(self.width, self.height, p.0, p.1)
    }

    /// The cell `(x, y)` is inside the grid and alive.
    pub open spec fn is_alive(self, x: int, y: int) -> bool {
        in_bounds(self.width, self.height, x, y) && self.alive.contains((x, y))
    }
}

/// A `width` x `height` grid of cells, stored row by row.
pub struct Grid {
    width: usize,
    height: usize,
    cells: Vec<bool>,
}

/// Row-major position of `(x, y)` in a grid of the given width.
pub open spec fn cell_index(width: int, x: int, y: int) -> int {
    y * width + x
}

/// Every cell of a `width` x `height` grid has a distinct row-major index
/// below `width * height`, and the indices of a row follow one another.
pub proof fn lemma_cell_index(width: int, height: int, x: int, y: int)
    requires
        in_bounds(width, height, x, y),
    ensures
        0 <= cell_index(width, x, y) < width * height,
        y * width <= cell_index(width, x, y) < (y + 1) * width,
        (y + 1) * width <= width * height,
{
    assert(0 <= y * width) by (nonlinear_arith)
        requires
            0 <= y,
            0 < width,
    ;
    assert((y + 1) * width <= width * height) by (nonlinear_arith)
        requires
            y + 1 <= height,
            0 < width,
    ;
    assert((y + 1) * width == y * width + width) by (nonlinear_arith);
}

impl View for Grid {
    type V = GridModel;

    closed spec fn view(&self) -> GridModel {
        GridModel {
            width: self.width as int,
            height: self.height as int,
            alive: Set::new(
                |p: (int, int)|
                    in_bounds(self.width as int, self.height as int, p.0, p.1)
                        && self.cells@[cell_index(self.width as int, p.0, p.1)],
            ),
        }
    }
}

impl Grid {
    /// Internal consistency: positive dimensions that fit in an `i64`, and one
    /// stored state per cell.
    pub closed spec fn wf(&self) -> bool {
        &&& 0 < self.width <= i64::MAX
        &&& 0 < self.height <= i64::MAX
        &&& self.cells.len() == self.width * self.height
    }

    /// A well-formed grid has a well-formed model.
    pub proof fn lemma_wf_model(&self)
        requires
            self.wf(),
        ensures
            self@.wf(),
            self@.width <= i64::MAX,
            self@.height <= i64::MAX,
    {
    }

    /// Builds a `width` x `height` grid whose cell `(x, y)` is alive exactly
    /// when `init(x, y)` returns `true`; `init` is called once per cell.
    /// `InvalidDimension` when either dimension is not positive.
    pub fn create<F: Fn(i64, i64) -> bool>(width: i64, height: i64, init: F) -> (r: Result<
        Grid,
        GridError,
    >)
        requires
            width > 0 && height > 0 ==> width * height <= usize::MAX,
            forall|x: i64, y: i64|
                in_bounds(width as int, height as int, x as int, y as int) ==> #[trigger] init.requires(
                    (x, y),
                ),
        ensures
            width <= 0 || height <= 0 ==> r == Err::<Grid, GridError>(GridError::InvalidDimension),
            width > 0 && height > 0 ==> (r matches Ok(g) && {
                &&& g.wf()
                &&& g@.width == width
                &&& g@.height == height
                &&& forall|x: i64, y: i64|
                    in_bounds(width as int, height as int, x as int, y as int) ==> init.ensures(
                        (x, y),
                        #[trigger] g@.alive.contains((x as int, y as int)),
                    )
            }),
    {
        if width <= 0 || height <= 0 {
            return Err(GridError::InvalidDimension);
        }
        proof {
            assert(width <= width * height && height <= width * height) by (nonlinear_arith)
                requires
                    width > 0,
                    height > 0,
            ;
        }
        let w = width as usize;
        let h = height as usize;
        let mut cells: Vec<bool> = Vec::new();
        let mut y: usize = 0;
        while y < h
            invariant
                w == width,
                h == height,
                0 < w,
                w * h <= usize::MAX,
                y <= h,
                cells.len() == y * w,
                forall|x: i64, y: i64|
                    in_bounds(width as int, height as int, x as int, y as int) ==> #[trigger] init.requires(
                        (x, y),
                    ),
                forall|xx: i64, yy: i64|
                    0 <= xx < w && 0 <= yy < y ==> init.ensures(
                        (xx, yy),
                        #[trigger] cells@[cell_index(w as int, xx as int, yy as int)],
                    ),
            decreases h - y,
        {
            let mut x: usize = 0;
            while x < w
                invariant
                    w == width,
                    h == height,
                    0 < w,
                    w * h <= usize::MAX,
                    y < h,
                    x <= w,
                    cells.len() == y * w + x,
                    forall|x: i64, y: i64|
                        in_bounds(width as int, height as int, x as int, y as int)
                            ==> #[trigger] init.requires((x, y)),
                    forall|xx: i64, yy: i64|
                        0 <= xx < w && 0 <= yy < y ==> init.ensures(
                            (xx, yy),
                            #[trigger] cells@[cell_index(w as int, xx as int, yy as int)],
                        ),
                    forall|xx: i64|
                        0 <= xx < x ==> init.ensures(
                            (xx, y as i64),
                            #[trigger] cells@[cell_index(w as int, xx as int, y as int)],
                        ),
                decreases w - x,
            {
                let v = init(x as i64, y as i64);
                let ghost before = cells@;
                proof {
                    lemma_cell_index(w as int, h as int, x as int, y as int);
                }
                cells.push(v);
                proof {
                    assert forall|xx: i64, yy: i64| 0 <= xx < w && 0 <= yy < y implies init.ensures(
                        (xx, yy),
                        #[trigger] cells@[cell_index(w as int, xx as int, yy as int)],
                    ) by {
                        lemma_cell_index(w as int, h as int, xx as int, yy as int);
                        assert((yy + 1) * w <= y * w) by (nonlinear_arith)
                            requires
                                yy + 1 <= y,
                                0 < w,
                        ;
                        assert(cells@[cell_index(w as int, xx as int, yy as int)] == before[cell_index(
                            w as int,
                            xx as int,
                            yy as int,
                        )]);
                    }
                    assert forall|xx: i64| 0 <= xx < x + 1 implies init.ensures(
                        (xx, y as i64),
                        #[trigger] cells@[cell_index(w as int, xx as int, y as int)],
                    ) by {
                        if xx < x {
                            assert(cells@[cell_index(w as int, xx as int, y as int)] == before[cell_index(
                                w as int,
                                xx as int,
                                y as int,
                            )]);
                        }
                    }
                }
                x = x + 1;
            }
            proof {
                assert((y + 1) * w == y * w + w) by (nonlinear_arith);
            }
            y = y + 1;
        }
        proof {
            assert(w * h == h * w) by (nonlinear_arith);
        }
        let g = Grid::from_cells(w, h, cells);
        assert forall|x: i64, y: i64|
            in_bounds(width as int, height as int, x as int, y as int) implies init.ensures(
            (x, y),
            #[trigger] g@.alive.contains((x as int, y as int)),
        ) by {
            assert(init.ensures((x, y), cells@[cell_index(w as int, x as int, y as int)]));
        }
        Ok(g)
    }

    /// Builds a grid from its cells listed row by row.
    pub(crate) fn from_cells(width: usize, height: usize, cells: Vec<bool>) -> (r: Grid)
        requires
            0 < width <= i64::MAX,
            0 < height <= i64::MAX,
            cells.len() == width * height,
        ensures
            r.wf(),
            r@.width == width,
            r@.height == height,
            r@.alive == Set::new(
                |p: (int, int)|
                    in_bounds(width as int, height as int, p.0, p.1) && cells@[cell_index(
                        width as int,
                        p.0,
                        p.1,
                    )],
            ),
    {
        Grid { width, height, cells }
    }

    /// The grid's `(width, height)` as machine sizes.
    pub(crate) fn size(&self) -> (r: (usize, usize))
        requires
            self.wf(),
        ensures
            r.0 == self@.width,
            r.1 == self@.height,
            0 < r.0 <= i64::MAX,
            0 < r.1 <= i64::MAX,
            r.0 * r.1 <= usize::MAX,
    {
        (self.width, self.height)
    }

    /// State of an in-bounds cell.
    pub(crate) fn cell_at(&self, x: usize, y: usize) -> (r: bool)
        requires
            self.wf(),
            in_bounds(self@.width, self@.height, x as int, y as int),
        ensures
            r == self@.alive.contains((x as int, y as int)),
    {
        proof {
            lemma_cell_index(self.width as int, self.height as int, x as int, y as int);
        }
        self.cells[y * self.width + x]
    }

    /// Current alive state of `(x, y)`; `OutOfBounds` for a coordinate outside the grid.
    pub fn get(&self, x: i64, y: i64) -> (r: Result<bool, GridError>)
        requires
            self.wf(),
        ensures
            in_bounds(self@.width, self@.height, x as int, y as int) ==> r == Ok::<
                bool,
                GridError,
            >(self@.alive.contains((x as int, y as int))),
            !in_bounds(self@.width, self@.height, x as int, y as int) ==> r == Err::<
                bool,
                GridError,
            >(GridError::OutOfBounds),
    {
        if x < 0 || y < 0 || x >= self.width as i64 || y >= self.height as i64 {
            Err(GridError::OutOfBounds)
        } else {
            Ok(self.cell_at(x as usize, y as usize))
        }
    }

    /// The grid's `(width, height)`.
    pub fn dimensions(&self) -> (r: (i64, i64))
        requires
            self.wf(),
        ensures
            r.0 == self@.width,
            r.1 == self@.height,
    {
        (self.width as i64, self.height as i64)
    }
}

} // verus!
