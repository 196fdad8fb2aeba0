use crate::grid::{Grid, GridError};
use vstd::prelude::*;

verus! {

/// Relies on `rand::random::<bool>`: one draw from the thread-local generator,
/// `true` and `false` equally likely. Nothing is known of the value drawn.
#[verifier::external_body]
fn coin_flip() -> (r: bool) {
    rand::random::<bool>()
}

impl Grid {
    /// A `width` x `height` grid whose cells are drawn alive or dead
    /// independently, each alive with probability one half.
    /// `InvalidDimension` when either dimension is not positive.
    pub fn random(width: i64, height: i64) -> (r: Result<Grid, GridError>)
        requires
            width > 0 && height > 0 ==> width * height <= usize::MAX,
        ensures
            width <= 0 || height <= 0 ==> r == Err::<Grid, GridError>(GridError::InvalidDimension),
            width > 0 && height > 0 ==> (r matches Ok(g) && {
                &&& g.wf()
                &&& g@.width == width
                &&& g@.height == height
            }),
    {
        Grid::create(width, height, |_x: i64, _y: i64| coin_flip())
    }
}

} // verus!
