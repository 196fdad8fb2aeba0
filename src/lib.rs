//! Conway's Game of Life on a finite, non-wrapping rectangular grid.
//!
//! A [`Grid`] owns the alive/dead state of every cell; [`Grid::step`] computes
//! the next generation from a complete snapshot of the current one.
mod grid;
mod laws;
mod life;
mod seed;

pub use grid::{in_bounds, Grid, GridError, GridModel};
pub use life::{
    alive_count, generations, neighbor_count, next_alive, next_generation, next_state, rule,
};
pub use laws::{
    block, candidate_count, horizontal_bar, law_block_still_life, law_blinker,
    law_boundary_candidates, law_crowded_cell_dies, law_extinction, law_isolated_cell_dies,
    law_neighbors_within_candidates, law_step_deterministic, law_step_preserves_dimensions,
    law_three_neighbors_live, position_count, vertical_bar,
};
