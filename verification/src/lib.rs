use vstd::prelude::*;

mod bits;
mod model;
mod universe;

pub use model::cell_index;
pub use model::live_neighbors;
pub use model::next_cell;
pub use model::next_gen;
pub use model::stamp;
pub use model::covers;
pub use model::points_view;
pub use model::glider_points;
pub use model::pulsar_points;
pub use model::fixed_pattern;
pub use model::glyph;
pub use model::render_spec;
pub use model::lemma_live_neighbors_range;
pub use model::lemma_toroidal_wrap;
pub use model::lemma_stamp_idempotent;
pub use universe::lemma_tick_deterministic;
pub use model::lemma_render_ordering;
pub use bits::bits_of;
pub use universe::Universe;

verus! {

/// A fault that a grid operation reports to its caller.
#[derive(Clone, Copy, Debug, PartialEq, Eq, Structural)]
pub enum GridError {
    /// A width or height of zero was asked for; such a grid would make the
    /// toroidal wraparound arithmetic meaningless, so it is rejected at the
    /// construction or resize boundary.
    ZeroDimension,
}

} // verus!
