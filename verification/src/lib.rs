//! The core of a first-person escape-room game: a room graph with spatial
//! containment lookup, a key/lock registry whose pickups unlock doors, a
//! player state machine with movement integration and boundary clamping,
//! and the world composition that drives them each frame.
//!
//! World coordinates are integer units throughout, so every containment,
//! proximity and collision test is exact. Rendering, asset loading, audio
//! and windowing are external collaborators: the library only stores opaque
//! asset handles and decides what each entity should display.

pub mod assets;
pub mod desc;
pub mod geom;
pub mod map;
pub mod player;
pub mod world;

use vstd::prelude::*;

verus! {

/// Largest magnitude of a world coordinate the library supports; keeps all
/// squared-distance arithmetic inside `i64`.
pub const COORD_LIMIT: i64 = 500_000_000;

/// True when `v` lies within the supported coordinate range.
pub open spec fn in_coord_range(v: int) -> bool {
    -COORD_LIMIT <= v <= COORD_LIMIT
}

/// Clamp `v` into `[lo, hi]`.
pub open spec fn spec_clamp(v: int, lo: int, hi: int) -> int {
    if v < lo {
        lo
    } else if v > hi {
        hi
    } else {
        v
    }
}

/// Clamp `v` into `[lo, hi]`.
pub fn clamp_i64(v: i64, lo: i64, hi: i64) -> (r: i64)
    requires
        lo <= hi,
    ensures
        r == spec_clamp(v as int, lo as int, hi as int),
        lo <= r <= hi,
{
    if v < lo {
        lo
    } else if v > hi {
        hi
    } else {
        v
    }
}

} // verus!
