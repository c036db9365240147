//! The draw stage's point-size computation.
//!
//! The draw stage renders the current particle buffer as points; each point's
//! pixel size derives from the fixed world-space radius and the surface's
//! pixel dimensions: `point_size_px = radius / min(1 / width, 1 / height)`,
//! which equals `radius * max(width, height)`.  The result here is in
//! fixed-point subunit-pixels: divide by `SCALE` for whole pixels.  The stage
//! never mutates simulation state; rendering itself is left to the caller.

use vstd::prelude::*;

use crate::config::{MAX_SURFACE, RADIUS};

verus! {

/// The point size, in subunit-pixels, for a surface of `w x h` pixels:
/// `RADIUS * max(w, h)`.
pub open spec fn spec_point_size(w: int, h: int) -> int {
    RADIUS * (if w >= h {
        w
    } else {
        h
    })
}

/// Computes the draw stage's point size for the given surface dimensions.
pub fn point_size(width: u32, height: u32) -> (ps: i64)
    requires
        1 <= width <= MAX_SURFACE,
        1 <= height <= MAX_SURFACE,
    ensures
        ps == spec_point_size(width as int, height as int),
        0 < ps,
{
    let m: i64 = if width >= height {
        width as i64
    } else {
        height as i64
    };
    RADIUS * m
}

/// The point size scales linearly with the surface: doubling both surface
/// dimensions doubles it, so halving a surface (say from 800 x 600 down to
/// 400 x 300) halves the computed point size while the world-space radius
/// stays fixed.  Both the radius and `min(1 / width, 1 / height)` are
/// unchanged by anything else, so a resize touches nothing but this value.
pub proof fn lemma_point_size_scales_with_surface(w: int, h: int)
    requires
        1 <= w,
        1 <= h,
    ensures
        spec_point_size(2 * w, 2 * h) == 2 * spec_point_size(w, h),
{
}

} // verus!
