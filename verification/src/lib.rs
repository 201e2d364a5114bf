//! A hierarchical triangular mesh (HTM) index.
//!
//! The mesh recursively subdivides a set of base triangles — four covering a
//! planar diamond, or the eight faces of an octahedron inscribed in the unit
//! sphere — down to a requested depth.  Every cell carries a bit-packed
//! 64-bit index that encodes the path from its base triangle, and the
//! spherical variant can locate the deepest cell pierced by a ray from the
//! sphere's center.
//!
//! All coordinates are dyadic rationals held as integers scaled by
//! [`geometry::SCALE`], so edge-midpoint subdivision and the ray tests are
//! exact.

use vstd::prelude::*;

pub mod codec;
pub mod geometry;
pub mod index_2d;
pub mod index_3d;
pub mod raycast;
pub mod shared;

pub use index_2d::HtmIndex2d;
pub use index_2d::Triangle2d;
pub use index_3d::HtmIndex3d;
pub use index_3d::Trixel3d;
pub use shared::BuildError;
pub use shared::HtmIndex;

verus! {

/// Depth of a hierarchical index: the number of 2-bit quadrant selectors
/// that follow the leading marker bits, `floor(log4(index))`.
///
/// Only indices produced by a builder carry a meaning; they are nonzero
/// because the marker bits come before every quadrant selector, so the
/// argument is required to be nonzero here.
pub fn depth(index: u64) -> (d: u8)
    requires
        index >= 1,
    ensures
        d == codec::floor_log4(index as int),
{
    let mut i: u64 = index;
    let mut d: u8 = 0;
    proof {
        codec::lemma_floor_log4_bounded(index as int);
    }
    while i >= 4
        invariant
            1 <= i,
            codec::floor_log4(index as int) == d + codec::floor_log4(i as int),
            d <= codec::floor_log4(index as int),
            codec::floor_log4(index as int) <= 31,
        decreases i,
    {
        i = i / 4;
        d = d + 1;
    }
    d
}

} // verus!
