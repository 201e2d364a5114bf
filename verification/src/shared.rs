//! What the two index variants share: the selector bit patterns and the
//! builder interface.

use vstd::prelude::*;

verus! {

/// Leading marker of the four north-hemisphere roots.
pub const BIT_MASK_N: u64 = 0b11;

/// Leading marker of the four south-hemisphere roots, shared by the
/// planar variant's roots.
pub const BIT_MASK_S: u64 = 0b10;

/// Quadrant selector of the child with its corner at the first vertex.
pub const BIT_MASK_0: u64 = 0b00;

/// Quadrant selector of the child with its corner at the second vertex.
pub const BIT_MASK_1: u64 = 0b01;

/// Quadrant selector of the child with its corner at the third vertex.
pub const BIT_MASK_2: u64 = 0b10;

/// Quadrant selector of the center child.
pub const BIT_MASK_3: u64 = 0b11;

/// Why a build request was refused.
#[derive(Clone, Copy, PartialEq, Eq, Structural, Debug)]
pub enum BuildError {
    /// The requested depth exceeds the deepest supported level, 25.
    DepthLimitExceeded,
}

/// A hierarchical triangular mesh index, fully materialized by one
/// recursive build pass.
pub trait HtmIndex: Sized {
    /// The forest is exactly the one the build pass produces for
    /// `max_depth`: every cell carries its path index, every interior
    /// cell has the four midpoint-subdivision children, and every leaf
    /// sits at the requested depth.
    spec fn built_to(&self, max_depth: u8) -> bool;

    /// Build the forest, refusing depths beyond the supported maximum.
    fn build(max_depth: u8) -> (r: Result<Self, BuildError>)
        ensures
            (max_depth <= 25) == r is Ok,
            r matches Ok(f) ==> f.built_to(max_depth),
    ;
}

} // verus!
