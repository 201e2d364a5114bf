//! Exact coordinates for the mesh.
//!
//! Every coordinate is a dyadic rational held as an integer scaled by
//! [`SCALE`]: a stored value `c` stands for the real coordinate
//! `c / SCALE`.  The base vertices sit at `0` or `±SCALE`, and each
//! subdivision level halves sums of coordinates that are still even, so
//! as long as enough factors of two remain, every midpoint is exact.

use vstd::prelude::*;

verus! {

/// The denominator of the coordinate representation: `2^24`, one factor
/// of two for each subdivision step below the deepest supported level.
pub const SCALE: i64 = 0x1000000;

/// A planar point, scaled by [`SCALE`].
#[derive(Clone, Copy, PartialEq, Eq, Structural, Debug)]
pub struct Vec2i {
    pub x: i64,
    pub y: i64,
}

/// A spatial point, scaled by [`SCALE`].
#[derive(Clone, Copy, PartialEq, Eq, Structural, Debug)]
pub struct Vec3i {
    pub x: i64,
    pub y: i64,
    pub z: i64,
}

/// A coordinate within the diamond / octahedron bounding box.
pub open spec fn coord_in_range(c: i64) -> bool {
    -SCALE <= c <= SCALE
}

/// `c` can be halved exactly `k` times.
pub open spec fn halves_exactly(c: int, k: nat) -> bool
    decreases k,
{
    k == 0 || (c % 2 == 0 && halves_exactly(c / 2, (k - 1) as nat))
}

/// Exact halvability survives addition.
pub proof fn lemma_halves_add(a: int, b: int, k: nat)
    requires
        halves_exactly(a, k),
        halves_exactly(b, k),
    ensures
        halves_exactly(a + b, k),
    decreases k,
{
    if k > 0 {
        lemma_halves_add(a / 2, b / 2, (k - 1) as nat);
        assert((a + b) / 2 == a / 2 + b / 2);
    }
}

/// Exact halvability for more steps gives it for fewer.
pub proof fn lemma_halves_weaken(c: int, k: nat, j: nat)
    requires
        halves_exactly(c, k),
        j <= k,
    ensures
        halves_exactly(c, j),
    decreases k,
{
    if j > 0 {
        lemma_halves_weaken(c / 2, (k - 1) as nat, (j - 1) as nat);
    }
}

/// The base coordinates `0` and `±SCALE` can be halved through every
/// supported level.
pub proof fn lemma_halves_base()
    ensures
        halves_exactly(0, 24),
        halves_exactly(SCALE as int, 24),
        halves_exactly(-SCALE as int, 24),
{
    reveal_with_fuel(halves_exactly, 26);
}

/// The base coordinates can be halved any number of times up to the
/// deepest supported level.
pub proof fn lemma_base_halves()
    ensures
        forall|k: nat| k <= 24 ==> #[trigger] halves_exactly(0, k),
        forall|k: nat| k <= 24 ==> #[trigger] halves_exactly(SCALE as int, k),
        forall|k: nat| k <= 24 ==> #[trigger] halves_exactly(-SCALE as int, k),
{
    lemma_halves_base();
    assert forall|k: nat| k <= 24 implies #[trigger] halves_exactly(0, k) by {
        lemma_halves_weaken(0, 24, k);
    }
    assert forall|k: nat| k <= 24 implies #[trigger] halves_exactly(SCALE as int, k) by {
        lemma_halves_weaken(SCALE as int, 24, k);
    }
    assert forall|k: nat| k <= 24 implies #[trigger] halves_exactly(-SCALE as int, k) by {
        lemma_halves_weaken(-SCALE as int, 24, k);
    }
}

/// `m` is the exact midpoint of `p` and `q`.
pub open spec fn vec3_is_mid(m: Vec3i, p: Vec3i, q: Vec3i) -> bool {
    &&& 2 * m.x == p.x + q.x
    &&& 2 * m.y == p.y + q.y
    &&& 2 * m.z == p.z + q.z
}

/// `m` is the exact midpoint of `p` and `q`.
pub open spec fn vec2_is_mid(m: Vec2i, p: Vec2i, q: Vec2i) -> bool {
    &&& 2 * m.x == p.x + q.x
    &&& 2 * m.y == p.y + q.y
}

/// Every coordinate of `v` can be halved exactly `k` times.
pub open spec fn vec3_halves(v: Vec3i, k: nat) -> bool {
    halves_exactly(v.x as int, k) && halves_exactly(v.y as int, k) && halves_exactly(v.z as int, k)
}

/// Every coordinate of `v` can be halved exactly `k` times.
pub open spec fn vec2_halves(v: Vec2i, k: nat) -> bool {
    halves_exactly(v.x as int, k) && halves_exactly(v.y as int, k)
}

/// The midpoint of two coordinates with `k` exact halvings left has
/// `k - 1` of them left.
pub proof fn lemma_mid_halves(m: int, a: int, b: int, k: nat)
    requires
        halves_exactly(a, k),
        halves_exactly(b, k),
        k >= 1,
        2 * m == a + b,
    ensures
        halves_exactly(m, (k - 1) as nat),
{
    lemma_halves_add(a, b, k);
    assert(m == (a + b) / 2);
}

/// Midpoint of two coordinates whose sum is even; exact, so twice the
/// result gives the sum back.
pub fn mid(a: i64, b: i64) -> (m: i64)
    requires
        coord_in_range(a),
        coord_in_range(b),
        (a + b) % 2 == 0,
    ensures
        2 * m == a + b,
        coord_in_range(m),
{
    (a + b) / 2
}

} // verus!
