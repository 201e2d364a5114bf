//! The bit-packing scheme of hierarchical cell indices.
//!
//! An index is a 2-bit base marker followed by one 2-bit quadrant selector
//! per subdivision level, most significant level first.  Appending a
//! selector `k` to an index `i` yields `(i << 2) | k`, which equals
//! `4 * i + k`; the depth of an index is therefore `floor(log4(index))`.

use vstd::prelude::*;

verus! {

/// `4^k`.
pub open spec fn pow4(k: nat) -> nat
    decreases k,
{
    if k == 0 {
        1
    } else {
        4 * pow4((k - 1) as nat)
    }
}

/// `floor(log4(n))` for `n >= 1`; `0` for smaller arguments.
pub open spec fn floor_log4(n: int) -> nat
    decreases n,
{
    if n < 4 {
        0
    } else {
        1 + floor_log4(n / 4)
    }
}

/// The index of child `k` of a cell with index `i`: two selector bits are
/// appended at the low end.
pub open spec fn child_index(i: int, k: int) -> int {
    4 * i + k
}

/// Appending selector bits with a shift-and-or is the same as the
/// arithmetic `4 * i + k`, for any index that leaves the top two bits
/// clear.
pub proof fn lemma_child_index_bits(i: u64, k: u64)
    requires
        i < 0x4000000000000000,
        k < 4,
    ensures
        ((i << 2) | k) == child_index(i as int, k as int),
{
    assert(((i << 2) | k) == 4 * i + k) by (bit_vector)
        requires
            i < 0x4000000000000000,
            k < 4,
    ;
}

/// `4^(d+1) == 4 * 4^d`, and the smallest powers written out.
pub proof fn lemma_pow4_step(d: nat)
    ensures
        pow4(d + 1) == 4 * pow4(d),
        pow4(0) == 1,
        pow4(1) == 4,
{
    assert(pow4(1) == 4 * pow4(0));
}

/// An index below `4 * 4^d` with `d <= 25` leaves the top two bits of a
/// 64-bit word clear, so two selector bits can be appended.
pub proof fn lemma_index_fits(index: u64, d: u8)
    requires
        d <= 25,
        index < 4 * pow4(d as nat),
    ensures
        index < 0x4000000000000000,
{
    if (d as nat) < 25 {
        lemma_pow4_increases(d as nat, 25);
    }
    lemma_pow4_26();
}

/// `pow4` is positive.
pub proof fn lemma_pow4_pos(k: nat)
    ensures
        pow4(k) >= 1,
    decreases k,
{
    if k > 0 {
        lemma_pow4_pos((k - 1) as nat);
    }
}

/// `pow4` is strictly increasing.
pub proof fn lemma_pow4_increases(j: nat, k: nat)
    requires
        j < k,
    ensures
        pow4(j) < pow4(k),
    decreases k,
{
    lemma_pow4_pos(j);
    if j + 1 < k {
        lemma_pow4_increases(j, (k - 1) as nat);
    }
}

/// `floor_log4` is characterized by the enclosing powers of four.
pub proof fn lemma_floor_log4_range(n: int, k: nat)
    requires
        pow4(k) <= n < pow4(k + 1),
    ensures
        floor_log4(n) == k,
    decreases k,
{
    lemma_pow4_pos(k);
    if k == 0 {
    } else {
        assert(pow4(k) == 4 * pow4((k - 1) as nat));
        assert(pow4(k + 1) == 4 * pow4(k));
        lemma_floor_log4_range(n / 4, (k - 1) as nat);
    }
}

/// `4^32` written out, so that 64-bit bounds can meet `pow4`.
pub proof fn lemma_pow4_32()
    ensures
        pow4(32) == 0x10000000000000000,
{
    reveal_with_fuel(pow4, 33);
}

/// `4^26` written out: every child index of the deepest supported
/// level fits well inside 64 bits.
pub proof fn lemma_pow4_26()
    ensures
        pow4(26) == 0x10000000000000,
{
    reveal_with_fuel(pow4, 27);
}

/// No 64-bit value has more than 31 levels.
pub proof fn lemma_floor_log4_bounded(n: int)
    requires
        n < 0x10000000000000000,
    ensures
        floor_log4(n) <= 31,
{
    lemma_pow4_32();
    lemma_floor_log4_below(n, 32);
}

/// `n < 4^k` bounds the logarithm below `k`.
pub proof fn lemma_floor_log4_below(n: int, k: nat)
    requires
        k >= 1,
        n < pow4(k),
    ensures
        floor_log4(n) < k,
    decreases k,
{
    if n >= 4 {
        assert(pow4(k) == 4 * pow4((k - 1) as nat));
        lemma_floor_log4_below(n / 4, (k - 1) as nat);
    } else {
        lemma_pow4_pos((k - 1) as nat);
    }
}

/// Entries of a root-to-cell path: one quadrant selector per level.
pub open spec fn valid_path(p: Seq<int>) -> bool {
    forall|j: int| 0 <= j < p.len() ==> 0 <= #[trigger] p[j] < 4
}

/// The index reached from `i` by appending the selectors of `p`, most
/// significant level first.
pub open spec fn path_value(i: int, p: Seq<int>) -> int
    decreases p.len(),
{
    if p.len() == 0 {
        i
    } else {
        path_value(4 * i + p[0], p.subrange(1, p.len() as int))
    }
}

/// Two equal path values with selectors in range come from one root
/// index and one path: appending selector bits never collides.
pub proof fn lemma_path_value_injective(i1: int, p1: Seq<int>, i2: int, p2: Seq<int>)
    requires
        valid_path(p1),
        valid_path(p2),
        p1.len() == p2.len(),
        path_value(i1, p1) == path_value(i2, p2),
    ensures
        i1 == i2,
        p1 =~= p2,
    decreases p1.len(),
{
    if p1.len() == 0 {
    } else {
        let q1 = p1.subrange(1, p1.len() as int);
        let q2 = p2.subrange(1, p2.len() as int);
        assert(valid_path(q1));
        assert(valid_path(q2));
        lemma_path_value_injective(4 * i1 + p1[0], q1, 4 * i2 + p2[0], q2);
        assert(p1[0] == p2[0]);
        assert forall|j: int| 0 <= j < p1.len() implies p1[j] == p2[j] by {
            if j > 0 {
                assert(q1[j - 1] == p1[j]);
                assert(q2[j - 1] == p2[j]);
            }
        }
    }
}

/// A path of length `n` from an index in the depth-`d` band lands in
/// the depth-`d + n` band.
pub proof fn lemma_path_value_range(i: int, p: Seq<int>, d: nat)
    requires
        valid_path(p),
        2 * pow4(d) <= i < 4 * pow4(d),
    ensures
        2 * pow4(d + p.len()) <= path_value(i, p) < 4 * pow4(d + p.len()),
    decreases p.len(),
{
    if p.len() == 0 {
    } else {
        let q = p.subrange(1, p.len() as int);
        assert(valid_path(q));
        lemma_pow4_step(d);
        lemma_path_value_range(4 * i + p[0], q, d + 1);
    }
}

/// The depth of any index in the depth-`k` band is `k`.
pub proof fn lemma_band_depth(n: int, k: nat)
    requires
        2 * pow4(k) <= n < 4 * pow4(k),
    ensures
        floor_log4(n) == k,
{
    lemma_pow4_step(k);
    lemma_pow4_pos(k);
    lemma_floor_log4_range(n, k);
}

} // verus!
