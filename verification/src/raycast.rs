//! Exact ray / triangle intersection.
//!
//! The point locator asks whether the ray from the sphere's center along a
//! direction `d` pierces a cell's triangle `(a, b, c)`.  Over the integer
//! coordinates of [`crate::geometry`] this is decided exactly: the ray
//! meets the triangle if and only if some nonnegative multiple of `d` is a
//! convex combination of the vertices, with both sides cleared to
//! integers.  The decision procedure computes the four 3x3 determinants of
//! Cramer's rule in 128-bit arithmetic and reads the answer off their
//! signs.

use vstd::prelude::*;
use vstd::arithmetic::mul::{
    lemma_mul_is_associative, lemma_mul_is_commutative, lemma_mul_is_distributive_add,
    lemma_mul_is_distributive_add_other_way, lemma_mul_is_distributive_sub,
};
use crate::geometry::{Vec3i, coord_in_range, vec3_is_mid};

verus! {

/// Determinant of the 3x3 matrix with rows `p`, `q`, `r`.
pub open spec fn det3(p: Vec3i, q: Vec3i, r: Vec3i) -> int {
    p.x * (q.y * r.z - q.z * r.y) - p.y * (q.x * r.z - q.z * r.x) + p.z * (q.x * r.y - q.y * r.x)
}

/// All three coordinates within the bounding box.
pub open spec fn vec_in_range(v: Vec3i) -> bool {
    coord_in_range(v.x) && coord_in_range(v.y) && coord_in_range(v.z)
}

/// The direction is not the zero vector.
pub open spec fn nonzero(v: Vec3i) -> bool {
    !(v.x == 0 && v.y == 0 && v.z == 0)
}

/// An integer witness that `s * d` is a convex combination
/// `(u * a + v * b + w * c) / (u + v + w)` of the vertices, cleared of
/// denominators.
pub open spec fn cone_certificate(
    s: int, u: int, v: int, w: int,
    d: Vec3i, a: Vec3i, b: Vec3i, c: Vec3i,
) -> bool {
    &&& s >= 0
    &&& u >= 0
    &&& v >= 0
    &&& w >= 0
    &&& u + v + w > 0
    &&& s * d.x == u * a.x + v * b.x + w * c.x
    &&& s * d.y == u * a.y + v * b.y + w * c.y
    &&& s * d.z == u * a.z + v * b.z + w * c.z
}

/// The ray from the origin along `d` meets the triangle `(a, b, c)`.
pub open spec fn ray_meets_triangle(d: Vec3i, a: Vec3i, b: Vec3i, c: Vec3i) -> bool {
    exists|s: int, u: int, v: int, w: int| #[trigger] cone_certificate(s, u, v, w, d, a, b, c)
}

/// A determinant with a repeated row vanishes.
proof fn lemma_det3_repeated(p: Vec3i, q: Vec3i)
    ensures
        det3(p, p, q) == 0,
        det3(p, q, p) == 0,
        det3(p, q, q) == 0,
{
    assert(p.x * (p.y * q.z - p.z * q.y) - p.y * (p.x * q.z - p.z * q.x) + p.z * (p.x * q.y
        - p.y * q.x) == 0) by (nonlinear_arith);
    assert(p.x * (q.y * p.z - q.z * p.y) - p.y * (q.x * p.z - q.z * p.x) + p.z * (q.x * p.y
        - q.y * p.x) == 0) by (nonlinear_arith);
    assert(p.x * (q.y * q.z - q.z * q.y) - p.y * (q.x * q.z - q.z * q.x) + p.z * (q.x * q.y
        - q.y * q.x) == 0) by (nonlinear_arith);
}

/// One row entry times its cofactor, split into two monomials.
proof fn lemma_expand_cof(t: int, m1: int, m2: int, n1: int, n2: int)
    ensures
        t * (m1 * m2 - n1 * n2) == (t * m1) * m2 - (t * n1) * n2,
{
    lemma_mul_is_distributive_sub(t, m1 * m2, n1 * n2);
    lemma_mul_is_associative(t, m1, m2);
    lemma_mul_is_associative(t, n1, n2);
}

/// As [`lemma_expand_cof`], with the multiplier commuted into the middle.
proof fn lemma_expand_cof_mid(t: int, m1: int, m2: int, n1: int, n2: int)
    ensures
        t * (m1 * m2 - n1 * n2) == (m1 * t) * m2 - (n1 * t) * n2,
{
    lemma_mul_is_distributive_sub(t, m1 * m2, n1 * n2);
    lemma_mul_is_associative(t, m1, m2);
    lemma_mul_is_associative(t, n1, n2);
    lemma_mul_is_commutative(t, m1);
    lemma_mul_is_commutative(t, n1);
}

/// As [`lemma_expand_cof`], with the multiplier commuted to the end.
proof fn lemma_expand_cof_last(t: int, m1: int, m2: int, n1: int, n2: int)
    ensures
        t * (m1 * m2 - n1 * n2) == (m1 * m2) * t - (n1 * n2) * t,
{
    lemma_mul_is_distributive_sub(t, m1 * m2, n1 * n2);
    lemma_mul_is_commutative(t, m1 * m2);
    lemma_mul_is_commutative(t, n1 * n2);
}

/// Cofactor expansion of `det3(x, q, r)` along its first row.
proof fn lemma_expand_slot1(x: Vec3i, q: Vec3i, r: Vec3i)
    ensures
        det3(x, q, r) == x.x * (q.y * r.z - q.z * r.y) + x.y * (q.z * r.x - q.x * r.z) + x.z * (
        q.x * r.y - q.y * r.x),
{
    lemma_expand_cof(x.y as int, q.x as int, r.z as int, q.z as int, r.x as int);
    lemma_expand_cof(x.y as int, q.z as int, r.x as int, q.x as int, r.z as int);
}

/// Cofactor expansion of `det3(p, x, r)` along its second row.
proof fn lemma_expand_slot2(x: Vec3i, p: Vec3i, r: Vec3i)
    ensures
        det3(p, x, r) == x.x * (p.z * r.y - p.y * r.z) + x.y * (p.x * r.z - p.z * r.x) + x.z * (
        p.y * r.x - p.x * r.y),
{
    lemma_expand_cof(p.x as int, x.y as int, r.z as int, x.z as int, r.y as int);
    lemma_expand_cof(p.y as int, x.x as int, r.z as int, x.z as int, r.x as int);
    lemma_expand_cof(p.z as int, x.x as int, r.y as int, x.y as int, r.x as int);
    lemma_expand_cof(x.x as int, p.z as int, r.y as int, p.y as int, r.z as int);
    lemma_expand_cof(x.y as int, p.x as int, r.z as int, p.z as int, r.x as int);
    lemma_expand_cof(x.z as int, p.y as int, r.x as int, p.x as int, r.y as int);
}

/// Cofactor expansion of `det3(p, q, x)` along its third row.
proof fn lemma_expand_slot3(x: Vec3i, p: Vec3i, q: Vec3i)
    ensures
        det3(p, q, x) == x.x * (p.y * q.z - p.z * q.y) + x.y * (p.z * q.x - p.x * q.z) + x.z * (
        p.x * q.y - p.y * q.x),
{
    lemma_expand_cof(p.x as int, q.y as int, x.z as int, q.z as int, x.y as int);
    lemma_expand_cof(p.y as int, q.x as int, x.z as int, q.z as int, x.x as int);
    lemma_expand_cof(p.z as int, q.x as int, x.y as int, q.y as int, x.x as int);
    lemma_expand_cof_last(x.x as int, p.y as int, q.z as int, p.z as int, q.y as int);
    lemma_expand_cof_last(x.y as int, p.z as int, q.x as int, p.x as int, q.z as int);
    lemma_expand_cof_last(x.z as int, p.x as int, q.y as int, p.y as int, q.x as int);
}

/// Scaling distributes over a three-term cofactor sum.
proof fn lemma_scale3(s: int, m1: int, m2: int, m3: int, e1: int, e2: int, e3: int)
    ensures
        s * (m1 * e1 + m2 * e2 + m3 * e3) == (s * m1) * e1 + (s * m2) * e2 + (s * m3) * e3,
{
    lemma_mul_is_distributive_add(s, m1 * e1 + m2 * e2, m3 * e3);
    lemma_mul_is_distributive_add(s, m1 * e1, m2 * e2);
    lemma_mul_is_associative(s, m1, e1);
    lemma_mul_is_associative(s, m2, e2);
    lemma_mul_is_associative(s, m3, e3);
}

/// A three-term combination times a cofactor, distributed.
proof fn lemma_comb3(m1: int, m2: int, m3: int, e1: int, e2: int, e3: int, t: int)
    ensures
        (m1 * e1 + m2 * e2 + m3 * e3) * t == m1 * (e1 * t) + m2 * (e2 * t) + m3 * (e3 * t),
{
    lemma_mul_is_distributive_add_other_way(t, m1 * e1 + m2 * e2, m3 * e3);
    lemma_mul_is_distributive_add_other_way(t, m1 * e1, m2 * e2);
    lemma_mul_is_associative(m1, e1, t);
    lemma_mul_is_associative(m2, e2, t);
    lemma_mul_is_associative(m3, e3, t);
}

/// As [`lemma_comb3`], with the factor commuted to the front.
proof fn lemma_comb3_swap(m1: int, m2: int, m3: int, e1: int, e2: int, e3: int, t: int)
    ensures
        (m1 * e1 + m2 * e2 + m3 * e3) * t == m1 * (t * e1) + m2 * (t * e2) + m3 * (t * e3),
{
    lemma_mul_is_distributive_add_other_way(t, m1 * e1 + m2 * e2, m3 * e3);
    lemma_mul_is_distributive_add_other_way(t, m1 * e1, m2 * e2);
    lemma_mul_is_associative(m1, e1, t);
    lemma_mul_is_associative(m2, e2, t);
    lemma_mul_is_associative(m3, e3, t);
    lemma_mul_is_commutative(e1, t);
    lemma_mul_is_commutative(e2, t);
    lemma_mul_is_commutative(e3, t);
}

/// Common factor pulled out of a three-term sum.
proof fn lemma_factor3(s: int, t1: int, t2: int, t3: int)
    ensures
        s * t1 + s * t2 + s * t3 == s * (t1 + t2 + t3),
{
    lemma_mul_is_distributive_add(s, t1 + t2, t3);
    lemma_mul_is_distributive_add(s, t1, t2);
}

/// The determinant is linear under an integer combination substituted in
/// its first row.
proof fn lemma_det3_linear_slot1(
    s: int, u: int, v: int, w: int,
    d: Vec3i, a: Vec3i, b: Vec3i, c: Vec3i,
    y: Vec3i, z: Vec3i,
)
    requires
        s * d.x == u * a.x + v * b.x + w * c.x,
        s * d.y == u * a.y + v * b.y + w * c.y,
        s * d.z == u * a.z + v * b.z + w * c.z,
    ensures
        s * det3(d, y, z) == u * det3(a, y, z) + v * det3(b, y, z) + w * det3(c, y, z),
{
    let e1 = y.y * z.z - y.z * z.y;
    let e2 = y.z * z.x - y.x * z.z;
    let e3 = y.x * z.y - y.y * z.x;
    lemma_expand_slot1(d, y, z);
    lemma_expand_slot1(a, y, z);
    lemma_expand_slot1(b, y, z);
    lemma_expand_slot1(c, y, z);
    lemma_scale3(s, d.x as int, d.y as int, d.z as int, e1, e2, e3);
    lemma_comb3(u, v, w, a.x as int, b.x as int, c.x as int, e1);
    lemma_comb3(u, v, w, a.y as int, b.y as int, c.y as int, e2);
    lemma_comb3(u, v, w, a.z as int, b.z as int, c.z as int, e3);
    lemma_factor3(u, a.x * e1, a.y * e2, a.z * e3);
    lemma_factor3(v, b.x * e1, b.y * e2, b.z * e3);
    lemma_factor3(w, c.x * e1, c.y * e2, c.z * e3);
}

/// The determinant is linear under an integer combination substituted in
/// its second row.
proof fn lemma_det3_linear_slot2(
    s: int, u: int, v: int, w: int,
    d: Vec3i, a: Vec3i, b: Vec3i, c: Vec3i,
    y: Vec3i, z: Vec3i,
)
    requires
        s * d.x == u * a.x + v * b.x + w * c.x,
        s * d.y == u * a.y + v * b.y + w * c.y,
        s * d.z == u * a.z + v * b.z + w * c.z,
    ensures
        s * det3(y, d, z) == u * det3(y, a, z) + v * det3(y, b, z) + w * det3(y, c, z),
{
    let e1 = y.z * z.y - y.y * z.z;
    let e2 = y.x * z.z - y.z * z.x;
    let e3 = y.y * z.x - y.x * z.y;
    lemma_expand_slot2(d, y, z);
    lemma_expand_slot2(a, y, z);
    lemma_expand_slot2(b, y, z);
    lemma_expand_slot2(c, y, z);
    lemma_scale3(s, d.x as int, d.y as int, d.z as int, e1, e2, e3);
    lemma_comb3(u, v, w, a.x as int, b.x as int, c.x as int, e1);
    lemma_comb3(u, v, w, a.y as int, b.y as int, c.y as int, e2);
    lemma_comb3(u, v, w, a.z as int, b.z as int, c.z as int, e3);
    lemma_factor3(u, a.x * e1, a.y * e2, a.z * e3);
    lemma_factor3(v, b.x * e1, b.y * e2, b.z * e3);
    lemma_factor3(w, c.x * e1, c.y * e2, c.z * e3);
}

/// The determinant is linear under an integer combination substituted in
/// its third row.
proof fn lemma_det3_linear_slot3(
    s: int, u: int, v: int, w: int,
    d: Vec3i, a: Vec3i, b: Vec3i, c: Vec3i,
    y: Vec3i, z: Vec3i,
)
    requires
        s * d.x == u * a.x + v * b.x + w * c.x,
        s * d.y == u * a.y + v * b.y + w * c.y,
        s * d.z == u * a.z + v * b.z + w * c.z,
    ensures
        s * det3(y, z, d) == u * det3(y, z, a) + v * det3(y, z, b) + w * det3(y, z, c),
{
    let e1 = y.y * z.z - y.z * z.y;
    let e2 = y.z * z.x - y.x * z.z;
    let e3 = y.x * z.y - y.y * z.x;
    lemma_expand_slot3(d, y, z);
    lemma_expand_slot3(a, y, z);
    lemma_expand_slot3(b, y, z);
    lemma_expand_slot3(c, y, z);
    lemma_scale3(s, d.x as int, d.y as int, d.z as int, e1, e2, e3);
    lemma_comb3(u, v, w, a.x as int, b.x as int, c.x as int, e1);
    lemma_comb3(u, v, w, a.y as int, b.y as int, c.y as int, e2);
    lemma_comb3(u, v, w, a.z as int, b.z as int, c.z as int, e3);
    lemma_factor3(u, a.x * e1, a.y * e2, a.z * e3);
    lemma_factor3(v, b.x * e1, b.y * e2, b.z * e3);
    lemma_factor3(w, c.x * e1, c.y * e2, c.z * e3);
}

/// Cramer's rule: the determinants `det3(a,b,c)`, `det3(d,b,c)`,
/// `det3(a,d,c)` and `det3(a,b,d)` solve `s * d == u*a + v*b + w*c`.
proof fn lemma_cramer(d: Vec3i, a: Vec3i, b: Vec3i, c: Vec3i)
    ensures
        det3(a, b, c) * d.x == det3(d, b, c) * a.x + det3(a, d, c) * b.x + det3(a, b, d) * c.x,
        det3(a, b, c) * d.y == det3(d, b, c) * a.y + det3(a, d, c) * b.y + det3(a, b, d) * c.y,
        det3(a, b, c) * d.z == det3(d, b, c) * a.z + det3(a, d, c) * b.z + det3(a, b, d) * c.z,
{
    let p1 = b.y * c.z - b.z * c.y;
    let p2 = b.z * c.x - b.x * c.z;
    let p3 = b.x * c.y - b.y * c.x;
    let q1 = a.z * c.y - a.y * c.z;
    let q2 = a.x * c.z - a.z * c.x;
    let q3 = a.y * c.x - a.x * c.y;
    let r1 = a.y * b.z - a.z * b.y;
    let r2 = a.z * b.x - a.x * b.z;
    let r3 = a.x * b.y - a.y * b.x;
    lemma_expand_slot1(d, b, c);
    lemma_expand_slot2(d, a, c);
    lemma_expand_slot3(d, a, b);
    assert(det3(d, b, c) == d.x * p1 + d.y * p2 + d.z * p3);
    assert(det3(a, d, c) == d.x * q1 + d.y * q2 + d.z * q3);
    assert(det3(a, b, d) == d.x * r1 + d.y * r2 + d.z * r3);
    // split the full determinant into canonical monomials
    lemma_expand_cof(a.x as int, b.y as int, c.z as int, b.z as int, c.y as int);
    lemma_expand_cof(a.y as int, b.x as int, c.z as int, b.z as int, c.x as int);
    lemma_expand_cof(a.z as int, b.x as int, c.y as int, b.y as int, c.x as int);
    // split every row entry times cofactor into the same monomials
    lemma_expand_cof(a.x as int, b.z as int, c.x as int, b.x as int, c.z as int);
    lemma_expand_cof(a.x as int, b.x as int, c.y as int, b.y as int, c.x as int);
    lemma_expand_cof_mid(b.x as int, a.z as int, c.y as int, a.y as int, c.z as int);
    lemma_expand_cof_mid(b.x as int, a.x as int, c.z as int, a.z as int, c.x as int);
    lemma_expand_cof_mid(b.x as int, a.y as int, c.x as int, a.x as int, c.y as int);
    lemma_expand_cof_last(c.x as int, a.y as int, b.z as int, a.z as int, b.y as int);
    lemma_expand_cof_last(c.x as int, a.z as int, b.x as int, a.x as int, b.z as int);
    lemma_expand_cof_last(c.x as int, a.x as int, b.y as int, a.y as int, b.x as int);
    lemma_expand_cof(a.y as int, b.y as int, c.z as int, b.z as int, c.y as int);
    lemma_expand_cof(a.y as int, b.z as int, c.x as int, b.x as int, c.z as int);
    lemma_expand_cof(a.y as int, b.x as int, c.y as int, b.y as int, c.x as int);
    lemma_expand_cof_mid(b.y as int, a.z as int, c.y as int, a.y as int, c.z as int);
    lemma_expand_cof_mid(b.y as int, a.x as int, c.z as int, a.z as int, c.x as int);
    lemma_expand_cof_mid(b.y as int, a.y as int, c.x as int, a.x as int, c.y as int);
    lemma_expand_cof_last(c.y as int, a.y as int, b.z as int, a.z as int, b.y as int);
    lemma_expand_cof_last(c.y as int, a.z as int, b.x as int, a.x as int, b.z as int);
    lemma_expand_cof_last(c.y as int, a.x as int, b.y as int, a.y as int, b.x as int);
    lemma_expand_cof(a.z as int, b.y as int, c.z as int, b.z as int, c.y as int);
    lemma_expand_cof(a.z as int, b.z as int, c.x as int, b.x as int, c.z as int);
    lemma_expand_cof(a.z as int, b.x as int, c.y as int, b.y as int, c.x as int);
    lemma_expand_cof_mid(b.z as int, a.z as int, c.y as int, a.y as int, c.z as int);
    lemma_expand_cof_mid(b.z as int, a.x as int, c.z as int, a.z as int, c.x as int);
    lemma_expand_cof_mid(b.z as int, a.y as int, c.x as int, a.x as int, c.y as int);
    lemma_expand_cof_last(c.z as int, a.y as int, b.z as int, a.z as int, b.y as int);
    lemma_expand_cof_last(c.z as int, a.z as int, b.x as int, a.x as int, b.z as int);
    lemma_expand_cof_last(c.z as int, a.x as int, b.y as int, a.y as int, b.x as int);
    // each column of cofactors recombines to the full determinant or to zero
    assert(a.x * p1 + b.x * q1 + c.x * r1 == det3(a, b, c));
    assert(a.x * p2 + b.x * q2 + c.x * r2 == 0);
    assert(a.x * p3 + b.x * q3 + c.x * r3 == 0);
    assert(a.y * p1 + b.y * q1 + c.y * r1 == 0);
    assert(a.y * p2 + b.y * q2 + c.y * r2 == det3(a, b, c));
    assert(a.y * p3 + b.y * q3 + c.y * r3 == 0);
    assert(a.z * p1 + b.z * q1 + c.z * r1 == 0);
    assert(a.z * p2 + b.z * q2 + c.z * r2 == 0);
    assert(a.z * p3 + b.z * q3 + c.z * r3 == det3(a, b, c));
    // regroup the right-hand sides by the components of `d`
    lemma_comb3_swap(d.x as int, d.y as int, d.z as int, p1, p2, p3, a.x as int);
    lemma_comb3_swap(d.x as int, d.y as int, d.z as int, q1, q2, q3, b.x as int);
    lemma_comb3_swap(d.x as int, d.y as int, d.z as int, r1, r2, r3, c.x as int);
    lemma_factor3(d.x as int, a.x * p1, b.x * q1, c.x * r1);
    lemma_factor3(d.y as int, a.x * p2, b.x * q2, c.x * r2);
    lemma_factor3(d.z as int, a.x * p3, b.x * q3, c.x * r3);
    lemma_mul_is_commutative(d.x as int, det3(a, b, c));
    lemma_comb3_swap(d.x as int, d.y as int, d.z as int, p1, p2, p3, a.y as int);
    lemma_comb3_swap(d.x as int, d.y as int, d.z as int, q1, q2, q3, b.y as int);
    lemma_comb3_swap(d.x as int, d.y as int, d.z as int, r1, r2, r3, c.y as int);
    lemma_factor3(d.x as int, a.y * p1, b.y * q1, c.y * r1);
    lemma_factor3(d.y as int, a.y * p2, b.y * q2, c.y * r2);
    lemma_factor3(d.z as int, a.y * p3, b.y * q3, c.y * r3);
    lemma_mul_is_commutative(d.y as int, det3(a, b, c));
    lemma_comb3_swap(d.x as int, d.y as int, d.z as int, p1, p2, p3, a.z as int);
    lemma_comb3_swap(d.x as int, d.y as int, d.z as int, q1, q2, q3, b.z as int);
    lemma_comb3_swap(d.x as int, d.y as int, d.z as int, r1, r2, r3, c.z as int);
    lemma_factor3(d.x as int, a.z * p1, b.z * q1, c.z * r1);
    lemma_factor3(d.y as int, a.z * p2, b.z * q2, c.z * r2);
    lemma_factor3(d.z as int, a.z * p3, b.z * q3, c.z * r3);
    lemma_mul_is_commutative(d.z as int, det3(a, b, c));
}

/// As [`lemma_expand_cof`], with the multiplier commuted in behind the
/// second factor.
proof fn lemma_expand_cof_rev(t: int, m1: int, m2: int, n1: int, n2: int)
    ensures
        t * (m1 * m2 - n1 * n2) == (m2 * t) * m1 - (n2 * t) * n1,
{
    lemma_mul_is_distributive_sub(t, m1 * m2, n1 * n2);
    lemma_mul_is_commutative(m1, m2);
    lemma_mul_is_associative(t, m2, m1);
    lemma_mul_is_commutative(t, m2);
    lemma_mul_is_commutative(n1, n2);
    lemma_mul_is_associative(t, n2, n1);
    lemma_mul_is_commutative(t, n2);
}

/// The determinant is invariant under a cyclic rotation of its rows.
proof fn lemma_det3_cyclic(p: Vec3i, q: Vec3i, r: Vec3i)
    ensures
        det3(q, r, p) == det3(p, q, r),
{
    lemma_expand_cof(p.x as int, q.y as int, r.z as int, q.z as int, r.y as int);
    lemma_expand_cof(p.y as int, q.x as int, r.z as int, q.z as int, r.x as int);
    lemma_expand_cof(p.z as int, q.x as int, r.y as int, q.y as int, r.x as int);
    lemma_expand_cof_rev(q.x as int, r.y as int, p.z as int, r.z as int, p.y as int);
    lemma_expand_cof_rev(q.y as int, r.x as int, p.z as int, r.z as int, p.x as int);
    lemma_expand_cof_rev(q.z as int, r.x as int, p.y as int, r.y as int, p.x as int);
}

/// Edge-midpoint subdivision scales the determinant of each of the four
/// child triangles down by exactly four, in the child order used by the
/// builders.
pub proof fn lemma_det3_subdivision(
    v0: Vec3i, v1: Vec3i, v2: Vec3i,
    w0: Vec3i, w1: Vec3i, w2: Vec3i,
)
    requires
        vec3_is_mid(w0, v1, v2),
        vec3_is_mid(w1, v0, v2),
        vec3_is_mid(w2, v0, v1),
    ensures
        4 * det3(v0, w2, w1) == det3(v0, v1, v2),
        4 * det3(v1, w0, w2) == det3(v0, v1, v2),
        4 * det3(v2, w1, w2) == det3(v0, v1, v2),
        4 * det3(w0, w1, w2) == det3(v0, v1, v2),
{
    lemma_det3_cyclic(v0, v1, v2);
    lemma_det3_cyclic(v1, v2, v0);
    // first child: corner at v0
    lemma_det3_linear_slot2(2, 1, 1, 0, w2, v0, v1, v2, v0, w1);
    lemma_det3_repeated(v0, w1);
    lemma_det3_linear_slot3(2, 1, 0, 1, w1, v0, v1, v2, v0, v1);
    lemma_det3_repeated(v0, v1);
    // second child: corner at v1
    lemma_det3_linear_slot2(2, 0, 1, 1, w0, v0, v1, v2, v1, w2);
    lemma_det3_repeated(v1, w2);
    lemma_det3_linear_slot3(2, 1, 1, 0, w2, v0, v1, v2, v1, v2);
    lemma_det3_repeated(v1, v2);
    // third child: corner at v2
    lemma_det3_linear_slot2(2, 1, 0, 1, w1, v0, v1, v2, v2, w2);
    lemma_det3_repeated(v2, w2);
    lemma_det3_linear_slot3(2, 1, 1, 0, w2, v0, v1, v2, v2, v0);
    lemma_det3_repeated(v2, v0);
    // center child, via the two triangles it is split from
    lemma_det3_linear_slot1(2, 0, 1, 1, w0, v0, v1, v2, w1, w2);
    lemma_det3_linear_slot2(2, 1, 0, 1, w1, v0, v1, v2, v1, w2);
    lemma_det3_linear_slot3(2, 1, 1, 0, w2, v0, v1, v2, v1, v0);
    lemma_det3_repeated(v1, v0);
}

/// At least two of the three rows lie in the bounding box, so the
/// 128-bit determinant computation cannot overflow.
pub open spec fn two_rows_in_range(p: Vec3i, q: Vec3i, r: Vec3i) -> bool {
    ||| vec_in_range(p) && vec_in_range(q)
    ||| vec_in_range(p) && vec_in_range(r)
    ||| vec_in_range(q) && vec_in_range(r)
}

/// One 2x2 cofactor `q1 * r2 - q2 * r1`, exact in 128-bit arithmetic.
fn cofactor(q1: i64, q2: i64, r1: i64, r2: i64) -> (res: i128)
    requires
        (coord_in_range(q1) && coord_in_range(q2)) || (coord_in_range(r1) && coord_in_range(r2)),
    ensures
        res == q1 * r2 - q2 * r1,
        -0x10000000000000000000000 <= res <= 0x10000000000000000000000,
        (coord_in_range(q1) && coord_in_range(q2) && coord_in_range(r1) && coord_in_range(r2))
            ==> -0x2000000000000 <= res <= 0x2000000000000,
{
    proof {
        assert(-0x8000000000000000000000 <= (q1 as int) * (r2 as int)
            <= 0x8000000000000000000000 && -0x8000000000000000000000 <= (q2 as int) * (r1 as int)
            <= 0x8000000000000000000000) by (nonlinear_arith)
            requires
                (-0x1000000 <= q1 <= 0x1000000 && -0x1000000 <= q2 <= 0x1000000) || (-0x1000000
                    <= r1 <= 0x1000000 && -0x1000000 <= r2 <= 0x1000000),
                -0x8000000000000000 <= q1 <= 0x7fffffffffffffff,
                -0x8000000000000000 <= q2 <= 0x7fffffffffffffff,
                -0x8000000000000000 <= r1 <= 0x7fffffffffffffff,
                -0x8000000000000000 <= r2 <= 0x7fffffffffffffff,
        ;
        assert((coord_in_range(q1) && coord_in_range(q2) && coord_in_range(r1) && coord_in_range(
            r2)) ==> (-0x1000000000000 <= (q1 as int) * (r2 as int) <= 0x1000000000000
            && -0x1000000000000 <= (q2 as int) * (r1 as int)
            <= 0x1000000000000)) by (nonlinear_arith)
            requires
                -0x8000000000000000 <= q1 <= 0x7fffffffffffffff,
                -0x8000000000000000 <= q2 <= 0x7fffffffffffffff,
                -0x8000000000000000 <= r1 <= 0x7fffffffffffffff,
                -0x8000000000000000 <= r2 <= 0x7fffffffffffffff,
        ;
    }
    (q1 as i128) * (r2 as i128) - (q2 as i128) * (r1 as i128)
}

/// `det3`, computed exactly in 128-bit arithmetic.
fn det3_exec(p: &Vec3i, q: &Vec3i, r: &Vec3i) -> (res: i128)
    requires
        two_rows_in_range(*p, *q, *r),
    ensures
        res == det3(*p, *q, *r),
{
    let c1 = cofactor(q.y, q.z, r.y, r.z);
    let c2 = cofactor(q.x, q.z, r.x, r.z);
    let c3 = cofactor(q.x, q.y, r.x, r.y);
    proof {
        assert(-0x10000000000000000000000000000 <= (p.x as int) * (c1 as int)
            <= 0x10000000000000000000000000000 && -0x10000000000000000000000000000 <= (p.y as int)
            * (c2 as int) <= 0x10000000000000000000000000000
            && -0x10000000000000000000000000000 <= (p.z as int) * (c3 as int)
            <= 0x10000000000000000000000000000) by (nonlinear_arith)
            requires
                (-0x1000000 <= p.x <= 0x1000000 && -0x1000000 <= p.y <= 0x1000000 && -0x1000000
                    <= p.z <= 0x1000000 && -0x10000000000000000000000 <= c1
                    <= 0x10000000000000000000000 && -0x10000000000000000000000 <= c2
                    <= 0x10000000000000000000000 && -0x10000000000000000000000 <= c3
                    <= 0x10000000000000000000000) || (-0x8000000000000000 <= p.x
                    <= 0x7fffffffffffffff && -0x8000000000000000 <= p.y <= 0x7fffffffffffffff
                    && -0x8000000000000000 <= p.z <= 0x7fffffffffffffff && -0x2000000000000 <= c1
                    <= 0x2000000000000 && -0x2000000000000 <= c2 <= 0x2000000000000
                    && -0x2000000000000 <= c3 <= 0x2000000000000),
        ;
    }
    (p.x as i128) * c1 - (p.y as i128) * c2 + (p.z as i128) * c3
}

/// Whether the ray from the origin along `d` meets the triangle
/// `(a, b, c)`, decided exactly from the signs of the four Cramer
/// determinants.
pub fn ray_triangle_intersects(d: &Vec3i, a: &Vec3i, b: &Vec3i, c: &Vec3i) -> (hit: bool)
    requires
        nonzero(*d),
        vec_in_range(*a),
        vec_in_range(*b),
        vec_in_range(*c),
        det3(*a, *b, *c) != 0,
    ensures
        hit == ray_meets_triangle(*d, *a, *b, *c),
{
    let dd = det3_exec(a, b, c);
    let u = det3_exec(d, b, c);
    let v = det3_exec(a, d, c);
    let w = det3_exec(a, b, d);
    let hit = if dd > 0 {
        u >= 0 && v >= 0 && w >= 0
    } else {
        u <= 0 && v <= 0 && w <= 0
    };
    proof {
        lemma_cramer(*d, *a, *b, *c);
        let di = det3(*a, *b, *c);
        let ui = det3(*d, *b, *c);
        let vi = det3(*a, *d, *c);
        let wi = det3(*a, *b, *d);
        if hit {
            let (s, cu, cv, cw): (int, int, int, int) = if di > 0 {
                (di, ui, vi, wi)
            } else {
                (-di, -ui, -vi, -wi)
            };
            assert(s * d.x == cu * a.x + cv * b.x + cw * c.x && s * d.y == cu * a.y + cv * b.y
                + cw * c.y && s * d.z == cu * a.z + cv * b.z + cw * c.z) by (nonlinear_arith)
                requires
                    di * d.x == ui * a.x + vi * b.x + wi * c.x,
                    di * d.y == ui * a.y + vi * b.y + wi * c.y,
                    di * d.z == ui * a.z + vi * b.z + wi * c.z,
                    (di > 0 && s == di && cu == ui && cv == vi && cw == wi) || (di < 0 && s == -di
                        && cu == -ui && cv == -vi && cw == -wi),
            ;
            if cu == 0 && cv == 0 && cw == 0 {
                assert(d.x == 0 && d.y == 0 && d.z == 0) by (nonlinear_arith)
                    requires
                        s > 0,
                        cu == 0,
                        cv == 0,
                        cw == 0,
                        s * d.x == cu * a.x + cv * b.x + cw * c.x,
                        s * d.y == cu * a.y + cv * b.y + cw * c.y,
                        s * d.z == cu * a.z + cv * b.z + cw * c.z,
                ;
            }
            assert(cone_certificate(s, cu, cv, cw, *d, *a, *b, *c));
        } else {
            if ray_meets_triangle(*d, *a, *b, *c) {
                let (s, cu, cv, cw): (int, int, int, int) = choose|s: int, cu: int, cv: int, cw: int|
                    cone_certificate(s, cu, cv, cw, *d, *a, *b, *c);
                lemma_det3_repeated(*a, *b);
                lemma_det3_repeated(*a, *c);
                lemma_det3_repeated(*b, *c);
                lemma_det3_repeated(*c, *b);
                lemma_det3_repeated(*b, *a);
                lemma_det3_repeated(*c, *a);
                lemma_det3_linear_slot1(s, cu, cv, cw, *d, *a, *b, *c, *b, *c);
                lemma_det3_linear_slot2(s, cu, cv, cw, *d, *a, *b, *c, *a, *c);
                lemma_det3_linear_slot3(s, cu, cv, cw, *d, *a, *b, *c, *a, *b);
                assert(s * ui == cu * di);
                assert(s * vi == cv * di);
                assert(s * wi == cw * di);
                assert(false) by (nonlinear_arith)
                    requires
                        s >= 0,
                        cu >= 0,
                        cv >= 0,
                        cw >= 0,
                        cu + cv + cw > 0,
                        di != 0,
                        s * ui == cu * di,
                        s * vi == cv * di,
                        s * wi == cw * di,
                        !((di > 0 && ui >= 0 && vi >= 0 && wi >= 0) || (di <= 0 && ui <= 0 && vi
                            <= 0 && wi <= 0)),
                ;
            }
        }
    }
    hit
}

} // verus!
