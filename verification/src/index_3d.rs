//! The spherical variant: eight octahedron faces subdivided over the
//! unit sphere, with ray / triangle point location.

use vstd::prelude::*;
use crate::codec::{pow4, lemma_pow4_step, lemma_index_fits, lemma_child_index_bits};
use crate::geometry::{
    mid, vec3_halves, vec3_is_mid, Vec3i, SCALE,
    lemma_base_halves, lemma_halves_weaken, lemma_mid_halves,
};
use crate::raycast::{
    det3, nonzero, ray_meets_triangle, ray_triangle_intersects, vec_in_range,
    lemma_det3_subdivision,
};
use crate::shared::{
    HtmIndex, BuildError, BIT_MASK_N, BIT_MASK_S, BIT_MASK_0, BIT_MASK_1, BIT_MASK_2, BIT_MASK_3,
};

verus! {

/// One triangular cell of the spherical mesh.
pub struct Trixel3d {
    /// The bit-packed path from the forest root to this cell.
    pub index: u64,
    /// The cell's three vertices.
    pub points: [Vec3i; 3],
    /// No children at the deepest level, else exactly four.
    pub children: Option<Box<[Trixel3d; 4]>>,
}

/// All three vertices within the bounding box.
pub open spec fn tri3_in_range(pts: [Vec3i; 3]) -> bool {
    vec_in_range(pts[0]) && vec_in_range(pts[1]) && vec_in_range(pts[2])
}

/// All nine coordinates can be halved exactly `k` times.
pub open spec fn tri3_halves(pts: [Vec3i; 3], k: nat) -> bool {
    vec3_halves(pts[0], k) && vec3_halves(pts[1], k) && vec3_halves(pts[2], k)
}

/// All nine coordinates are even.
pub open spec fn tri3_even(pts: [Vec3i; 3]) -> bool {
    &&& pts[0].x % 2 == 0 && pts[0].y % 2 == 0 && pts[0].z % 2 == 0
    &&& pts[1].x % 2 == 0 && pts[1].y % 2 == 0 && pts[1].z % 2 == 0
    &&& pts[2].x % 2 == 0 && pts[2].y % 2 == 0 && pts[2].z % 2 == 0
}

/// The four child triangles arise from the parent `[v0, v1, v2]` by the
/// midpoint rule: with `w0 = mid(v1, v2)`, `w1 = mid(v0, v2)` and
/// `w2 = mid(v0, v1)`, the children are `[v0, w2, w1]`, `[v1, w0, w2]`,
/// `[v2, w1, w2]` and `[w0, w1, w2]`, in that order.
pub open spec fn subdivides(
    pts: [Vec3i; 3],
    t0: [Vec3i; 3], t1: [Vec3i; 3], t2: [Vec3i; 3], t3: [Vec3i; 3],
) -> bool {
    &&& vec3_is_mid(t3[0], pts[1], pts[2])
    &&& vec3_is_mid(t3[1], pts[0], pts[2])
    &&& vec3_is_mid(t3[2], pts[0], pts[1])
    &&& t0[0] == pts[0] && t0[1] == t3[2] && t0[2] == t3[1]
    &&& t1[0] == pts[1] && t1[1] == t3[0] && t1[2] == t3[2]
    &&& t2[0] == pts[2] && t2[1] == t3[1] && t2[2] == t3[2]
}

/// The subtree rooted at `t` is exactly what the build pass produces
/// for a cell with index `index` at depth `d`, expanded to depth `md`.
pub open spec fn trixel_built(t: Trixel3d, index: int, d: int, md: int) -> bool
    decreases md - d,
{
    &&& t.index == index
    &&& if d >= md {
        t.children is None
    } else {
        match t.children {
            Option::None => false,
            Option::Some(ch) => {
                &&& subdivides(t.points, ch[0].points, ch[1].points, ch[2].points, ch[3].points)
                &&& trixel_built(ch[0], 4 * index + 0, d + 1, md)
                &&& trixel_built(ch[1], 4 * index + 1, d + 1, md)
                &&& trixel_built(ch[2], 4 * index + 2, d + 1, md)
                &&& trixel_built(ch[3], 4 * index + 3, d + 1, md)
            },
        }
    }
}

/// Geometric well-formedness of a subtree whose root sits at depth `d`:
/// vertices in range, nondegenerate triangles, and depths within the
/// supported maximum, which is what the point locator relies on.
pub open spec fn trixel_wf(t: Trixel3d, d: int) -> bool
    decreases 25 - d,
{
    &&& 1 <= d <= 25
    &&& tri3_in_range(t.points)
    &&& det3(t.points[0], t.points[1], t.points[2]) != 0
    &&& match t.children {
        Option::None => true,
        Option::Some(ch) => {
            &&& d < 25
            &&& trixel_wf(ch[0], d + 1)
            &&& trixel_wf(ch[1], d + 1)
            &&& trixel_wf(ch[2], d + 1)
            &&& trixel_wf(ch[3], d + 1)
        },
    }
}

/// The ray along `dir` meets the cell's triangle.
pub open spec fn tri_meets(dir: Vec3i, t: Trixel3d) -> bool {
    ray_meets_triangle(dir, t.points[0], t.points[1], t.points[2])
}

/// The index that the recursive descent returns from the subtree `t` at
/// depth `d`: the first child met by the ray is entered, and a cell
/// none of whose children is met answers for itself.
pub open spec fn locate_from(t: Trixel3d, dir: Vec3i, d: int) -> u64
    decreases 25 - d,
{
    match t.children {
        Option::None => t.index,
        Option::Some(ch) => {
            if d >= 25 {
                t.index
            } else if tri_meets(dir, ch[0]) {
                locate_from(ch[0], dir, d + 1)
            } else if tri_meets(dir, ch[1]) {
                locate_from(ch[1], dir, d + 1)
            } else if tri_meets(dir, ch[2]) {
                locate_from(ch[2], dir, d + 1)
            } else if tri_meets(dir, ch[3]) {
                locate_from(ch[3], dir, d + 1)
            } else {
                t.index
            }
        },
    }
}

/// Subdivision keeps one exact halving fewer in every child coordinate.
proof fn lemma_subdivide_halves(
    pts: [Vec3i; 3],
    t0: [Vec3i; 3], t1: [Vec3i; 3], t2: [Vec3i; 3], t3: [Vec3i; 3],
    k: nat,
)
    requires
        subdivides(pts, t0, t1, t2, t3),
        tri3_halves(pts, k),
        k >= 1,
    ensures
        tri3_halves(t0, (k - 1) as nat),
        tri3_halves(t1, (k - 1) as nat),
        tri3_halves(t2, (k - 1) as nat),
        tri3_halves(t3, (k - 1) as nat),
{
    lemma_mid_halves(t3[0].x as int, pts[1].x as int, pts[2].x as int, k);
    lemma_mid_halves(t3[0].y as int, pts[1].y as int, pts[2].y as int, k);
    lemma_mid_halves(t3[0].z as int, pts[1].z as int, pts[2].z as int, k);
    lemma_mid_halves(t3[1].x as int, pts[0].x as int, pts[2].x as int, k);
    lemma_mid_halves(t3[1].y as int, pts[0].y as int, pts[2].y as int, k);
    lemma_mid_halves(t3[1].z as int, pts[0].z as int, pts[2].z as int, k);
    lemma_mid_halves(t3[2].x as int, pts[0].x as int, pts[1].x as int, k);
    lemma_mid_halves(t3[2].y as int, pts[0].y as int, pts[1].y as int, k);
    lemma_mid_halves(t3[2].z as int, pts[0].z as int, pts[1].z as int, k);
    lemma_halves_weaken(pts[0].x as int, k, (k - 1) as nat);
    lemma_halves_weaken(pts[0].y as int, k, (k - 1) as nat);
    lemma_halves_weaken(pts[0].z as int, k, (k - 1) as nat);
    lemma_halves_weaken(pts[1].x as int, k, (k - 1) as nat);
    lemma_halves_weaken(pts[1].y as int, k, (k - 1) as nat);
    lemma_halves_weaken(pts[1].z as int, k, (k - 1) as nat);
    lemma_halves_weaken(pts[2].x as int, k, (k - 1) as nat);
    lemma_halves_weaken(pts[2].y as int, k, (k - 1) as nat);
    lemma_halves_weaken(pts[2].z as int, k, (k - 1) as nat);
}

/// The midpoint-subdivision rule, shared by every level of the builder.
fn divide_triangle(pts: &[Vec3i; 3]) -> (r: [[Vec3i; 3]; 4])
    requires
        tri3_in_range(*pts),
        tri3_even(*pts),
    ensures
        subdivides(*pts, r[0], r[1], r[2], r[3]),
        tri3_in_range(r[0]),
        tri3_in_range(r[1]),
        tri3_in_range(r[2]),
        tri3_in_range(r[3]),
{
    let v0 = pts[0];
    let v1 = pts[1];
    let v2 = pts[2];
    let w0 = Vec3i { x: mid(v1.x, v2.x), y: mid(v1.y, v2.y), z: mid(v1.z, v2.z) };
    let w1 = Vec3i { x: mid(v0.x, v2.x), y: mid(v0.y, v2.y), z: mid(v0.z, v2.z) };
    let w2 = Vec3i { x: mid(v0.x, v1.x), y: mid(v0.y, v1.y), z: mid(v0.z, v1.z) };

    [[v0, w2, w1], [v1, w0, w2], [v2, w1, w2], [w0, w1, w2]]
}

impl Trixel3d {
    /// One step of the recursive build pass: a leaf at the requested
    /// depth, otherwise a cell with the four subdivided children.
    fn new(index: u64, points: [Vec3i; 3], current_depth: u8, max_depth: u8) -> (t: Self)
        requires
            1 <= current_depth <= 25,
            max_depth <= 25,
            2 * pow4(current_depth as nat) <= index < 4 * pow4(current_depth as nat),
            tri3_in_range(points),
            tri3_halves(
                points,
                if current_depth < max_depth { (max_depth - current_depth) as nat } else { 0 },
            ),
            det3(points[0], points[1], points[2]) != 0,
        ensures
            trixel_built(t, index as int, current_depth as int, max_depth as int),
            trixel_wf(t, current_depth as int),
            t.points[0] == points[0] && t.points[1] == points[1] && t.points[2] == points[2],
        decreases 25 - current_depth,
    {
        if current_depth >= max_depth {
            return Self { index, points, children: None };
        }

        proof {
            lemma_index_fits(index, current_depth);
            lemma_child_index_bits(index, BIT_MASK_0);
            lemma_child_index_bits(index, BIT_MASK_1);
            lemma_child_index_bits(index, BIT_MASK_2);
            lemma_child_index_bits(index, BIT_MASK_3);
        }
        let sub = divide_triangle(&points);
        proof {
            lemma_subdivide_halves(
                points, sub[0], sub[1], sub[2], sub[3],
                (max_depth - current_depth) as nat,
            );
            lemma_det3_subdivision(
                points[0], points[1], points[2],
                sub[3][0], sub[3][1], sub[3][2],
            );
            lemma_pow4_step(current_depth as nat);
        }
        let c0 = Trixel3d::new((index << 2) | BIT_MASK_0, sub[0], current_depth + 1, max_depth);
        let c1 = Trixel3d::new((index << 2) | BIT_MASK_1, sub[1], current_depth + 1, max_depth);
        let c2 = Trixel3d::new((index << 2) | BIT_MASK_2, sub[2], current_depth + 1, max_depth);
        let c3 = Trixel3d::new((index << 2) | BIT_MASK_3, sub[3], current_depth + 1, max_depth);
        Self { index, points, children: Some(Box::new([c0, c1, c2, c3])) }
    }

    /// Whether this cell's triangle is pierced by the ray from the
    /// sphere's center along `direction`.
    fn intersects_ray(&self, direction: Vec3i) -> (r: bool)
        requires
            tri3_in_range(self.points),
            det3(self.points[0], self.points[1], self.points[2]) != 0,
            nonzero(direction),
        ensures
            r == tri_meets(direction, *self),
    {
        ray_triangle_intersects(&direction, &self.points[0], &self.points[1], &self.points[2])
    }

    /// The index of the deepest cell below this one that contains the
    /// point given by `direction`; on an exact boundary miss, this
    /// cell's own index.
    fn get_index_by_direction(&self, direction: Vec3i, Ghost(d): Ghost<int>) -> (r: u64)
        requires
            trixel_wf(*self, d),
            nonzero(direction),
        ensures
            r == locate_from(*self, direction, d),
        decreases 25 - d,
    {
        proof {
            reveal_with_fuel(trixel_wf, 2);
        }
        match &self.children {
            Option::None => self.index,
            Option::Some(children) => {
                if children[0].intersects_ray(direction) {
                    children[0].get_index_by_direction(direction, Ghost(d + 1))
                } else if children[1].intersects_ray(direction) {
                    children[1].get_index_by_direction(direction, Ghost(d + 1))
                } else if children[2].intersects_ray(direction) {
                    children[2].get_index_by_direction(direction, Ghost(d + 1))
                } else if children[3].intersects_ray(direction) {
                    children[3].get_index_by_direction(direction, Ghost(d + 1))
                } else {
                    // a ray on a shared boundary can miss every child's
                    // test; the enclosing cell answers for it
                    self.index
                }
            },
        }
    }
}

/// A spherical base vertex: the six axis points of the octahedron.
pub open spec fn sphere_vertex(i: int) -> Vec3i {
    if i == 0 {
        (Vec3i { x: 0, y: 0, z: SCALE })
    } else if i == 1 {
        (Vec3i { x: SCALE, y: 0, z: 0 })
    } else if i == 2 {
        (Vec3i { x: 0, y: SCALE, z: 0 })
    } else if i == 3 {
        (Vec3i { x: (-SCALE) as i64, y: 0, z: 0 })
    } else if i == 4 {
        (Vec3i { x: 0, y: (-SCALE) as i64, z: 0 })
    } else {
        (Vec3i { x: 0, y: 0, z: (-SCALE) as i64 })
    }
}

/// The vertices of base face `i`, as the build pass seeds them: four
/// south faces around `-Z`, then four north faces around `+Z`.
pub open spec fn sphere_face(i: int, k: int) -> Vec3i {
    if i == 0 {
        (if k == 0 { sphere_vertex(1) } else if k == 1 { sphere_vertex(5) } else { sphere_vertex(2) })
    } else if i == 1 {
        (if k == 0 { sphere_vertex(2) } else if k == 1 { sphere_vertex(5) } else { sphere_vertex(3) })
    } else if i == 2 {
        (if k == 0 { sphere_vertex(3) } else if k == 1 { sphere_vertex(5) } else { sphere_vertex(4) })
    } else if i == 3 {
        (if k == 0 { sphere_vertex(4) } else if k == 1 { sphere_vertex(5) } else { sphere_vertex(1) })
    } else if i == 4 {
        (if k == 0 { sphere_vertex(1) } else if k == 1 { sphere_vertex(0) } else { sphere_vertex(4) })
    } else if i == 5 {
        (if k == 0 { sphere_vertex(4) } else if k == 1 { sphere_vertex(0) } else { sphere_vertex(3) })
    } else if i == 6 {
        (if k == 0 { sphere_vertex(3) } else if k == 1 { sphere_vertex(0) } else { sphere_vertex(2) })
    } else {
        (if k == 0 { sphere_vertex(2) } else if k == 1 { sphere_vertex(0) } else { sphere_vertex(1) })
    }
}

/// The spherical forest: eight root cells tiling the sphere.
pub struct HtmIndex3d {
    /// The root cells, south ring first.
    pub trixels: [Trixel3d; 8],
}

/// Every root subtree is geometrically well formed.
pub open spec fn forest3_wf(f: HtmIndex3d) -> bool {
    forall|i: int| 0 <= i < 8 ==> trixel_wf(#[trigger] f.trixels[i], 1)
}

/// The forest is exactly what the build pass produces for depth `md`.
pub open spec fn forest3_built(f: HtmIndex3d, md: int) -> bool {
    &&& forall|i: int| 0 <= i < 8 ==> trixel_built(#[trigger] f.trixels[i], 8 + i, 1, md)
    &&& forall|i: int, k: int|
        0 <= i < 8 && 0 <= k < 3 ==> #[trigger] f.trixels[i].points[k] == sphere_face(i, k)
}

/// The index that the locator returns: the deepest cell under the first
/// pierced root, or zero, the whole sphere, if no root is pierced.
pub open spec fn locate_spec(f: HtmIndex3d, dir: Vec3i) -> u64 {
    if tri_meets(dir, f.trixels[0]) {
        locate_from(f.trixels[0], dir, 1)
    } else if tri_meets(dir, f.trixels[1]) {
        locate_from(f.trixels[1], dir, 1)
    } else if tri_meets(dir, f.trixels[2]) {
        locate_from(f.trixels[2], dir, 1)
    } else if tri_meets(dir, f.trixels[3]) {
        locate_from(f.trixels[3], dir, 1)
    } else if tri_meets(dir, f.trixels[4]) {
        locate_from(f.trixels[4], dir, 1)
    } else if tri_meets(dir, f.trixels[5]) {
        locate_from(f.trixels[5], dir, 1)
    } else if tri_meets(dir, f.trixels[6]) {
        locate_from(f.trixels[6], dir, 1)
    } else if tri_meets(dir, f.trixels[7]) {
        locate_from(f.trixels[7], dir, 1)
    } else {
        0
    }
}

impl HtmIndex3d {
    /// The index of the deepest cell containing the point on the sphere
    /// that `direction` points at from the center.  `direction` need
    /// not be normalized, only nonzero.
    pub fn get_index_by_direction(&self, direction: Vec3i) -> (r: u64)
        requires
            forest3_wf(*self),
            nonzero(direction),
        ensures
            r == locate_spec(*self, direction),
    {
        if self.trixels[0].intersects_ray(direction) {
            self.trixels[0].get_index_by_direction(direction, Ghost(1))
        } else if self.trixels[1].intersects_ray(direction) {
            self.trixels[1].get_index_by_direction(direction, Ghost(1))
        } else if self.trixels[2].intersects_ray(direction) {
            self.trixels[2].get_index_by_direction(direction, Ghost(1))
        } else if self.trixels[3].intersects_ray(direction) {
            self.trixels[3].get_index_by_direction(direction, Ghost(1))
        } else if self.trixels[4].intersects_ray(direction) {
            self.trixels[4].get_index_by_direction(direction, Ghost(1))
        } else if self.trixels[5].intersects_ray(direction) {
            self.trixels[5].get_index_by_direction(direction, Ghost(1))
        } else if self.trixels[6].intersects_ray(direction) {
            self.trixels[6].get_index_by_direction(direction, Ghost(1))
        } else if self.trixels[7].intersects_ray(direction) {
            self.trixels[7].get_index_by_direction(direction, Ghost(1))
        } else {
            // every direction pierces some root face, but a ray exactly
            // along a shared edge can miss every test; 0 stands for the
            // whole sphere
            0
        }
    }
}

impl HtmIndex for HtmIndex3d {
    open spec fn built_to(&self, max_depth: u8) -> bool {
        forest3_built(*self, max_depth as int) && forest3_wf(*self)
    }

    /// Build the spherical index down to `max_depth`.
    fn build(max_depth: u8) -> (r: Result<Self, BuildError>) {
        if max_depth > 25 {
            return Err(BuildError::DepthLimitExceeded);
        }
        let current_depth: u8 = 1;

        let v0 = Vec3i { x: 0, y: 0, z: SCALE };
        let v1 = Vec3i { x: SCALE, y: 0, z: 0 };
        let v2 = Vec3i { x: 0, y: SCALE, z: 0 };
        let v3 = Vec3i { x: -SCALE, y: 0, z: 0 };
        let v4 = Vec3i { x: 0, y: -SCALE, z: 0 };
        let v5 = Vec3i { x: 0, y: 0, z: -SCALE };

        proof {
            lemma_base_halves();
            lemma_pow4_step(0);
            assert(det3(v1, v5, v2) != 0) by (nonlinear_arith)
                requires
                    v1.x == 0x1000000,
                    v1.y == 0,
                    v1.z == 0,
                    v5.x == 0,
                    v5.y == 0,
                    v5.z == -0x1000000,
                    v2.x == 0,
                    v2.y == 0x1000000,
                    v2.z == 0,
            ;
            assert(det3(v2, v5, v3) != 0) by (nonlinear_arith)
                requires
                    v2.x == 0,
                    v2.y == 0x1000000,
                    v2.z == 0,
                    v5.x == 0,
                    v5.y == 0,
                    v5.z == -0x1000000,
                    v3.x == -0x1000000,
                    v3.y == 0,
                    v3.z == 0,
            ;
            assert(det3(v3, v5, v4) != 0) by (nonlinear_arith)
                requires
                    v3.x == -0x1000000,
                    v3.y == 0,
                    v3.z == 0,
                    v5.x == 0,
                    v5.y == 0,
                    v5.z == -0x1000000,
                    v4.x == 0,
                    v4.y == -0x1000000,
                    v4.z == 0,
            ;
            assert(det3(v4, v5, v1) != 0) by (nonlinear_arith)
                requires
                    v4.x == 0,
                    v4.y == -0x1000000,
                    v4.z == 0,
                    v5.x == 0,
                    v5.y == 0,
                    v5.z == -0x1000000,
                    v1.x == 0x1000000,
                    v1.y == 0,
                    v1.z == 0,
            ;
            assert(det3(v1, v0, v4) != 0) by (nonlinear_arith)
                requires
                    v1.x == 0x1000000,
                    v1.y == 0,
                    v1.z == 0,
                    v0.x == 0,
                    v0.y == 0,
                    v0.z == 0x1000000,
                    v4.x == 0,
                    v4.y == -0x1000000,
                    v4.z == 0,
            ;
            assert(det3(v4, v0, v3) != 0) by (nonlinear_arith)
                requires
                    v4.x == 0,
                    v4.y == -0x1000000,
                    v4.z == 0,
                    v0.x == 0,
                    v0.y == 0,
                    v0.z == 0x1000000,
                    v3.x == -0x1000000,
                    v3.y == 0,
                    v3.z == 0,
            ;
            assert(det3(v3, v0, v2) != 0) by (nonlinear_arith)
                requires
                    v3.x == -0x1000000,
                    v3.y == 0,
                    v3.z == 0,
                    v0.x == 0,
                    v0.y == 0,
                    v0.z == 0x1000000,
                    v2.x == 0,
                    v2.y == 0x1000000,
                    v2.z == 0,
            ;
            assert(det3(v2, v0, v1) != 0) by (nonlinear_arith)
                requires
                    v2.x == 0,
                    v2.y == 0x1000000,
                    v2.z == 0,
                    v0.x == 0,
                    v0.y == 0,
                    v0.z == 0x1000000,
                    v1.x == 0x1000000,
                    v1.y == 0,
                    v1.z == 0,
            ;
            lemma_child_index_bits(BIT_MASK_S, BIT_MASK_0);
            lemma_child_index_bits(BIT_MASK_S, BIT_MASK_1);
            lemma_child_index_bits(BIT_MASK_S, BIT_MASK_2);
            lemma_child_index_bits(BIT_MASK_S, BIT_MASK_3);
            lemma_child_index_bits(BIT_MASK_N, BIT_MASK_0);
            lemma_child_index_bits(BIT_MASK_N, BIT_MASK_1);
            lemma_child_index_bits(BIT_MASK_N, BIT_MASK_2);
            lemma_child_index_bits(BIT_MASK_N, BIT_MASK_3);
        }

        let s0 = Trixel3d::new((BIT_MASK_S << 2) | BIT_MASK_0, [v1, v5, v2], current_depth, max_depth);
        let s1 = Trixel3d::new((BIT_MASK_S << 2) | BIT_MASK_1, [v2, v5, v3], current_depth, max_depth);
        let s2 = Trixel3d::new((BIT_MASK_S << 2) | BIT_MASK_2, [v3, v5, v4], current_depth, max_depth);
        let s3 = Trixel3d::new((BIT_MASK_S << 2) | BIT_MASK_3, [v4, v5, v1], current_depth, max_depth);

        let n0 = Trixel3d::new((BIT_MASK_N << 2) | BIT_MASK_0, [v1, v0, v4], current_depth, max_depth);
        let n1 = Trixel3d::new((BIT_MASK_N << 2) | BIT_MASK_1, [v4, v0, v3], current_depth, max_depth);
        let n2 = Trixel3d::new((BIT_MASK_N << 2) | BIT_MASK_2, [v3, v0, v2], current_depth, max_depth);
        let n3 = Trixel3d::new((BIT_MASK_N << 2) | BIT_MASK_3, [v2, v0, v1], current_depth, max_depth);

        Ok(Self { trixels: [s0, s1, s2, s3, n0, n1, n2, n3] })
    }
}

/// The cell reached from `t` by the child selectors of `path`, if the
/// tree is deep enough and every selector is in range.
pub open spec fn node_at(t: Trixel3d, path: Seq<int>) -> Option<Trixel3d>
    decreases path.len(),
{
    if path.len() == 0 {
        Some(t)
    } else {
        match t.children {
            Option::None => None,
            Option::Some(ch) => {
                if 0 <= path[0] < 4 {
                    node_at(ch[path[0]], path.subrange(1, path.len() as int))
                } else {
                    None
                }
            },
        }
    }
}

/// A path that reaches a cell has every selector in range.
proof fn lemma_node_at_valid(t: Trixel3d, path: Seq<int>)
    requires
        node_at(t, path) is Some,
    ensures
        crate::codec::valid_path(path),
    decreases path.len(),
{
    if path.len() > 0 {
        let tail = path.subrange(1, path.len() as int);
        match t.children {
            Option::None => {},
            Option::Some(ch) => {
                if 0 <= path[0] < 4 {
                    lemma_node_at_valid(ch[path[0]], tail);
                    assert forall|j: int| 0 <= j < path.len() implies 0 <= #[trigger] path[j] < 4 by {
                        if j > 0 {
                            assert(tail[j - 1] == path[j]);
                        }
                    }
                }
            },
        }
    }
}

/// In a built subtree, the index of the cell a path reaches is the
/// root's index with the path's selector bits appended.
proof fn lemma_node_at_index(t: Trixel3d, index: int, d: int, md: int, path: Seq<int>)
    requires
        trixel_built(t, index, d, md),
        node_at(t, path) is Some,
    ensures
        node_at(t, path).unwrap().index == crate::codec::path_value(index, path),
    decreases path.len(),
{
    if path.len() > 0 {
        let tail = path.subrange(1, path.len() as int);
        match t.children {
            Option::None => {},
            Option::Some(ch) => {
                let k = path[0];
                if 0 <= k < 4 {
                    assert(trixel_built(ch[k], 4 * index + k, d + 1, md)) by {
                        if k == 0 {
                        } else if k == 1 {
                        } else if k == 2 {
                        } else {
                        }
                    }
                    lemma_node_at_index(ch[k], 4 * index + k, d + 1, md, tail);
                }
            },
        }
    }
}

/// Index uniqueness: in a built spherical forest, cells at one depth
/// carry pairwise distinct indices, across root faces too.
pub proof fn lemma_index_uniqueness_3d(
    f: HtmIndex3d, md: int,
    i1: int, p1: Seq<int>, i2: int, p2: Seq<int>,
)
    requires
        forest3_built(f, md),
        0 <= i1 < 8,
        0 <= i2 < 8,
        p1.len() == p2.len(),
        node_at(f.trixels[i1], p1) is Some,
        node_at(f.trixels[i2], p2) is Some,
        node_at(f.trixels[i1], p1).unwrap().index == node_at(f.trixels[i2], p2).unwrap().index,
    ensures
        i1 == i2,
        p1 =~= p2,
{
    lemma_node_at_valid(f.trixels[i1], p1);
    lemma_node_at_valid(f.trixels[i2], p2);
    lemma_node_at_index(f.trixels[i1], 8 + i1, 1, md, p1);
    lemma_node_at_index(f.trixels[i2], 8 + i2, 1, md, p2);
    crate::codec::lemma_path_value_injective(8 + i1, p1, 8 + i2, p2);
}

/// Depth round-trip: in a built spherical forest, the depth recovered
/// from a cell's index is the cell's recursion depth.
pub proof fn lemma_depth_round_trip_3d(f: HtmIndex3d, md: int, i: int, p: Seq<int>)
    requires
        forest3_built(f, md),
        0 <= i < 8,
        node_at(f.trixels[i], p) is Some,
    ensures
        crate::codec::floor_log4(node_at(f.trixels[i], p).unwrap().index as int) == 1 + p.len(),
{
    lemma_node_at_valid(f.trixels[i], p);
    lemma_node_at_index(f.trixels[i], 8 + i, 1, md, p);
    crate::codec::lemma_pow4_step(0);
    crate::codec::lemma_path_value_range(8 + i, p, 1);
    crate::codec::lemma_band_depth(crate::codec::path_value(8 + i, p), 1 + p.len());
}

/// The number of leaves below `t`, a cell at depth `d`.
pub open spec fn leaf_count3(t: Trixel3d, d: int) -> nat
    decreases 25 - d,
{
    match t.children {
        Option::None => 1,
        Option::Some(ch) => {
            if d >= 25 {
                1
            } else {
                leaf_count3(ch[0], d + 1) + leaf_count3(ch[1], d + 1) + leaf_count3(ch[2], d + 1)
                    + leaf_count3(ch[3], d + 1)
            }
        },
    }
}

/// A built subtree at depth `d` has exactly `4^(md - d)` leaves.
proof fn lemma_leaf_count3(t: Trixel3d, index: int, d: int, md: int)
    requires
        trixel_built(t, index, d, md),
        1 <= d <= 25,
        md <= 25,
    ensures
        leaf_count3(t, d) == pow4(if md > d { (md - d) as nat } else { 0 }),
    decreases 25 - d,
{
    match t.children {
        Option::None => {},
        Option::Some(ch) => {
            lemma_leaf_count3(ch[0], 4 * index + 0, d + 1, md);
            lemma_leaf_count3(ch[1], 4 * index + 1, d + 1, md);
            lemma_leaf_count3(ch[2], 4 * index + 2, d + 1, md);
            lemma_leaf_count3(ch[3], 4 * index + 3, d + 1, md);
            crate::codec::lemma_pow4_step(if md > d + 1 { (md - d - 1) as nat } else { 0 });
        },
    }
}

/// The number of leaves of the whole spherical forest.
pub open spec fn forest3_leaves(f: HtmIndex3d) -> nat {
    leaf_count3(f.trixels[0], 1) + leaf_count3(f.trixels[1], 1) + leaf_count3(f.trixels[2], 1)
        + leaf_count3(f.trixels[3], 1) + leaf_count3(f.trixels[4], 1) + leaf_count3(
        f.trixels[5],
        1,
    ) + leaf_count3(f.trixels[6], 1) + leaf_count3(f.trixels[7], 1)
}

/// Leaf count: building the spherical forest to depth `md` yields
/// exactly `8 * 4^(md - 1)` leaf cells.
pub proof fn lemma_leaf_count_3d(f: HtmIndex3d, md: int)
    requires
        forest3_built(f, md),
        1 <= md <= 25,
    ensures
        forest3_leaves(f) == 8 * pow4((md - 1) as nat),
{
    lemma_leaf_count3(f.trixels[0], 8, 1, md);
    lemma_leaf_count3(f.trixels[1], 9, 1, md);
    lemma_leaf_count3(f.trixels[2], 10, 1, md);
    lemma_leaf_count3(f.trixels[3], 11, 1, md);
    lemma_leaf_count3(f.trixels[4], 12, 1, md);
    lemma_leaf_count3(f.trixels[5], 13, 1, md);
    lemma_leaf_count3(f.trixels[6], 14, 1, md);
    lemma_leaf_count3(f.trixels[7], 15, 1, md);
}

/// The vertex set of a cell's triangle.
pub open spec fn tri3_vertex_set(pts: [Vec3i; 3]) -> Set<Vec3i> {
    set![pts[0], pts[1], pts[2]]
}

/// Partition: the four children of a subdivided cell have, between
/// them, exactly the parent's corners and the three edge midpoints as
/// vertices, and those midpoints halve the parent's edges exactly.
pub proof fn lemma_partition_3d(t: Trixel3d, index: int, d: int, md: int)
    requires
        trixel_built(t, index, d, md),
        t.children is Some,
    ensures
        t.children matches Some(ch) ==> {
            &&& vec3_is_mid(ch[3].points[0], t.points[1], t.points[2])
            &&& vec3_is_mid(ch[3].points[1], t.points[0], t.points[2])
            &&& vec3_is_mid(ch[3].points[2], t.points[0], t.points[1])
            &&& tri3_vertex_set(ch[0].points).union(tri3_vertex_set(ch[1].points)).union(
                tri3_vertex_set(ch[2].points),
            ).union(tri3_vertex_set(ch[3].points)) =~= tri3_vertex_set(t.points).union(
                tri3_vertex_set(ch[3].points),
            )
        },
{
}

/// Every index the descent can return names a cell of the subtree.
proof fn lemma_locate_from_names_a_cell(t: Trixel3d, dir: Vec3i, d: int)
    ensures
        exists|p: Seq<int>|
            #[trigger] node_at(t, p) matches Some(n) && n.index == locate_from(t, dir, d),
    decreases 25 - d,
{
    let empty = Seq::<int>::empty();
    match t.children {
        Option::None => {
            assert(node_at(t, empty) matches Some(n) && n.index == locate_from(t, dir, d));
        },
        Option::Some(ch) => {
            if d >= 25 {
                assert(node_at(t, empty) matches Some(n) && n.index == locate_from(t, dir, d));
            } else {
                let k: int = if tri_meets(dir, ch[0]) {
                    0
                } else if tri_meets(dir, ch[1]) {
                    1
                } else if tri_meets(dir, ch[2]) {
                    2
                } else if tri_meets(dir, ch[3]) {
                    3
                } else {
                    4
                };
                if k == 4 {
                    assert(node_at(t, empty) matches Some(n) && n.index == locate_from(
                        t,
                        dir,
                        d,
                    ));
                } else {
                    lemma_locate_from_names_a_cell(ch[k], dir, d + 1);
                    let sub = choose|p: Seq<int>|
                        #[trigger] node_at(ch[k], p) matches Some(n) && n.index == locate_from(
                            ch[k],
                            dir,
                            d + 1,
                        );
                    let path = seq![k] + sub;
                    assert(path[0] == k);
                    assert(path.subrange(1, path.len() as int) =~= sub);
                    assert(node_at(t, path) matches Some(n) && n.index == locate_from(t, dir, d));
                }
            }
        },
    }
}

/// Locator containment, structurally: what the locator returns is
/// either zero, for the whole sphere, or the index of a cell of the
/// forest.
pub proof fn lemma_locate_names_a_cell(f: HtmIndex3d, dir: Vec3i)
    ensures
        locate_spec(f, dir) == 0 || (exists|i: int, p: Seq<int>|
            0 <= i < 8 && (#[trigger] node_at(f.trixels[i], p) matches Some(n) && n.index
                == locate_spec(f, dir))),
{
    if locate_spec(f, dir) != 0 {
        let i: int = if tri_meets(dir, f.trixels[0]) {
            0
        } else if tri_meets(dir, f.trixels[1]) {
            1
        } else if tri_meets(dir, f.trixels[2]) {
            2
        } else if tri_meets(dir, f.trixels[3]) {
            3
        } else if tri_meets(dir, f.trixels[4]) {
            4
        } else if tri_meets(dir, f.trixels[5]) {
            5
        } else if tri_meets(dir, f.trixels[6]) {
            6
        } else {
            7
        };
        lemma_locate_from_names_a_cell(f.trixels[i], dir, 1);
        let sub = choose|p: Seq<int>|
            #[trigger] node_at(f.trixels[i], p) matches Some(n) && n.index == locate_from(
                f.trixels[i],
                dir,
                1,
            );
        assert(node_at(f.trixels[i], sub) matches Some(n) && n.index == locate_spec(f, dir));
    }
}

} // verus!
