//! The planar variant: four base triangles covering a diamond region,
//! subdivided exactly like the spherical faces.

use vstd::prelude::*;
use crate::codec::{pow4, lemma_pow4_step, lemma_index_fits, lemma_child_index_bits};
use crate::geometry::{
    mid, coord_in_range, vec2_halves, vec2_is_mid, Vec2i, SCALE,
    lemma_base_halves, lemma_halves_weaken, lemma_mid_halves,
};
use crate::shared::{HtmIndex, BuildError, BIT_MASK_S, BIT_MASK_0, BIT_MASK_1, BIT_MASK_2, BIT_MASK_3};

verus! {

/// One triangular cell of the planar mesh.
pub struct Triangle2d {
    /// The bit-packed path from the forest root to this cell.
    pub index: u64,
    /// The cell's three vertices.
    pub points: [Vec2i; 3],
    /// No children at the deepest level, else exactly four.
    pub children: Option<Box<[Triangle2d; 4]>>,
}

/// All three vertices within the bounding box.
pub open spec fn tri2_in_range(pts: [Vec2i; 3]) -> bool {
    &&& coord_in_range(pts[0].x) && coord_in_range(pts[0].y)
    &&& coord_in_range(pts[1].x) && coord_in_range(pts[1].y)
    &&& coord_in_range(pts[2].x) && coord_in_range(pts[2].y)
}

/// All six coordinates can be halved exactly `k` times.
pub open spec fn tri2_halves(pts: [Vec2i; 3], k: nat) -> bool {
    vec2_halves(pts[0], k) && vec2_halves(pts[1], k) && vec2_halves(pts[2], k)
}

/// All six coordinates are even.
pub open spec fn tri2_even(pts: [Vec2i; 3]) -> bool {
    &&& pts[0].x % 2 == 0 && pts[0].y % 2 == 0
    &&& pts[1].x % 2 == 0 && pts[1].y % 2 == 0
    &&& pts[2].x % 2 == 0 && pts[2].y % 2 == 0
}

/// The planar midpoint-subdivision relation, with the same child order
/// as the spherical variant.
pub open spec fn subdivides2(
    pts: [Vec2i; 3],
    t0: [Vec2i; 3], t1: [Vec2i; 3], t2: [Vec2i; 3], t3: [Vec2i; 3],
) -> bool {
    &&& vec2_is_mid(t3[0], pts[1], pts[2])
    &&& vec2_is_mid(t3[1], pts[0], pts[2])
    &&& vec2_is_mid(t3[2], pts[0], pts[1])
    &&& t0[0] == pts[0] && t0[1] == t3[2] && t0[2] == t3[1]
    &&& t1[0] == pts[1] && t1[1] == t3[0] && t1[2] == t3[2]
    &&& t2[0] == pts[2] && t2[1] == t3[1] && t2[2] == t3[2]
}

/// The subtree rooted at `t` is exactly what the build pass produces
/// for a cell with index `index` at depth `d`, expanded to depth `md`.
pub open spec fn triangle2_built(t: Triangle2d, index: int, d: int, md: int) -> bool
    decreases md - d,
{
    &&& t.index == index
    &&& if d >= md {
        t.children is None
    } else {
        match t.children {
            Option::None => false,
            Option::Some(ch) => {
                &&& subdivides2(t.points, ch[0].points, ch[1].points, ch[2].points, ch[3].points)
                &&& triangle2_built(ch[0], 4 * index + 0, d + 1, md)
                &&& triangle2_built(ch[1], 4 * index + 1, d + 1, md)
                &&& triangle2_built(ch[2], 4 * index + 2, d + 1, md)
                &&& triangle2_built(ch[3], 4 * index + 3, d + 1, md)
            },
        }
    }
}

/// Subdivision keeps one exact halving fewer in every child coordinate.
proof fn lemma_subdivide2_halves(
    pts: [Vec2i; 3],
    t0: [Vec2i; 3], t1: [Vec2i; 3], t2: [Vec2i; 3], t3: [Vec2i; 3],
    k: nat,
)
    requires
        subdivides2(pts, t0, t1, t2, t3),
        tri2_halves(pts, k),
        k >= 1,
    ensures
        tri2_halves(t0, (k - 1) as nat),
        tri2_halves(t1, (k - 1) as nat),
        tri2_halves(t2, (k - 1) as nat),
        tri2_halves(t3, (k - 1) as nat),
{
    lemma_mid_halves(t3[0].x as int, pts[1].x as int, pts[2].x as int, k);
    lemma_mid_halves(t3[0].y as int, pts[1].y as int, pts[2].y as int, k);
    lemma_mid_halves(t3[1].x as int, pts[0].x as int, pts[2].x as int, k);
    lemma_mid_halves(t3[1].y as int, pts[0].y as int, pts[2].y as int, k);
    lemma_mid_halves(t3[2].x as int, pts[0].x as int, pts[1].x as int, k);
    lemma_mid_halves(t3[2].y as int, pts[0].y as int, pts[1].y as int, k);
    lemma_halves_weaken(pts[0].x as int, k, (k - 1) as nat);
    lemma_halves_weaken(pts[0].y as int, k, (k - 1) as nat);
    lemma_halves_weaken(pts[1].x as int, k, (k - 1) as nat);
    lemma_halves_weaken(pts[1].y as int, k, (k - 1) as nat);
    lemma_halves_weaken(pts[2].x as int, k, (k - 1) as nat);
    lemma_halves_weaken(pts[2].y as int, k, (k - 1) as nat);
}

/// The midpoint-subdivision rule on planar triangles.
fn divide_triangle(pts: &[Vec2i; 3]) -> (r: [[Vec2i; 3]; 4])
    requires
        tri2_in_range(*pts),
        tri2_even(*pts),
    ensures
        subdivides2(*pts, r[0], r[1], r[2], r[3]),
        tri2_in_range(r[0]),
        tri2_in_range(r[1]),
        tri2_in_range(r[2]),
        tri2_in_range(r[3]),
{
    let v0 = pts[0];
    let v1 = pts[1];
    let v2 = pts[2];
    let w0 = Vec2i { x: mid(v1.x, v2.x), y: mid(v1.y, v2.y) };
    let w1 = Vec2i { x: mid(v0.x, v2.x), y: mid(v0.y, v2.y) };
    let w2 = Vec2i { x: mid(v0.x, v1.x), y: mid(v0.y, v1.y) };

    [[v0, w2, w1], [v1, w0, w2], [v2, w1, w2], [w0, w1, w2]]
}

impl Triangle2d {
    /// One step of the recursive build pass: a leaf at the requested
    /// depth, otherwise a cell with the four subdivided children.
    fn new(index: u64, points: [Vec2i; 3], current_depth: u8, max_depth: u8) -> (t: Self)
        requires
            1 <= current_depth <= 25,
            max_depth <= 25,
            2 * pow4(current_depth as nat) <= index < 4 * pow4(current_depth as nat),
            tri2_in_range(points),
            tri2_halves(
                points,
                if current_depth < max_depth { (max_depth - current_depth) as nat } else { 0 },
            ),
        ensures
            triangle2_built(t, index as int, current_depth as int, max_depth as int),
            t.points[0] == points[0] && t.points[1] == points[1] && t.points[2] == points[2],
        decreases 25 - current_depth,
    {
        if current_depth >= max_depth {
            return Self { index, points, children: None };
        }

        proof {
            lemma_index_fits(index, current_depth);
            lemma_child_index_bits(index, BIT_MASK_0);
            lemma_child_index_bits(index, BIT_MASK_1);
            lemma_child_index_bits(index, BIT_MASK_2);
            lemma_child_index_bits(index, BIT_MASK_3);
        }
        let sub = divide_triangle(&points);
        proof {
            lemma_subdivide2_halves(
                points, sub[0], sub[1], sub[2], sub[3],
                (max_depth - current_depth) as nat,
            );
            lemma_pow4_step(current_depth as nat);
        }
        let c0 = Triangle2d::new((index << 2) | BIT_MASK_0, sub[0], current_depth + 1, max_depth);
        let c1 = Triangle2d::new((index << 2) | BIT_MASK_1, sub[1], current_depth + 1, max_depth);
        let c2 = Triangle2d::new((index << 2) | BIT_MASK_2, sub[2], current_depth + 1, max_depth);
        let c3 = Triangle2d::new((index << 2) | BIT_MASK_3, sub[3], current_depth + 1, max_depth);
        Self { index, points, children: Some(Box::new([c0, c1, c2, c3])) }
    }
}

/// A planar base vertex: the diamond's center and its four corners.
pub open spec fn diamond_vertex(i: int) -> Vec2i {
    if i == 0 {
        (Vec2i { x: 0, y: 0 })
    } else if i == 1 {
        (Vec2i { x: (-SCALE) as i64, y: (-SCALE) as i64 })
    } else if i == 2 {
        (Vec2i { x: SCALE, y: (-SCALE) as i64 })
    } else if i == 3 {
        (Vec2i { x: SCALE, y: SCALE })
    } else {
        (Vec2i { x: (-SCALE) as i64, y: SCALE })
    }
}

/// The vertices of planar base triangle `i`: the center and one pair of
/// adjacent corners, counterclockwise.
pub open spec fn diamond_face(i: int, k: int) -> Vec2i {
    if k == 0 {
        diamond_vertex(0)
    } else if k == 1 {
        diamond_vertex(i + 1)
    } else {
        diamond_vertex(if i == 3 { 1 } else { i + 2 })
    }
}

/// The planar forest: four root cells tiling the diamond.
pub struct HtmIndex2d {
    /// The root cells, numbered by their quadrant selector.
    pub triangles: [Triangle2d; 4],
}

/// The forest is exactly what the build pass produces for depth `md`.
pub open spec fn forest2_built(f: HtmIndex2d, md: int) -> bool {
    &&& forall|i: int| 0 <= i < 4 ==> triangle2_built(#[trigger] f.triangles[i], 8 + i, 1, md)
    &&& forall|i: int, k: int|
        0 <= i < 4 && 0 <= k < 3 ==> #[trigger] f.triangles[i].points[k] == diamond_face(i, k)
}

impl HtmIndex for HtmIndex2d {
    open spec fn built_to(&self, max_depth: u8) -> bool {
        forest2_built(*self, max_depth as int)
    }

    /// Build the planar index down to `max_depth`.
    fn build(max_depth: u8) -> (r: Result<Self, BuildError>) {
        if max_depth > 25 {
            return Err(BuildError::DepthLimitExceeded);
        }
        let current_depth: u8 = 1;

        let v0 = Vec2i { x: 0, y: 0 };
        let v1 = Vec2i { x: -SCALE, y: -SCALE };
        let v2 = Vec2i { x: SCALE, y: -SCALE };
        let v3 = Vec2i { x: SCALE, y: SCALE };
        let v4 = Vec2i { x: -SCALE, y: SCALE };

        proof {
            lemma_base_halves();
            lemma_pow4_step(0);
            lemma_child_index_bits(BIT_MASK_S, BIT_MASK_0);
            lemma_child_index_bits(BIT_MASK_S, BIT_MASK_1);
            lemma_child_index_bits(BIT_MASK_S, BIT_MASK_2);
            lemma_child_index_bits(BIT_MASK_S, BIT_MASK_3);
        }

        let s0 = Triangle2d::new((BIT_MASK_S << 2) | BIT_MASK_0, [v0, v1, v2], current_depth, max_depth);
        let s1 = Triangle2d::new((BIT_MASK_S << 2) | BIT_MASK_1, [v0, v2, v3], current_depth, max_depth);
        let s2 = Triangle2d::new((BIT_MASK_S << 2) | BIT_MASK_2, [v0, v3, v4], current_depth, max_depth);
        let s3 = Triangle2d::new((BIT_MASK_S << 2) | BIT_MASK_3, [v0, v4, v1], current_depth, max_depth);

        Ok(Self { triangles: [s0, s1, s2, s3] })
    }
}

/// The cell reached from `t` by the child selectors of `path`, if the
/// tree is deep enough and every selector is in range.
pub open spec fn node_at2(t: Triangle2d, path: Seq<int>) -> Option<Triangle2d>
    decreases path.len(),
{
    if path.len() == 0 {
        Some(t)
    } else {
        match t.children {
            Option::None => None,
            Option::Some(ch) => {
                if 0 <= path[0] < 4 {
                    node_at2(ch[path[0]], path.subrange(1, path.len() as int))
                } else {
                    None
                }
            },
        }
    }
}

/// A path that reaches a cell has every selector in range.
proof fn lemma_node_at2_valid(t: Triangle2d, path: Seq<int>)
    requires
        node_at2(t, path) is Some,
    ensures
        crate::codec::valid_path(path),
    decreases path.len(),
{
    if path.len() > 0 {
        let tail = path.subrange(1, path.len() as int);
        match t.children {
            Option::None => {},
            Option::Some(ch) => {
                if 0 <= path[0] < 4 {
                    lemma_node_at2_valid(ch[path[0]], tail);
                    assert forall|j: int| 0 <= j < path.len() implies 0 <= #[trigger] path[j] < 4 by {
                        if j > 0 {
                            assert(tail[j - 1] == path[j]);
                        }
                    }
                }
            },
        }
    }
}

/// In a built subtree, the index of the cell a path reaches is the
/// root's index with the path's selector bits appended.
proof fn lemma_node_at2_index(t: Triangle2d, index: int, d: int, md: int, path: Seq<int>)
    requires
        triangle2_built(t, index, d, md),
        node_at2(t, path) is Some,
    ensures
        node_at2(t, path).unwrap().index == crate::codec::path_value(index, path),
    decreases path.len(),
{
    if path.len() > 0 {
        let tail = path.subrange(1, path.len() as int);
        match t.children {
            Option::None => {},
            Option::Some(ch) => {
                let k = path[0];
                if 0 <= k < 4 {
                    assert(triangle2_built(ch[k], 4 * index + k, d + 1, md)) by {
                        if k == 0 {
                        } else if k == 1 {
                        } else if k == 2 {
                        } else {
                        }
                    }
                    lemma_node_at2_index(ch[k], 4 * index + k, d + 1, md, tail);
                }
            },
        }
    }
}

/// Index uniqueness: in a built planar forest, cells at one depth
/// carry pairwise distinct indices, across root triangles too.
pub proof fn lemma_index_uniqueness_2d(
    f: HtmIndex2d, md: int,
    i1: int, p1: Seq<int>, i2: int, p2: Seq<int>,
)
    requires
        forest2_built(f, md),
        0 <= i1 < 4,
        0 <= i2 < 4,
        p1.len() == p2.len(),
        node_at2(f.triangles[i1], p1) is Some,
        node_at2(f.triangles[i2], p2) is Some,
        node_at2(f.triangles[i1], p1).unwrap().index == node_at2(f.triangles[i2], p2).unwrap().index,
    ensures
        i1 == i2,
        p1 =~= p2,
{
    lemma_node_at2_valid(f.triangles[i1], p1);
    lemma_node_at2_valid(f.triangles[i2], p2);
    lemma_node_at2_index(f.triangles[i1], 8 + i1, 1, md, p1);
    lemma_node_at2_index(f.triangles[i2], 8 + i2, 1, md, p2);
    crate::codec::lemma_path_value_injective(8 + i1, p1, 8 + i2, p2);
}

/// Depth round-trip: in a built planar forest, the depth recovered
/// from a cell's index is the cell's recursion depth.
pub proof fn lemma_depth_round_trip_2d(f: HtmIndex2d, md: int, i: int, p: Seq<int>)
    requires
        forest2_built(f, md),
        0 <= i < 4,
        node_at2(f.triangles[i], p) is Some,
    ensures
        crate::codec::floor_log4(node_at2(f.triangles[i], p).unwrap().index as int) == 1 + p.len(),
{
    lemma_node_at2_valid(f.triangles[i], p);
    lemma_node_at2_index(f.triangles[i], 8 + i, 1, md, p);
    crate::codec::lemma_pow4_step(0);
    crate::codec::lemma_path_value_range(8 + i, p, 1);
    crate::codec::lemma_band_depth(crate::codec::path_value(8 + i, p), 1 + p.len());
}

/// The number of leaves below `t`, a cell at depth `d`.
pub open spec fn leaf_count2(t: Triangle2d, d: int) -> nat
    decreases 25 - d,
{
    match t.children {
        Option::None => 1,
        Option::Some(ch) => {
            if d >= 25 {
                1
            } else {
                leaf_count2(ch[0], d + 1) + leaf_count2(ch[1], d + 1) + leaf_count2(ch[2], d + 1)
                    + leaf_count2(ch[3], d + 1)
            }
        },
    }
}

/// A built subtree at depth `d` has exactly `4^(md - d)` leaves.
proof fn lemma_leaf_count2(t: Triangle2d, index: int, d: int, md: int)
    requires
        triangle2_built(t, index, d, md),
        1 <= d <= 25,
        md <= 25,
    ensures
        leaf_count2(t, d) == pow4(if md > d { (md - d) as nat } else { 0 }),
    decreases 25 - d,
{
    match t.children {
        Option::None => {},
        Option::Some(ch) => {
            lemma_leaf_count2(ch[0], 4 * index + 0, d + 1, md);
            lemma_leaf_count2(ch[1], 4 * index + 1, d + 1, md);
            lemma_leaf_count2(ch[2], 4 * index + 2, d + 1, md);
            lemma_leaf_count2(ch[3], 4 * index + 3, d + 1, md);
            crate::codec::lemma_pow4_step(if md > d + 1 { (md - d - 1) as nat } else { 0 });
        },
    }
}

/// The number of leaves of the whole planar forest.
pub open spec fn forest2_leaves(f: HtmIndex2d) -> nat {
    leaf_count2(f.triangles[0], 1) + leaf_count2(f.triangles[1], 1) + leaf_count2(
        f.triangles[2],
        1,
    ) + leaf_count2(f.triangles[3], 1)
}

/// Leaf count: building the planar forest to depth `md` yields exactly
/// `4 * 4^(md - 1)` leaf cells.
pub proof fn lemma_leaf_count_2d(f: HtmIndex2d, md: int)
    requires
        forest2_built(f, md),
        1 <= md <= 25,
    ensures
        forest2_leaves(f) == 4 * pow4((md - 1) as nat),
{
    lemma_leaf_count2(f.triangles[0], 8, 1, md);
    lemma_leaf_count2(f.triangles[1], 9, 1, md);
    lemma_leaf_count2(f.triangles[2], 10, 1, md);
    lemma_leaf_count2(f.triangles[3], 11, 1, md);
}

/// The vertex set of a cell's triangle.
pub open spec fn tri2_vertex_set(pts: [Vec2i; 3]) -> Set<Vec2i> {
    set![pts[0], pts[1], pts[2]]
}

/// Partition: the four children of a subdivided cell have, between
/// them, exactly the parent's corners and the three edge midpoints as
/// vertices, and those midpoints halve the parent's edges exactly.
pub proof fn lemma_partition_2d(t: Triangle2d, index: int, d: int, md: int)
    requires
        triangle2_built(t, index, d, md),
        t.children is Some,
    ensures
        t.children matches Some(ch) ==> {
            &&& vec2_is_mid(ch[3].points[0], t.points[1], t.points[2])
            &&& vec2_is_mid(ch[3].points[1], t.points[0], t.points[2])
            &&& vec2_is_mid(ch[3].points[2], t.points[0], t.points[1])
            &&& tri2_vertex_set(ch[0].points).union(tri2_vertex_set(ch[1].points)).union(
                tri2_vertex_set(ch[2].points),
            ).union(tri2_vertex_set(ch[3].points)) =~= tri2_vertex_set(t.points).union(
                tri2_vertex_set(ch[3].points),
            )
        },
{
}

} // verus!
