use htm_index::depth;
use htm_index::geometry::{Vec2i, Vec3i, SCALE};
use htm_index::index_2d::{HtmIndex2d, Triangle2d};
use htm_index::index_3d::{HtmIndex3d, Trixel3d};
use htm_index::shared::{BuildError, HtmIndex};

fn v3(x: i64, y: i64, z: i64) -> Vec3i {
    Vec3i { x, y, z }
}

fn leaves3(t: &Trixel3d, level: u8, out: &mut Vec<(u64, u8, [Vec3i; 3])>) {
    match &t.children {
        None => out.push((t.index, level, t.points)),
        Some(ch) => {
            for c in ch.iter() {
                leaves3(c, level + 1, out);
            }
        }
    }
}

fn all_nodes3(t: &Trixel3d, level: u8, out: &mut Vec<(u64, u8)>) {
    out.push((t.index, level));
    if let Some(ch) = &t.children {
        for c in ch.iter() {
            all_nodes3(c, level + 1, out);
        }
    }
}

fn all_cells3(t: &Trixel3d, out: &mut Vec<(u64, [Vec3i; 3])>) {
    out.push((t.index, t.points));
    if let Some(ch) = &t.children {
        for c in ch.iter() {
            all_cells3(c, out);
        }
    }
}

fn all_nodes2(t: &Triangle2d, level: u8, out: &mut Vec<(u64, u8)>) {
    out.push((t.index, level));
    if let Some(ch) = &t.children {
        for c in ch.iter() {
            all_nodes2(c, level + 1, out);
        }
    }
}

fn leaves2(t: &Triangle2d, out: &mut Vec<(u64, [Vec2i; 3])>) {
    match &t.children {
        None => out.push((t.index, t.points)),
        Some(ch) => {
            for c in ch.iter() {
                leaves2(c, out);
            }
        }
    }
}

#[test]
fn build_rejects_depth_26() {
    assert!(matches!(HtmIndex3d::build(26), Err(BuildError::DepthLimitExceeded)));
    assert!(matches!(HtmIndex2d::build(26), Err(BuildError::DepthLimitExceeded)));
    assert!(matches!(HtmIndex3d::build(255), Err(BuildError::DepthLimitExceeded)));
}

#[test]
fn build_accepts_boundary_depths() {
    assert!(HtmIndex3d::build(0).is_ok());
    assert!(HtmIndex2d::build(0).is_ok());
    assert!(HtmIndex3d::build(5).is_ok());
    assert!(HtmIndex2d::build(6).is_ok());
}

#[test]
fn spherical_depth_one_faces() {
    let f = HtmIndex3d::build(1).unwrap();
    let s = SCALE;
    let expected = [
        (0b1000u64, [v3(s, 0, 0), v3(0, 0, -s), v3(0, s, 0)]),
        (0b1001u64, [v3(0, s, 0), v3(0, 0, -s), v3(-s, 0, 0)]),
        (0b1010u64, [v3(-s, 0, 0), v3(0, 0, -s), v3(0, -s, 0)]),
        (0b1011u64, [v3(0, -s, 0), v3(0, 0, -s), v3(s, 0, 0)]),
        (0b1100u64, [v3(s, 0, 0), v3(0, 0, s), v3(0, -s, 0)]),
        (0b1101u64, [v3(0, -s, 0), v3(0, 0, s), v3(-s, 0, 0)]),
        (0b1110u64, [v3(-s, 0, 0), v3(0, 0, s), v3(0, s, 0)]),
        (0b1111u64, [v3(0, s, 0), v3(0, 0, s), v3(s, 0, 0)]),
    ];
    for (i, trixel) in f.trixels.iter().enumerate() {
        assert!(trixel.children.is_none());
        assert_eq!(trixel.index, expected[i].0);
        for k in 0..3 {
            assert_eq!(trixel.points[k].x, expected[i].1[k].x);
            assert_eq!(trixel.points[k].y, expected[i].1[k].y);
            assert_eq!(trixel.points[k].z, expected[i].1[k].z);
        }
    }
}

#[test]
fn planar_depth_one_faces() {
    let f = HtmIndex2d::build(1).unwrap();
    let s = SCALE;
    let expected = [
        (0b1000u64, [(0, 0), (-s, -s), (s, -s)]),
        (0b1001u64, [(0, 0), (s, -s), (s, s)]),
        (0b1010u64, [(0, 0), (s, s), (-s, s)]),
        (0b1011u64, [(0, 0), (-s, s), (-s, -s)]),
    ];
    for (i, tri) in f.triangles.iter().enumerate() {
        assert!(tri.children.is_none());
        assert_eq!(tri.index, expected[i].0);
        for k in 0..3 {
            assert_eq!(tri.points[k].x, expected[i].1[k].0);
            assert_eq!(tri.points[k].y, expected[i].1[k].1);
        }
    }
}

#[test]
fn spherical_leaf_count() {
    let f = HtmIndex3d::build(3).unwrap();
    let mut out = Vec::new();
    for t in f.trixels.iter() {
        leaves3(t, 1, &mut out);
    }
    // 8 * 4^(3-1)
    assert_eq!(out.len(), 128);
    for (_, level, _) in &out {
        assert_eq!(*level, 3);
    }
}

#[test]
fn planar_leaf_count() {
    let f = HtmIndex2d::build(3).unwrap();
    let mut out = Vec::new();
    for t in f.triangles.iter() {
        leaves2(t, &mut out);
    }
    // 4 * 4^(3-1)
    assert_eq!(out.len(), 64);
}

#[test]
fn depth_of_known_indices() {
    assert_eq!(depth(1), 0);
    assert_eq!(depth(3), 0);
    assert_eq!(depth(4), 1);
    assert_eq!(depth(8), 1);
    assert_eq!(depth(15), 1);
    assert_eq!(depth(16), 2);
    assert_eq!(depth(0b1000_11), 2);
    assert_eq!(depth(0b1111_01_10), 3);
    assert_eq!(depth((1u64 << 52) - 1), 25);
    assert_eq!(depth(u64::MAX), 31);
}

#[test]
fn index_uniqueness_per_depth() {
    let f = HtmIndex3d::build(3).unwrap();
    let mut nodes = Vec::new();
    for t in f.trixels.iter() {
        all_nodes3(t, 1, &mut nodes);
    }
    for level in 1..=3u8 {
        let mut ids: Vec<u64> =
            nodes.iter().filter(|(_, l)| *l == level).map(|(i, _)| *i).collect();
        let n = ids.len();
        ids.sort();
        ids.dedup();
        assert_eq!(ids.len(), n);
    }
    let f2 = HtmIndex2d::build(3).unwrap();
    let mut nodes2 = Vec::new();
    for t in f2.triangles.iter() {
        all_nodes2(t, 1, &mut nodes2);
    }
    for level in 1..=3u8 {
        let mut ids: Vec<u64> =
            nodes2.iter().filter(|(_, l)| *l == level).map(|(i, _)| *i).collect();
        let n = ids.len();
        ids.sort();
        ids.dedup();
        assert_eq!(ids.len(), n);
    }
}

#[test]
fn depth_recovers_level_of_every_node() {
    let f = HtmIndex3d::build(4).unwrap();
    let mut nodes = Vec::new();
    for t in f.trixels.iter() {
        all_nodes3(t, 1, &mut nodes);
    }
    for (index, level) in nodes {
        assert_eq!(depth(index), level);
    }
    let f2 = HtmIndex2d::build(4).unwrap();
    let mut nodes2 = Vec::new();
    for t in f2.triangles.iter() {
        all_nodes2(t, 1, &mut nodes2);
    }
    for (index, level) in nodes2 {
        assert_eq!(depth(index), level);
    }
}

#[test]
fn locate_returns_a_cell_containing_the_direction() {
    let f = HtmIndex3d::build(3).unwrap();
    let mut cells = Vec::new();
    for t in f.trixels.iter() {
        all_cells3(t, &mut cells);
    }
    let mut out = Vec::new();
    for t in f.trixels.iter() {
        leaves3(t, 1, &mut out);
    }
    for (_, _, pts) in out {
        // three times the centroid: an interior direction of this leaf
        let dir = v3(
            pts[0].x + pts[1].x + pts[2].x,
            pts[0].y + pts[1].y + pts[2].y,
            pts[0].z + pts[1].z + pts[2].z,
        );
        let found = f.get_index_by_direction(dir);
        let cell = cells.iter().find(|(i, _)| *i == found).expect("a cell of the tree");
        assert!(htm_index::raycast::ray_triangle_intersects(
            &dir, &cell.1[0], &cell.1[1], &cell.1[2],
        ));
    }
}

#[test]
fn locate_scenario_depth_two() {
    let f = HtmIndex3d::build(2).unwrap();
    // centroid directions of the four children of the first root face
    assert_eq!(f.get_index_by_direction(v3(33554432, 8388608, -8388608)), 32);
    assert_eq!(f.get_index_by_direction(v3(8388608, 8388608, -33554432)), 33);
    assert_eq!(f.get_index_by_direction(v3(16777216, 25165824, -8388608)), 34);
    // the center child's centroid lies exactly on an edge of its
    // neighbor, which the scan meets first
    assert_eq!(f.get_index_by_direction(v3(16777216, 16777216, -16777216)), 34);
}

#[test]
fn locate_by_leaf_vertex_lands_on_a_cell_containing_it() {
    let f = HtmIndex3d::build(2).unwrap();
    let mut cells = Vec::new();
    for t in f.trixels.iter() {
        all_cells3(t, &mut cells);
    }
    let mut out = Vec::new();
    for t in f.trixels.iter() {
        leaves3(t, 1, &mut out);
    }
    for (_, _, pts) in out {
        for k in 0..3 {
            // a leaf vertex is shared by several cells; whichever cell
            // comes back must have the vertex direction on its triangle
            let vertex = pts[k];
            let found = f.get_index_by_direction(vertex);
            let cell = cells.iter().find(|(i, _)| *i == found).expect("a cell of the tree");
            assert!(htm_index::raycast::ray_triangle_intersects(
                &vertex, &cell.1[0], &cell.1[1], &cell.1[2],
            ));
        }
    }
}

#[test]
fn locate_depth_matches_tree_depth() {
    let f = HtmIndex3d::build(4).unwrap();
    // an ordinary interior direction, away from any subdivision plane
    let found = f.get_index_by_direction(v3(1_234_567, 2_345_678, 3_456_789));
    assert!(found >= 8);
    assert!(depth(found) <= 4);
}
