use htm_index::geometry::Vec3i;
use htm_index::index_3d::{HtmIndex3d, Trixel3d};
use htm_index::raycast::ray_triangle_intersects;
use htm_index::shared::HtmIndex;

use ncollide3d::na::{Isometry3, Point3, Vector3};
use ncollide3d::query::{Ray, RayCast};
use ncollide3d::shape::Triangle;

fn to_point(v: &Vec3i) -> Point3<f32> {
    Point3::new(v.x as f32, v.y as f32, v.z as f32)
}

fn ncollide_hit(dir: &Vec3i, tri: &[Vec3i; 3]) -> bool {
    let triangle = Triangle::new(to_point(&tri[0]), to_point(&tri[1]), to_point(&tri[2]));
    let ray = Ray::new(
        Point3::origin(),
        Vector3::new(dir.x as f32, dir.y as f32, dir.z as f32),
    );
    triangle.intersects_ray(&Isometry3::identity(), &ray, f32::MAX)
}

fn leaves(t: &Trixel3d, out: &mut Vec<[Vec3i; 3]>) {
    match &t.children {
        None => out.push(t.points),
        Some(ch) => {
            for c in ch.iter() {
                leaves(c, out);
            }
        }
    }
}

fn centroid_dir(pts: &[Vec3i; 3]) -> Vec3i {
    Vec3i {
        x: pts[0].x + pts[1].x + pts[2].x,
        y: pts[0].y + pts[1].y + pts[2].y,
        z: pts[0].z + pts[1].z + pts[2].z,
    }
}

/// The exact integer ray test and ncollide3d's floating-point test
/// agree on interior directions, where no rounding ambiguity exists.
#[test]
fn exact_test_agrees_with_ncollide_on_interior_directions() {
    let f = HtmIndex3d::build(2).unwrap();
    let mut tris = Vec::new();
    for t in f.trixels.iter() {
        leaves(t, &mut tris);
    }
    let dirs: Vec<Vec3i> = tris.iter().map(centroid_dir).collect();
    let mut hits = 0usize;
    for dir in &dirs {
        for tri in &tris {
            let exact = ray_triangle_intersects(dir, &tri[0], &tri[1], &tri[2]);
            let float = ncollide_hit(dir, tri);
            assert_eq!(exact, float);
            if exact {
                hits += 1;
            }
        }
    }
    // each centroid direction pierces the leaf it came from, and the
    // centroids of the two inner children lie exactly on an edge of
    // each other's triangle, one boundary hit per such pair
    assert_eq!(hits, 48);
}

#[test]
fn exact_test_rejects_directions_away_from_a_face() {
    let face = [
        Vec3i { x: 0x1000000, y: 0, z: 0 },
        Vec3i { x: 0, y: 0, z: -0x1000000 },
        Vec3i { x: 0, y: 0x1000000, z: 0 },
    ];
    let away = Vec3i { x: -3, y: -4, z: 5 };
    assert!(!ray_triangle_intersects(&away, &face[0], &face[1], &face[2]));
    assert!(!ncollide_hit(&away, &face));
    let toward = Vec3i { x: 5, y: 4, z: -3 };
    assert!(ray_triangle_intersects(&toward, &face[0], &face[1], &face[2]));
    assert!(ncollide_hit(&toward, &face));
}
