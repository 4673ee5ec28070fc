use bounding_box::aabb::create_aabb;
use bounding_box::geometry::{aabb_corners, Aabb, Coord, Triangle};

fn c(x: i64, y: i64, z: i64) -> Coord {
    Coord { x, y, z }
}

fn tri(a: Coord, b: Coord, cc: Coord) -> Triangle {
    Triangle { a, b, c: cc }
}

#[test]
fn empty_input_gives_inverted_sentinel_box() {
    let r = create_aabb(&[]);
    assert_eq!(r.min, c(i64::MAX, i64::MAX, i64::MAX));
    assert_eq!(r.max, c(i64::MIN, i64::MIN, i64::MIN));
}

#[test]
fn single_triangle_box_is_exact() {
    let t = tri(c(1, 7, -2), c(5, 0, 3), c(-4, 2, 9));
    let r = create_aabb(&[t]);
    assert_eq!(r.min, c(-4, 0, -2));
    assert_eq!(r.max, c(5, 7, 9));
}

#[test]
fn box_bounds_every_vertex_and_is_attained() {
    let t1 = tri(c(0, 0, 0), c(10, -3, 4), c(2, 8, -7));
    let t2 = tri(c(-5, 1, 1), c(3, 3, 12), c(6, -9, 0));
    let ts = [t1, t2];
    let r = create_aabb(&ts);
    assert_eq!(r.min, c(-5, -9, -7));
    assert_eq!(r.max, c(10, 8, 12));
    for t in &ts {
        for v in [t.a, t.b, t.c] {
            assert!(r.min.x <= v.x && v.x <= r.max.x);
            assert!(r.min.y <= v.y && v.y <= r.max.y);
            assert!(r.min.z <= v.z && v.z <= r.max.z);
        }
    }
    let vs: Vec<Coord> = ts.iter().flat_map(|t| [t.a, t.b, t.c]).collect();
    assert!(vs.iter().any(|v| v.x == r.min.x));
    assert!(vs.iter().any(|v| v.y == r.min.y));
    assert!(vs.iter().any(|v| v.z == r.min.z));
    assert!(vs.iter().any(|v| v.x == r.max.x));
    assert!(vs.iter().any(|v| v.y == r.max.y));
    assert!(vs.iter().any(|v| v.z == r.max.z));
}

#[test]
fn corners_walk_near_face_then_far_face() {
    let b = Aabb { min: c(0, 1, 2), max: c(10, 11, 12) };
    let r = aabb_corners(&b);
    let expected = vec![
        c(0, 1, 2),
        c(10, 1, 2),
        c(10, 11, 2),
        c(0, 11, 2),
        c(0, 1, 12),
        c(10, 1, 12),
        c(10, 11, 12),
        c(0, 11, 12),
    ];
    assert_eq!(r, expected);
}
