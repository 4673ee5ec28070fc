use bounding_box::aabb::create_aabb;
use bounding_box::geometry::{Coord, Triangle};
use bounding_box::hierarchy::construct_aabbs;

fn c(x: i64, y: i64, z: i64) -> Coord {
    Coord { x, y, z }
}

fn flat_tri(i: i64) -> Triangle {
    Triangle { a: c(2 * i, 0, 0), b: c(2 * i + 1, 1, 0), c: c(2 * i + 1, 0, 1) }
}

fn eight_triangles() -> Vec<Triangle> {
    (0..8).map(flat_tri).collect()
}

#[test]
fn limit_zero_emits_the_root_alone() {
    let ts = eight_triangles();
    let r = construct_aabbs(&ts, 0, 0);
    assert_eq!(r.len(), 1);
    assert_eq!(r[0], create_aabb(&ts));
}

#[test]
fn eight_triangles_at_limit_one_give_root_and_both_halves() {
    let ts = eight_triangles();
    let r = construct_aabbs(&ts, 0, 1);
    assert_eq!(r.len(), 3);
    assert_eq!(r[0], create_aabb(&ts));
    assert_eq!(r[1], create_aabb(&ts[0..4]));
    assert_eq!(r[2], create_aabb(&ts[4..8]));
}

#[test]
fn permuting_the_input_keeps_the_root_box() {
    let ts = eight_triangles();
    let mut permuted = ts.clone();
    permuted.reverse();
    permuted.swap(1, 5);
    let r1 = construct_aabbs(&ts, 0, 1);
    let r2 = construct_aabbs(&permuted, 0, 1);
    assert_eq!(r1[0], r2[0]);
    // The halves hold different triangles now, so the child boxes move.
    assert_ne!(r1[1], r2[1]);
    assert_ne!(r1[2], r2[2]);
}

#[test]
fn single_triangle_has_the_full_tree_of_one_node() {
    let ts = vec![flat_tri(3)];
    let r = construct_aabbs(&ts, 0, 9);
    assert_eq!(r.len(), 1);
    assert_eq!(r[0], create_aabb(&ts));
}

#[test]
fn splitting_stops_once_depth_passes_log2_of_the_slice() {
    let ts = eight_triangles();
    // Depth 2 would see slices of two triangles, whose log2 is 1 < 2, so
    // even a generous limit emits only the root and the two halves.
    let r = construct_aabbs(&ts, 0, 100);
    assert_eq!(r.len(), 3);
}

#[test]
fn empty_input_emits_no_boxes() {
    let r = construct_aabbs(&[], 0, 5);
    assert!(r.is_empty());
}

#[test]
fn starting_past_the_limit_emits_no_boxes() {
    let ts = eight_triangles();
    let r = construct_aabbs(&ts, 2, 1);
    assert!(r.is_empty());
}

#[test]
fn odd_length_gives_the_smaller_share_to_the_left_half() {
    let ts: Vec<Triangle> = (0..5).map(flat_tri).collect();
    let r = construct_aabbs(&ts, 0, 1);
    assert_eq!(r.len(), 3);
    assert_eq!(r[0], create_aabb(&ts));
    assert_eq!(r[1], create_aabb(&ts[0..2]));
    assert_eq!(r[2], create_aabb(&ts[2..5]));
}
