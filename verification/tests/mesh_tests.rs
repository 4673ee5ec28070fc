use bounding_box::geometry::{Coord, Triangle};
use bounding_box::mesh::triangles_from_faces;

fn c(x: i64, y: i64, z: i64) -> Coord {
    Coord { x, y, z }
}

#[test]
fn faces_pick_their_vertices_in_order() {
    let vertices = vec![c(0, 0, 0), c(1, 0, 0), c(0, 1, 0), c(0, 0, 1)];
    let faces = vec![(0usize, 1usize, 2usize), (3, 2, 1)];
    let r = triangles_from_faces(&vertices, &faces).unwrap();
    assert_eq!(r.len(), 2);
    assert_eq!(r[0], Triangle { a: c(0, 0, 0), b: c(1, 0, 0), c: c(0, 1, 0) });
    assert_eq!(r[1], Triangle { a: c(0, 0, 1), b: c(0, 1, 0), c: c(1, 0, 0) });
}

#[test]
fn no_faces_build_no_triangles() {
    let vertices = vec![c(0, 0, 0)];
    let r = triangles_from_faces(&vertices, &vec![]).unwrap();
    assert!(r.is_empty());
}

#[test]
fn an_index_past_the_vertex_list_is_rejected() {
    let vertices = vec![c(0, 0, 0), c(1, 0, 0), c(0, 1, 0)];
    let faces = vec![(0usize, 1usize, 2usize), (1, 3, 2)];
    assert!(triangles_from_faces(&vertices, &faces).is_none());
}
