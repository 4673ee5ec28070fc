//! Assembling triangles from an indexed mesh: a vertex list and one
//! triple of vertex indices per face.

use vstd::prelude::*;

use crate::geometry::{Coord, Triangle};

verus! {

/// Every index of every face points into the vertex list.
pub open spec fn faces_in_range(vs: Seq<Coord>, faces: Seq<(usize, usize, usize)>) -> bool {
    forall|i: int|
        0 <= i < faces.len() ==> (#[trigger] faces[i]).0 < vs.len() && faces[i].1 < vs.len()
            && faces[i].2 < vs.len()
}

/// The triangle a face denotes: the three indexed vertices, in the order
/// the face lists them.
pub open spec fn face_triangle(vs: Seq<Coord>, f: (usize, usize, usize)) -> Triangle {
    Triangle { a: vs[f.0 as int], b: vs[f.1 as int], c: vs[f.2 as int] }
}

/// Builds one triangle per face from the vertex list, in face order.
/// Returns `None` exactly when some face points past the end of the
/// vertex list; the mesh loader treats that as a fatal format violation.
pub fn triangles_from_faces(vertices: &Vec<Coord>, faces: &Vec<(usize, usize, usize)>) -> (r:
    Option<Vec<Triangle>>)
    ensures
        r is Some <==> faces_in_range(vertices@, faces@),
        r is Some ==> r->Some_0@.len() == faces@.len(),
        r is Some ==> forall|i: int|
            0 <= i < faces@.len() ==> r->Some_0@[i] == face_triangle(vertices@, faces@[i]),
{
    let mut out: Vec<Triangle> = Vec::new();
    let mut i: usize = 0;
    while i < faces.len()
        invariant
            i <= faces@.len(),
            out@.len() == i,
            forall|j: int|
                0 <= j < i ==> (#[trigger] faces@[j]).0 < vertices@.len() && faces@[j].1
                    < vertices@.len() && faces@[j].2 < vertices@.len(),
            forall|j: int| 0 <= j < i ==> out@[j] == face_triangle(vertices@, faces@[j]),
        decreases faces@.len() - i,
    {
        let f = faces[i];
        if f.0 >= vertices.len() || f.1 >= vertices.len() || f.2 >= vertices.len() {
            return None;
        }
        out.push(Triangle { a: vertices[f.0], b: vertices[f.1], c: vertices[f.2] });
        i = i + 1;
    }
    Some(out)
}

} // verus!
