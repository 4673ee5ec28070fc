//! The geometric data model: points, triangles and axis-aligned boxes.

use vstd::prelude::*;

verus! {

/// A point in 3-space. Each coordinate is a totally ordered integer value;
/// `i64::MAX` and `i64::MIN` play the role of the positive and negative
/// unbounded sentinels that seed the bounding-box folds.
#[derive(Clone, Copy, PartialEq, Eq, PartialOrd, Ord, Hash, Debug, Structural)]
pub struct Coord {
    pub x: i64,
    pub y: i64,
    pub z: i64,
}

/// A triangle: exactly three points. Vertex order matters only for
/// rendering, never for the bounding-box arithmetic.
#[derive(Clone, Copy, PartialEq, Eq, PartialOrd, Ord, Hash, Debug, Structural)]
pub struct Triangle {
    pub a: Coord,
    pub b: Coord,
    pub c: Coord,
}

/// An axis-aligned bounding box, stored as its componentwise least and
/// greatest corners. An empty input produces the inverted sentinel box
/// `min = (MAX, MAX, MAX)`, `max = (MIN, MIN, MIN)`; callers must not
/// assume `min <= max` without checking for emptiness.
#[derive(Clone, Copy, PartialEq, Eq, Hash, Debug, Structural)]
pub struct Aabb {
    pub min: Coord,
    pub max: Coord,
}

/// The coordinate of `c` along axis `k`, with `k` in `0..3` standing for
/// x, y and z in that order.
pub open spec fn axis(c: Coord, k: int) -> int {
    if k == 0 {
        c.x as int
    } else if k == 1 {
        c.y as int
    } else {
        c.z as int
    }
}

/// The vertex of `t` with index `j`, with `j` in `0..3`.
pub open spec fn vertex(t: Triangle, j: int) -> Coord {
    if j == 0 {
        t.a
    } else if j == 1 {
        t.b
    } else {
        t.c
    }
}

/// A point lies in a box when every coordinate sits between the
/// corresponding coordinates of the two corners.
pub open spec fn in_box(b: Aabb, c: Coord) -> bool {
    forall|k: int|
        0 <= k < 3 ==> axis(b.min, k) <= #[trigger] axis(c, k) && axis(c, k) <= axis(b.max, k)
}

/// The corner of box `b` with index `j` in `0..8`, in the order the
/// wireframe renderer walks them: the four corners of the near face (least
/// z), then the four of the far face, each face starting at the least x
/// and y and circling through the greater ones.
pub open spec fn corner(b: Aabb, j: int) -> Coord {
    if j == 0 {
        Coord { x: b.min.x, y: b.min.y, z: b.min.z }
    } else if j == 1 {
        Coord { x: b.max.x, y: b.min.y, z: b.min.z }
    } else if j == 2 {
        Coord { x: b.max.x, y: b.max.y, z: b.min.z }
    } else if j == 3 {
        Coord { x: b.min.x, y: b.max.y, z: b.min.z }
    } else if j == 4 {
        Coord { x: b.min.x, y: b.min.y, z: b.max.z }
    } else if j == 5 {
        Coord { x: b.max.x, y: b.min.y, z: b.max.z }
    } else if j == 6 {
        Coord { x: b.max.x, y: b.max.y, z: b.max.z }
    } else {
        Coord { x: b.min.x, y: b.max.y, z: b.max.z }
    }
}

/// The eight corners of a box, in the order `corner` gives them.
pub fn aabb_corners(b: &Aabb) -> (r: Vec<Coord>)
    ensures
        r@.len() == 8,
        forall|j: int| 0 <= j < 8 ==> r@[j] == corner(*b, j),
{
    let mut r: Vec<Coord> = Vec::new();
    r.push(Coord { x: b.min.x, y: b.min.y, z: b.min.z });
    r.push(Coord { x: b.max.x, y: b.min.y, z: b.min.z });
    r.push(Coord { x: b.max.x, y: b.max.y, z: b.min.z });
    r.push(Coord { x: b.min.x, y: b.max.y, z: b.min.z });
    r.push(Coord { x: b.min.x, y: b.min.y, z: b.max.z });
    r.push(Coord { x: b.max.x, y: b.min.y, z: b.max.z });
    r.push(Coord { x: b.max.x, y: b.max.y, z: b.max.z });
    r.push(Coord { x: b.min.x, y: b.max.y, z: b.max.z });
    r
}

} // verus!
