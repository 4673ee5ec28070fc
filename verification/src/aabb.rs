//! Tightest axis-aligned bounding boxes over triangle sequences.

use vstd::prelude::*;

use crate::geometry::{axis, in_box, vertex, Aabb, Coord, Triangle};

verus! {

/// The least coordinate of triangle `t` along axis `k`.
pub open spec fn tri_lo(t: Triangle, k: int) -> int {
    vstd::math::min(vstd::math::min(axis(t.a, k), axis(t.b, k)), axis(t.c, k))
}

/// The greatest coordinate of triangle `t` along axis `k`.
pub open spec fn tri_hi(t: Triangle, k: int) -> int {
    vstd::math::max(vstd::math::max(axis(t.a, k), axis(t.b, k)), axis(t.c, k))
}

/// The least coordinate along axis `k` over every vertex of every triangle
/// of `ts`, folded from the seed `i64::MAX`: the sentinel that an empty
/// input leaves untouched.
pub open spec fn lo(ts: Seq<Triangle>, k: int) -> int
    decreases ts.len(),
{
    if ts.len() == 0 {
        i64::MAX as int
    } else {
        vstd::math::min(lo(ts.drop_last(), k), tri_lo(ts.last(), k))
    }
}

/// The greatest coordinate along axis `k` over every vertex of every
/// triangle of `ts`, folded from the seed `i64::MIN`.
pub open spec fn hi(ts: Seq<Triangle>, k: int) -> int
    decreases ts.len(),
{
    if ts.len() == 0 {
        i64::MIN as int
    } else {
        vstd::math::max(hi(ts.drop_last(), k), tri_hi(ts.last(), k))
    }
}

/// The tightest box around every vertex of every triangle of `ts`; the
/// inverted sentinel box when `ts` is empty.
pub open spec fn aabb_of(ts: Seq<Triangle>) -> Aabb {
    Aabb {
        min: Coord { x: lo(ts, 0) as i64, y: lo(ts, 1) as i64, z: lo(ts, 2) as i64 },
        max: Coord { x: hi(ts, 0) as i64, y: hi(ts, 1) as i64, z: hi(ts, 2) as i64 },
    }
}

/// Both folds stay within the range of their seeds, so storing them back
/// into `i64` fields loses nothing.
pub proof fn lemma_lo_hi_in_range(ts: Seq<Triangle>, k: int)
    ensures
        i64::MIN <= lo(ts, k) <= i64::MAX,
        i64::MIN <= hi(ts, k) <= i64::MAX,
    decreases ts.len(),
{
    if ts.len() > 0 {
        lemma_lo_hi_in_range(ts.drop_last(), k);
    }
}

/// Along axis `k`, the min-fold over a non-empty sequence is a lower bound
/// on every vertex coordinate and is attained by some vertex.
pub proof fn lemma_lo_bound_attained(ts: Seq<Triangle>, k: int)
    requires
        ts.len() > 0,
    ensures
        forall|i: int, j: int|
            0 <= i < ts.len() && 0 <= j < 3 ==> lo(ts, k) <= axis(#[trigger] vertex(ts[i], j), k),
        exists|i: int, j: int|
            0 <= i < ts.len() && 0 <= j < 3 && axis(#[trigger] vertex(ts[i], j), k) == lo(ts, k),
    decreases ts.len(),
{
    let rest = ts.drop_last();
    let t = ts.last();
    if rest.len() == 0 {
        assert(lo(ts, k) == tri_lo(t, k));
        assert forall|i: int, j: int|
            0 <= i < ts.len() && 0 <= j < 3 implies lo(ts, k) <= axis(
            #[trigger] vertex(ts[i], j),
            k,
        ) by {
            assert(ts[i] == t);
        }
        lemma_tri_lo_attained(ts, ts.len() - 1, k);
    } else {
        lemma_lo_bound_attained(rest, k);
        assert forall|i: int, j: int|
            0 <= i < ts.len() && 0 <= j < 3 implies lo(ts, k) <= axis(
            #[trigger] vertex(ts[i], j),
            k,
        ) by {
            if i < ts.len() - 1 {
                assert(ts[i] == rest[i]);
                assert(lo(rest, k) <= axis(vertex(rest[i], j), k));
            } else {
                assert(ts[i] == t);
            }
        }
        if lo(rest, k) <= tri_lo(t, k) {
            let (i0, j0) = choose|i0: int, j0: int|
                0 <= i0 < rest.len() && 0 <= j0 < 3 && axis(#[trigger] vertex(rest[i0], j0), k)
                    == lo(rest, k);
            assert(ts[i0] == rest[i0]);
            assert(axis(vertex(ts[i0], j0), k) == lo(ts, k));
        } else {
            lemma_tri_lo_attained(ts, ts.len() - 1, k);
        }
    }
}

/// The least coordinate of the triangle at index `i` is attained by one of
/// its three vertices.
proof fn lemma_tri_lo_attained(ts: Seq<Triangle>, i: int, k: int)
    requires
        0 <= i < ts.len(),
        lo(ts, k) == tri_lo(ts[i], k),
    ensures
        exists|i0: int, j0: int|
            0 <= i0 < ts.len() && 0 <= j0 < 3 && axis(#[trigger] vertex(ts[i0], j0), k) == lo(
                ts,
                k,
            ),
{
    let t = ts[i];
    if tri_lo(t, k) == axis(t.a, k) {
        assert(axis(vertex(ts[i], 0), k) == lo(ts, k));
    } else if tri_lo(t, k) == axis(t.b, k) {
        assert(axis(vertex(ts[i], 1), k) == lo(ts, k));
    } else {
        assert(axis(vertex(ts[i], 2), k) == lo(ts, k));
    }
}

/// Along axis `k`, the max-fold over a non-empty sequence is an upper bound
/// on every vertex coordinate and is attained by some vertex.
pub proof fn lemma_hi_bound_attained(ts: Seq<Triangle>, k: int)
    requires
        ts.len() > 0,
    ensures
        forall|i: int, j: int|
            0 <= i < ts.len() && 0 <= j < 3 ==> axis(#[trigger] vertex(ts[i], j), k) <= hi(ts, k),
        exists|i: int, j: int|
            0 <= i < ts.len() && 0 <= j < 3 && axis(#[trigger] vertex(ts[i], j), k) == hi(ts, k),
    decreases ts.len(),
{
    let rest = ts.drop_last();
    let t = ts.last();
    if rest.len() == 0 {
        assert(hi(ts, k) == tri_hi(t, k));
        assert forall|i: int, j: int|
            0 <= i < ts.len() && 0 <= j < 3 implies axis(#[trigger] vertex(ts[i], j), k) <= hi(
            ts,
            k,
        ) by {
            assert(ts[i] == t);
        }
        lemma_tri_hi_attained(ts, ts.len() - 1, k);
    } else {
        lemma_hi_bound_attained(rest, k);
        assert forall|i: int, j: int|
            0 <= i < ts.len() && 0 <= j < 3 implies axis(#[trigger] vertex(ts[i], j), k) <= hi(
            ts,
            k,
        ) by {
            if i < ts.len() - 1 {
                assert(ts[i] == rest[i]);
                assert(axis(vertex(rest[i], j), k) <= hi(rest, k));
            } else {
                assert(ts[i] == t);
            }
        }
        if hi(rest, k) >= tri_hi(t, k) {
            let (i0, j0) = choose|i0: int, j0: int|
                0 <= i0 < rest.len() && 0 <= j0 < 3 && axis(#[trigger] vertex(rest[i0], j0), k)
                    == hi(rest, k);
            assert(ts[i0] == rest[i0]);
            assert(axis(vertex(ts[i0], j0), k) == hi(ts, k));
        } else {
            lemma_tri_hi_attained(ts, ts.len() - 1, k);
        }
    }
}

/// The greatest coordinate of the triangle at index `i` is attained by one
/// of its three vertices.
proof fn lemma_tri_hi_attained(ts: Seq<Triangle>, i: int, k: int)
    requires
        0 <= i < ts.len(),
        hi(ts, k) == tri_hi(ts[i], k),
    ensures
        exists|i0: int, j0: int|
            0 <= i0 < ts.len() && 0 <= j0 < 3 && axis(#[trigger] vertex(ts[i0], j0), k) == hi(
                ts,
                k,
            ),
{
    let t = ts[i];
    if tri_hi(t, k) == axis(t.a, k) {
        assert(axis(vertex(ts[i], 0), k) == hi(ts, k));
    } else if tri_hi(t, k) == axis(t.b, k) {
        assert(axis(vertex(ts[i], 1), k) == hi(ts, k));
    } else {
        assert(axis(vertex(ts[i], 2), k) == hi(ts, k));
    }
}

/// The box of a non-empty input is tight: every vertex of every triangle
/// lies inside it, and along each axis both faces are attained by some
/// vertex, so no strictly smaller box encloses the input.
pub proof fn lemma_aabb_tightest(ts: Seq<Triangle>)
    requires
        ts.len() > 0,
    ensures
        forall|i: int, j: int|
            0 <= i < ts.len() && 0 <= j < 3 ==> in_box(aabb_of(ts), #[trigger] vertex(ts[i], j)),
        forall|k: int|
            0 <= k < 3 ==> #[trigger] axis(aabb_of(ts).min, k) == lo(ts, k) && axis(
                aabb_of(ts).max,
                k,
            ) == hi(ts, k),
        forall|k: int|
            0 <= k < 3 ==> exists|i: int, j: int|
                0 <= i < ts.len() && 0 <= j < 3 && axis(#[trigger] vertex(ts[i], j), k) == #[trigger] lo(
                    ts,
                    k,
                ),
        forall|k: int|
            0 <= k < 3 ==> exists|i: int, j: int|
                0 <= i < ts.len() && 0 <= j < 3 && axis(#[trigger] vertex(ts[i], j), k) == #[trigger] hi(
                    ts,
                    k,
                ),
{
    let b = aabb_of(ts);
    lemma_lo_hi_in_range(ts, 0);
    lemma_lo_hi_in_range(ts, 1);
    lemma_lo_hi_in_range(ts, 2);
    lemma_lo_bound_attained(ts, 0);
    lemma_lo_bound_attained(ts, 1);
    lemma_lo_bound_attained(ts, 2);
    lemma_hi_bound_attained(ts, 0);
    lemma_hi_bound_attained(ts, 1);
    lemma_hi_bound_attained(ts, 2);
    assert forall|k: int|
        0 <= k < 3 implies #[trigger] axis(b.min, k) == lo(ts, k) && axis(b.max, k) == hi(
        ts,
        k,
    ) by {
        if k == 0 {
            assert(axis(b.min, 0) == lo(ts, 0) && axis(b.max, 0) == hi(ts, 0));
        } else if k == 1 {
            assert(axis(b.min, 1) == lo(ts, 1) && axis(b.max, 1) == hi(ts, 1));
        } else {
            assert(axis(b.min, 2) == lo(ts, 2) && axis(b.max, 2) == hi(ts, 2));
        }
    }
    assert forall|i: int, j: int|
        0 <= i < ts.len() && 0 <= j < 3 implies in_box(b, #[trigger] vertex(ts[i], j)) by {
        let v = vertex(ts[i], j);
        assert forall|k: int| 0 <= k < 3 implies axis(b.min, k) <= #[trigger] axis(v, k) && axis(
            v,
            k,
        ) <= axis(b.max, k) by {
            if k == 0 {
                assert(lo(ts, 0) <= axis(v, 0) <= hi(ts, 0));
            } else if k == 1 {
                assert(lo(ts, 1) <= axis(v, 1) <= hi(ts, 1));
            } else {
                assert(lo(ts, 2) <= axis(v, 2) <= hi(ts, 2));
            }
        }
    }
}

/// The box of the whole input depends only on which triangles occur, with
/// their multiplicities, never on their order: reordering the input leaves
/// the root box unchanged, though it changes which triangles fall into
/// which half of a positional split.
pub proof fn lemma_aabb_of_permutation(ts1: Seq<Triangle>, ts2: Seq<Triangle>)
    requires
        ts1.to_multiset() == ts2.to_multiset(),
    ensures
        aabb_of(ts1) == aabb_of(ts2),
{
    broadcast use vstd::seq_lib::group_to_multiset_ensures;

    assert(ts1.to_multiset().len() == ts1.len());
    assert(ts2.to_multiset().len() == ts2.len());
    if ts1.len() == 0 {
        assert(ts2.len() == 0);
    } else {
        assert(ts2.len() > 0);
        lemma_lo_le_permuted(ts1, ts2, 0);
        lemma_lo_le_permuted(ts1, ts2, 1);
        lemma_lo_le_permuted(ts1, ts2, 2);
        lemma_lo_le_permuted(ts2, ts1, 0);
        lemma_lo_le_permuted(ts2, ts1, 1);
        lemma_lo_le_permuted(ts2, ts1, 2);
        lemma_hi_ge_permuted(ts1, ts2, 0);
        lemma_hi_ge_permuted(ts1, ts2, 1);
        lemma_hi_ge_permuted(ts1, ts2, 2);
        lemma_hi_ge_permuted(ts2, ts1, 0);
        lemma_hi_ge_permuted(ts2, ts1, 1);
        lemma_hi_ge_permuted(ts2, ts1, 2);
    }
}

/// Every triangle of `ts2` also occurs in `ts1`, so the min-fold of `ts1`
/// is at most the min-fold of `ts2`.
proof fn lemma_lo_le_permuted(ts1: Seq<Triangle>, ts2: Seq<Triangle>, k: int)
    requires
        ts1.to_multiset() == ts2.to_multiset(),
        ts1.len() > 0,
        ts2.len() > 0,
    ensures
        lo(ts1, k) <= lo(ts2, k),
{
    broadcast use vstd::seq_lib::group_to_multiset_ensures;

    lemma_lo_bound_attained(ts2, k);
    let (i2, j2) = choose|i2: int, j2: int|
        0 <= i2 < ts2.len() && 0 <= j2 < 3 && axis(#[trigger] vertex(ts2[i2], j2), k) == lo(
            ts2,
            k,
        );
    let t = ts2[i2];
    assert(ts2.contains(t));
    assert(ts1.to_multiset().count(t) > 0);
    assert(ts1.contains(t));
    let i1 = choose|i1: int| 0 <= i1 < ts1.len() && ts1[i1] == t;
    lemma_lo_bound_attained(ts1, k);
    assert(lo(ts1, k) <= axis(vertex(ts1[i1], j2), k));
}

/// Every triangle of `ts2` also occurs in `ts1`, so the max-fold of `ts1`
/// is at least the max-fold of `ts2`.
proof fn lemma_hi_ge_permuted(ts1: Seq<Triangle>, ts2: Seq<Triangle>, k: int)
    requires
        ts1.to_multiset() == ts2.to_multiset(),
        ts1.len() > 0,
        ts2.len() > 0,
    ensures
        hi(ts1, k) >= hi(ts2, k),
{
    broadcast use vstd::seq_lib::group_to_multiset_ensures;

    lemma_hi_bound_attained(ts2, k);
    let (i2, j2) = choose|i2: int, j2: int|
        0 <= i2 < ts2.len() && 0 <= j2 < 3 && axis(#[trigger] vertex(ts2[i2], j2), k) == hi(
            ts2,
            k,
        );
    let t = ts2[i2];
    assert(ts2.contains(t));
    assert(ts1.to_multiset().count(t) > 0);
    assert(ts1.contains(t));
    let i1 = choose|i1: int| 0 <= i1 < ts1.len() && ts1[i1] == t;
    lemma_hi_bound_attained(ts1, k);
    assert(axis(vertex(ts1[i1], j2), k) <= hi(ts1, k));
}

/// The smaller of two coordinate values.
fn min_i64(a: i64, b: i64) -> (r: i64)
    ensures
        r as int == vstd::math::min(a as int, b as int),
{
    if a <= b {
        a
    } else {
        b
    }
}

/// The larger of two coordinate values.
fn max_i64(a: i64, b: i64) -> (r: i64)
    ensures
        r as int == vstd::math::max(a as int, b as int),
{
    if a >= b {
        a
    } else {
        b
    }
}

/// The tightest-fitting axis-aligned bounding box of every vertex of every
/// triangle in the slice. Each axis is reduced independently: a min-fold
/// seeded at the greatest representable coordinate and a max-fold seeded at
/// the least, so an empty slice yields the inverted sentinel box.
pub fn create_aabb(triangles: &[Triangle]) -> (r: Aabb)
    ensures
        r == aabb_of(triangles@),
{
    let mut min_x: i64 = i64::MAX;
    let mut min_y: i64 = i64::MAX;
    let mut min_z: i64 = i64::MAX;
    let mut max_x: i64 = i64::MIN;
    let mut max_y: i64 = i64::MIN;
    let mut max_z: i64 = i64::MIN;

    let n = triangles.len();
    let mut i: usize = 0;
    while i < n
        invariant
            i <= n,
            n == triangles@.len(),
            min_x as int == lo(triangles@.subrange(0, i as int), 0),
            min_y as int == lo(triangles@.subrange(0, i as int), 1),
            min_z as int == lo(triangles@.subrange(0, i as int), 2),
            max_x as int == hi(triangles@.subrange(0, i as int), 0),
            max_y as int == hi(triangles@.subrange(0, i as int), 1),
            max_z as int == hi(triangles@.subrange(0, i as int), 2),
        decreases n - i,
    {
        let t = triangles[i];
        min_x = min_i64(min_x, min_i64(min_i64(t.a.x, t.b.x), t.c.x));
        min_y = min_i64(min_y, min_i64(min_i64(t.a.y, t.b.y), t.c.y));
        min_z = min_i64(min_z, min_i64(min_i64(t.a.z, t.b.z), t.c.z));
        max_x = max_i64(max_x, max_i64(max_i64(t.a.x, t.b.x), t.c.x));
        max_y = max_i64(max_y, max_i64(max_i64(t.a.y, t.b.y), t.c.y));
        max_z = max_i64(max_z, max_i64(max_i64(t.a.z, t.b.z), t.c.z));
        proof {
            let pre = triangles@.subrange(0, i + 1);
            assert(pre.drop_last() =~= triangles@.subrange(0, i as int));
            assert(pre.last() == triangles@[i as int]);
        }
        i = i + 1;
    }
    proof {
        assert(triangles@.subrange(0, n as int) =~= triangles@);
    }
    Aabb {
        min: Coord { x: min_x, y: min_y, z: min_z },
        max: Coord { x: max_x, y: max_y, z: max_z },
    }
}

} // verus!
