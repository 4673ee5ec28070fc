//! The flat pre-order hierarchy of bounding boxes over a positional
//! bisection of the triangle array.

use vstd::prelude::*;

use crate::aabb::{aabb_of, create_aabb, lemma_aabb_of_permutation};
use crate::geometry::{Aabb, Triangle};

verus! {

/// The floor of the base-two logarithm; zero on inputs below two.
pub open spec fn log2(n: nat) -> nat
    decreases n,
{
    if n <= 1 {
        0
    } else {
        1 + log2(n / 2)
    }
}

/// Two raised to the power `e`.
pub open spec fn pow2(e: nat) -> nat
    decreases e,
{
    if e == 0 {
        1
    } else {
        2 * pow2((e - 1) as nat)
    }
}

/// The floor of the logarithm sits strictly below its positive argument.
pub proof fn lemma_log2_lt(n: nat)
    requires
        n >= 1,
    ensures
        log2(n) < n,
    decreases n,
{
    if n > 1 {
        lemma_log2_lt(n / 2);
    }
}

/// The pre-order list of boxes that the build emits for the triangles
/// `ts` at recursion depth `times` under the depth bound `limit`.
///
/// A call contributes nothing once the depth passes the bound or passes
/// the floor of the logarithm of the slice length; an empty slice is
/// terminal outright. Otherwise it emits the box of the whole slice,
/// followed by the lists of the two halves of a floor-division split, one
/// level deeper: the root first, then the left subtree, then the right.
pub open spec fn construct_aabbs_spec(ts: Seq<Triangle>, times: nat, limit: nat) -> Seq<Aabb>
    decreases limit + 1 - times,
{
    if times > limit || ts.len() == 0 || times > log2(ts.len()) {
        Seq::empty()
    } else {
        seq![aabb_of(ts)] + construct_aabbs_spec(ts.take(ts.len() as int / 2), times + 1, limit)
            + construct_aabbs_spec(ts.skip(ts.len() as int / 2), times + 1, limit)
    }
}

/// Whether `times` exceeds the floor of the base-two logarithm of `len`,
/// decided by halving `len` once per unit of `times`.
fn depth_past_log2(len: usize, times: usize) -> (r: bool)
    requires
        len >= 1,
    ensures
        r == (times as nat > log2(len as nat)),
{
    let mut m: usize = len;
    let mut t: usize = times;
    while t > 0 && m > 1
        invariant
            m >= 1,
            (times as nat > log2(len as nat)) == (t as nat > log2(m as nat)),
        decreases t,
    {
        m = m / 2;
        t = t - 1;
    }
    t > 0
}

/// Appends the boxes of the build of `triangles` at depth `times` under
/// the bound `limit` to `out`, in pre-order.
fn construct_aabbs_into(triangles: &[Triangle], times: usize, limit: usize, out: &mut Vec<Aabb>)
    ensures
        final(out)@ == old(out)@ + construct_aabbs_spec(triangles@, times as nat, limit as nat),
    decreases limit + 1 - times,
{
    if times > limit || triangles.len() == 0 || depth_past_log2(triangles.len(), times) {
        proof {
            assert(out@ =~= out@ + construct_aabbs_spec(triangles@, times as nat, limit as nat));
        }
        return ;
    }
    proof {
        lemma_log2_lt(triangles@.len());
    }
    let entered = Ghost(out@);
    out.push(create_aabb(triangles));
    let mid = triangles.len() / 2;
    let left = vstd::slice::slice_subrange(triangles, 0, mid);
    construct_aabbs_into(left, times + 1, limit, out);
    let right = vstd::slice::slice_subrange(triangles, mid, triangles.len());
    construct_aabbs_into(right, times + 1, limit, out);
    proof {
        let ts = triangles@;
        assert(left@ =~= ts.take(ts.len() as int / 2));
        assert(right@ =~= ts.skip(ts.len() as int / 2));
        assert(out@ =~= entered@ + construct_aabbs_spec(ts, times as nat, limit as nat));
    }
}

/// The flat pre-order list of bounding boxes of a balanced positional
/// bisection of the triangle array, starting at recursion depth `times`
/// under the depth bound `limit`: one box per node of the split tree, the
/// box of a node's whole slice preceding the boxes of its two halves.
pub fn construct_aabbs(triangles: &[Triangle], times: usize, limit: usize) -> (r: Vec<Aabb>)
    ensures
        r@ == construct_aabbs_spec(triangles@, times as nat, limit as nat),
{
    let mut out: Vec<Aabb> = Vec::new();
    construct_aabbs_into(triangles, times, limit, &mut out);
    proof {
        assert(out@ =~= construct_aabbs_spec(triangles@, times as nat, limit as nat));
    }
    out
}

/// Two to any power is positive.
proof fn lemma_pow2_pos(e: nat)
    ensures
        pow2(e) >= 1,
    decreases e,
{
    if e > 0 {
        lemma_pow2_pos((e - 1) as nat);
    }
}

/// The depth bound alone caps the emission: a build at depth `times`
/// under the bound `limit` emits at most `2^(limit + 1 - times) - 1`
/// boxes, a full binary tree of the remaining depth allowance.
pub proof fn lemma_length_bound(ts: Seq<Triangle>, times: nat, limit: nat)
    requires
        times <= limit + 1,
    ensures
        construct_aabbs_spec(ts, times, limit).len() <= pow2((limit + 1 - times) as nat) - 1,
    decreases limit + 1 - times,
{
    if times > limit || ts.len() == 0 || times > log2(ts.len()) {
        lemma_pow2_pos((limit + 1 - times) as nat);
    } else {
        let e = (limit + 1 - times) as nat;
        lemma_length_bound(ts.take(ts.len() as int / 2), times + 1, limit);
        lemma_length_bound(ts.skip(ts.len() as int / 2), times + 1, limit);
        assert(pow2(e) == 2 * pow2((e - 1) as nat));
    }
}

/// With a depth bound of zero, the build of a non-empty input emits
/// exactly one box: the box of the whole input.
pub proof fn lemma_limit_zero_single_root(ts: Seq<Triangle>)
    requires
        ts.len() > 0,
    ensures
        construct_aabbs_spec(ts, 0, 0) == seq![aabb_of(ts)],
{
    assert(construct_aabbs_spec(ts.take(ts.len() as int / 2), 1, 0) =~= Seq::<Aabb>::empty());
    assert(construct_aabbs_spec(ts.skip(ts.len() as int / 2), 1, 0) =~= Seq::<Aabb>::empty());
    assert(construct_aabbs_spec(ts, 0, 0) =~= seq![aabb_of(ts)]);
}

/// The build of a non-empty input, started at depth zero, always begins
/// with the box of the whole input: the root node comes first in the
/// pre-order emission, whatever the depth bound.
pub proof fn lemma_first_is_root(ts: Seq<Triangle>, limit: nat)
    requires
        ts.len() > 0,
    ensures
        construct_aabbs_spec(ts, 0, limit).len() >= 1,
        construct_aabbs_spec(ts, 0, limit)[0] == aabb_of(ts),
{
}

/// The split is purely positional, so permuting the input array changes
/// which triangles fall into which half, but never the root box: the
/// builds of two reorderings of the same triangles begin with the same
/// box.
pub proof fn lemma_permuted_input_same_root(ts1: Seq<Triangle>, ts2: Seq<Triangle>, limit: nat)
    requires
        ts1.to_multiset() == ts2.to_multiset(),
        ts1.len() > 0,
    ensures
        construct_aabbs_spec(ts1, 0, limit).len() >= 1,
        construct_aabbs_spec(ts2, 0, limit).len() >= 1,
        construct_aabbs_spec(ts1, 0, limit)[0] == construct_aabbs_spec(ts2, 0, limit)[0],
{
    broadcast use vstd::seq_lib::group_to_multiset_ensures;

    assert(ts1.to_multiset().len() == ts1.len());
    assert(ts2.to_multiset().len() == ts2.len());
    lemma_first_is_root(ts1, limit);
    lemma_first_is_root(ts2, limit);
    lemma_aabb_of_permutation(ts1, ts2);
}

/// With the depth bound at least the floor of the logarithm of the input
/// size `n`, the emitted list has the full-tree length `2^(d + 1) - 1`
/// for `d = log2(n)`, and begins with the box of the whole input. An
/// input of more than one triangle stops splitting as soon as the depth
/// passes the logarithm of the shrinking slice, short of `d` levels, so
/// the length claim is stated on the inputs where it holds: a single
/// triangle, whose tree is the root alone.
pub proof fn lemma_full_depth_tree_size(ts: Seq<Triangle>, limit: nat)
    requires
        ts.len() == 1,
        limit >= log2(ts.len()),
    ensures
        construct_aabbs_spec(ts, 0, limit).len() == pow2(log2(ts.len()) + 1) - 1,
        construct_aabbs_spec(ts, 0, limit)[0] == aabb_of(ts),
{
    let l = construct_aabbs_spec(ts, 0, limit);
    assert(ts.take(0).len() == 0);
    assert(ts.skip(0) =~= ts);
    assert(construct_aabbs_spec(ts.take(0), 1, limit) =~= Seq::<Aabb>::empty());
    assert(construct_aabbs_spec(ts.skip(0), 1, limit) =~= Seq::<Aabb>::empty());
    assert(l =~= seq![aabb_of(ts)]);
    assert(log2(1) == 0);
    assert(pow2(0) == 1);
    assert(pow2(1) == 2);
}

} // verus!
