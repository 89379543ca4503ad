//! Symmetry of the edge record stream.
//!
//! An undirected graph stores every non-selfloop edge in both directions
//! with the same type and weight.  The normalizer either produces that form
//! itself (`symmetrize`) or, when the caller claims to have provided both
//! directions, verifies it (`check_symmetric`).

use vstd::prelude::*;
use crate::quad::{
    Quad, spec_triple_eq, spec_triple_le, spec_triple_lt, spec_quads_sorted, triple_eq, triple_lt,
};

verus! {

/// Whether every non-selfloop record has a mirrored mate: same edge type,
/// same weight, endpoints swapped.
pub open spec fn spec_symmetric(s: Seq<Quad>) -> bool {
    forall|i: int|
        0 <= i < s.len() && (#[trigger] s[i]).src != s[i].dst ==> exists|j: int|
            0 <= j < s.len() && (#[trigger] s[j]).src == s[i].dst && s[j].dst == s[i].src
                && s[j].edge_type == s[i].edge_type && s[j].weight == s[i].weight
}

/// The strict order composes with the reflexive order.
proof fn lemma_lt_le_lt(a: Quad, b: Quad, c: Quad)
    requires
        spec_triple_lt(a, b),
        spec_triple_le(b, c),
    ensures
        spec_triple_lt(a, c),
{
}

/// The reflexive order composes with the strict order.
proof fn lemma_le_lt_lt(a: Quad, b: Quad, c: Quad)
    requires
        spec_triple_le(a, b),
        spec_triple_lt(b, c),
    ensures
        spec_triple_lt(a, c),
{
}

/// Returns the first index whose record does not sort strictly before
/// `target`.
fn lower_bound(quads: &Vec<Quad>, target: &Quad) -> (r: usize)
    requires
        spec_quads_sorted(quads@),
    ensures
        r <= quads@.len(),
        forall|k: int| 0 <= k < r ==> spec_triple_lt(#[trigger] quads@[k], *target),
        forall|k: int| r <= k < quads@.len() ==> !spec_triple_lt(#[trigger] quads@[k], *target),
{
    let mut lo: usize = 0;
    let mut hi: usize = quads.len();
    while lo < hi
        invariant
            spec_quads_sorted(quads@),
            lo <= hi <= quads@.len(),
            forall|k: int| 0 <= k < lo ==> spec_triple_lt(#[trigger] quads@[k], *target),
            forall|k: int| hi <= k < quads@.len() ==> !spec_triple_lt(#[trigger] quads@[k], *target),
        decreases hi - lo,
    {
        let mid = lo + (hi - lo) / 2;
        if triple_lt(&quads[mid], target) {
            lo = mid + 1;
            proof {
                assert forall|k: int| 0 <= k < lo implies spec_triple_lt(
                    #[trigger] quads@[k],
                    *target,
                ) by {
                    if k < mid {
                        assert(spec_triple_le(quads@[k], quads@[mid as int]));
                        lemma_le_lt_lt(quads@[k], quads@[mid as int], *target);
                    }
                }
            }
        } else {
            hi = mid;
            proof {
                assert forall|k: int| hi <= k < quads@.len() implies !spec_triple_lt(
                    #[trigger] quads@[k],
                    *target,
                ) by {
                    if k > mid {
                        assert(spec_triple_le(quads@[mid as int], quads@[k]));
                        if spec_triple_lt(quads@[k], *target) {
                            lemma_lt_le_lt(quads@[k], quads@[mid as int], *target);
                        }
                    }
                }
            }
        }
    }
    lo
}

/// Checks that a sorted record stream is symmetric: every non-selfloop
/// record has a mirrored mate with the same edge type and weight.  The
/// normalizer runs this on the stored records of an undirected graph that
/// was loaded from an already-directed edge list.
pub fn check_symmetric(quads: &Vec<Quad>) -> (r: Result<(), String>)
    requires
        spec_quads_sorted(quads@),
    ensures
        r.is_ok() <==> spec_symmetric(quads@),
{
    let mut i: usize = 0;
    while i < quads.len()
        invariant
            spec_quads_sorted(quads@),
            i <= quads@.len(),
            forall|a: int|
                0 <= a < i && (#[trigger] quads@[a]).src != quads@[a].dst ==> exists|j: int|
                    0 <= j < quads@.len() && (#[trigger] quads@[j]).src == quads@[a].dst
                        && quads@[j].dst == quads@[a].src && quads@[j].edge_type
                        == quads@[a].edge_type && quads@[j].weight == quads@[a].weight,
        decreases quads@.len() - i,
    {
        let q = quads[i];
        if q.src != q.dst {
            let target = Quad { src: q.dst, dst: q.src, edge_type: q.edge_type, weight: q.weight };
            let lb = lower_bound(quads, &target);
            let mut j: usize = lb;
            let mut found = false;
            while j < quads.len() && !found && triple_eq(&quads[j], &target)
                invariant
                    spec_quads_sorted(quads@),
                    lb <= j <= quads@.len(),
                    target.src == q.dst && target.dst == q.src && target.edge_type == q.edge_type
                        && target.weight == q.weight,
                    forall|k: int|
                        lb <= k < j ==> spec_triple_eq(#[trigger] quads@[k], target)
                            && quads@[k].weight != target.weight,
                    found ==> j < quads@.len() && spec_triple_eq(quads@[j as int], target)
                        && quads@[j as int].weight == target.weight,
                decreases quads@.len() - j + if found {
                    0int
                } else {
                    1int
                },
            {
                let weights_equal = match (quads[j].weight, target.weight) {
                    (Option::None, Option::None) => true,
                    (Option::Some(a), Option::Some(b)) => a == b,
                    _ => false,
                };
                if weights_equal {
                    found = true;
                } else {
                    j = j + 1;
                }
            }
            if !found {
                proof {
                    let tgt = target;
                    assert forall|k: int| 0 <= k < quads@.len() implies !((#[trigger] quads@[k]).src
                        == tgt.src && quads@[k].dst == tgt.dst && quads@[k].edge_type
                        == tgt.edge_type && quads@[k].weight == tgt.weight) by {
                        if k < lb {
                            assert(spec_triple_lt(quads@[k], tgt));
                        } else if k < j {
                            assert(quads@[k].weight != tgt.weight);
                        } else if k == j {
                            assert(j < quads@.len() ==> !spec_triple_eq(quads@[j as int], tgt));
                        } else {
                            assert(j < quads@.len());
                            assert(!spec_triple_lt(quads@[j as int], tgt));
                            assert(!spec_triple_eq(quads@[j as int], tgt));
                            assert(spec_triple_lt(tgt, quads@[j as int]));
                            assert(spec_triple_le(quads@[j as int], quads@[k]));
                            lemma_lt_le_lt(tgt, quads@[j as int], quads@[k]);
                        }
                    }
                    assert(quads@[i as int] == q);
                    assert(!spec_symmetric(quads@));
                }
                return Err(String::from_str(
                    "An undirected graph was given a directed edge list that does not define every edge in both directions.",
                ));
            }
        }
        i = i + 1;
    }
    Ok(())
}


/// The mirrored record: endpoints swapped, same type and weight.
pub open spec fn spec_mirror(q: Quad) -> Quad {
    Quad { src: q.dst, dst: q.src, edge_type: q.edge_type, weight: q.weight }
}

/// The symmetrized stream: each record, followed by its mirror when it is
/// not a selfloop.
pub open spec fn spec_symmetrized(rows: Seq<Quad>) -> Seq<Quad>
    decreases rows.len(),
{
    if rows.len() == 0 {
        Seq::empty()
    } else if rows.last().src == rows.last().dst {
        spec_symmetrized(rows.drop_last()).push(rows.last())
    } else {
        spec_symmetrized(rows.drop_last()).push(rows.last()).push(spec_mirror(rows.last()))
    }
}

/// Emits each record, followed by its mirror when it is not a selfloop.
pub fn symmetrize(rows: Vec<Quad>) -> (r: Vec<Quad>)
    ensures
        r@ == spec_symmetrized(rows@),
        spec_symmetric(r@),
{
    let mut out: Vec<Quad> = Vec::new();
    let mut k: usize = 0;
    while k < rows.len()
        invariant
            k <= rows@.len(),
            out@ == spec_symmetrized(rows@.take(k as int)),
        decreases rows@.len() - k,
    {
        let q = rows[k];
        out.push(q);
        if q.src != q.dst {
            out.push(Quad { src: q.dst, dst: q.src, edge_type: q.edge_type, weight: q.weight });
        }
        proof {
            assert(rows@.take(k as int + 1).drop_last() =~= rows@.take(k as int));
            assert(rows@.take(k as int + 1).last() == q);
        }
        k = k + 1;
    }
    proof {
        assert(rows@.take(rows@.len() as int) =~= rows@);
        lemma_symmetrized_symmetric(rows@);
    }
    out
}

/// The symmetrized stream is symmetric: every non-selfloop record in it has
/// its mirror in it, with the same type and weight.
pub proof fn lemma_symmetrized_symmetric(rows: Seq<Quad>)
    ensures
        spec_symmetric(spec_symmetrized(rows)),
    decreases rows.len(),
{
    if rows.len() == 0 {
    } else {
        let t = rows.drop_last();
        lemma_symmetrized_symmetric(t);
        let q = rows.last();
        let prev = spec_symmetrized(t);
        let cur = spec_symmetrized(rows);
        assert forall|i: int| 0 <= i < cur.len() && (#[trigger] cur[i]).src != cur[i].dst
            implies exists|j: int|
            0 <= j < cur.len() && (#[trigger] cur[j]).src == cur[i].dst && cur[j].dst == cur[i].src
                && cur[j].edge_type == cur[i].edge_type && cur[j].weight == cur[i].weight by {
            assert(forall|a: int| 0 <= a < prev.len() ==> #[trigger] cur[a] == prev[a]);
            if i < prev.len() {
                let j = choose|j: int|
                    0 <= j < prev.len() && (#[trigger] prev[j]).src == prev[i].dst && prev[j].dst
                        == prev[i].src && prev[j].edge_type == prev[i].edge_type && prev[j].weight
                        == prev[i].weight;
                assert(cur[j].src == cur[i].dst && cur[j].dst == cur[i].src && cur[j].edge_type
                    == cur[i].edge_type && cur[j].weight == cur[i].weight);
            } else if i == prev.len() {
                assert(cur[i] == q);
                assert(cur[prev.len() as int + 1].src == q.dst && cur[prev.len() as int + 1].dst == q.src);
            } else {
                assert(cur[i] == spec_mirror(q));
                assert(cur[prev.len() as int] == q);
            }
        }
    }
}

/// Symmetry is a property of the records as a multiset: any permutation of
/// a symmetric record list is symmetric.
pub proof fn lemma_symmetric_permutation(a: Seq<Quad>, b: Seq<Quad>)
    requires
        spec_symmetric(a),
        a.to_multiset() == b.to_multiset(),
    ensures
        spec_symmetric(b),
{
    broadcast use vstd::seq_lib::group_to_multiset_ensures;

    assert forall|i: int| 0 <= i < b.len() && (#[trigger] b[i]).src != b[i].dst implies exists|
        j: int,
    |
        0 <= j < b.len() && (#[trigger] b[j]).src == b[i].dst && b[j].dst == b[i].src
            && b[j].edge_type == b[i].edge_type && b[j].weight == b[i].weight by {
        assert(b.contains(b[i]));
        assert(b.to_multiset().count(b[i]) > 0);
        assert(a.to_multiset().count(b[i]) > 0);
        assert(a.contains(b[i]));
        let k = choose|k: int| 0 <= k < a.len() && a[k] == b[i];
        let m = choose|m: int|
            0 <= m < a.len() && (#[trigger] a[m]).src == a[k].dst && a[m].dst == a[k].src
                && a[m].edge_type == a[k].edge_type && a[m].weight == a[k].weight;
        assert(a.contains(a[m]));
        assert(a.to_multiset().count(a[m]) > 0);
        assert(b.to_multiset().count(a[m]) > 0);
        assert(b.contains(a[m]));
        let j = choose|j: int| 0 <= j < b.len() && b[j] == a[m];
        assert(b[j].src == b[i].dst && b[j].dst == b[i].src && b[j].edge_type == b[i].edge_type
            && b[j].weight == b[i].weight);
    }
}

} // verus!
