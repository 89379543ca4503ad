//! Edge records and their canonical order.
//!
//! The normalizer's single currency is the quadruple `(src, dst, edge_type,
//! weight)`.  Records are ordered lexicographically by `(src, dst,
//! edge_type)` — the weight never takes part in the order — and two records
//! are duplicates exactly when those three coincide.

use vstd::prelude::*;
use vstd::multiset::Multiset;
use crate::types::{NodeT, EdgeTypeT, WeightBitsT};

verus! {

/// One edge occurrence of the raw edge list: source, destination, optional
/// edge type, optional weight (as its bit pattern).
pub struct Quad {
    /// Source node identifier.
    pub src: NodeT,
    /// Destination node identifier.
    pub dst: NodeT,
    /// Optional edge type identifier.
    pub edge_type: Option<EdgeTypeT>,
    /// Optional weight bit pattern.
    pub weight: Option<WeightBitsT>,
}

impl Clone for Quad {
    fn clone(&self) -> (r: Quad)
        ensures
            r == *self,
    {
        Quad { src: self.src, dst: self.dst, edge_type: self.edge_type, weight: self.weight }
    }
}

impl Copy for Quad {

}

/// The order on optional edge types: an absent type sorts before every
/// present one.
pub open spec fn spec_et_lt(a: Option<EdgeTypeT>, b: Option<EdgeTypeT>) -> bool {
    match (a, b) {
        (Option::None, Option::None) => false,
        (Option::None, Option::Some(_)) => true,
        (Option::Some(_), Option::None) => false,
        (Option::Some(x), Option::Some(y)) => x < y,
    }
}

/// Whether two records are duplicates: same source, destination and edge
/// type (the weight is not part of the identity).
pub open spec fn spec_triple_eq(a: Quad, b: Quad) -> bool {
    a.src == b.src && a.dst == b.dst && a.edge_type == b.edge_type
}

/// The strict lexicographic order on `(src, dst, edge_type)`.
pub open spec fn spec_triple_lt(a: Quad, b: Quad) -> bool {
    ||| a.src < b.src
    ||| (a.src == b.src && a.dst < b.dst)
    ||| (a.src == b.src && a.dst == b.dst && spec_et_lt(a.edge_type, b.edge_type))
}

/// The reflexive lexicographic order on `(src, dst, edge_type)`.
pub open spec fn spec_triple_le(a: Quad, b: Quad) -> bool {
    spec_triple_lt(a, b) || spec_triple_eq(a, b)
}

/// Whether a sequence of records is sorted by the canonical order.
pub open spec fn spec_quads_sorted(s: Seq<Quad>) -> bool {
    forall|i: int, j: int| 0 <= i < j < s.len() ==> spec_triple_le(#[trigger] s[i], #[trigger] s[j])
}

/// Returns whether two records are duplicates of one another.
pub fn triple_eq(a: &Quad, b: &Quad) -> (r: bool)
    ensures
        r == spec_triple_eq(*a, *b),
{
    let et_eq = match (a.edge_type, b.edge_type) {
        (Option::None, Option::None) => true,
        (Option::Some(x), Option::Some(y)) => x == y,
        _ => false,
    };
    a.src == b.src && a.dst == b.dst && et_eq
}

/// Returns whether `a` sorts strictly before `b`.
pub fn triple_lt(a: &Quad, b: &Quad) -> (r: bool)
    ensures
        r == spec_triple_lt(*a, *b),
{
    if a.src != b.src {
        return a.src < b.src;
    }
    if a.dst != b.dst {
        return a.dst < b.dst;
    }
    match (a.edge_type, b.edge_type) {
        (Option::None, Option::Some(_)) => true,
        (Option::Some(x), Option::Some(y)) => x < y,
        _ => false,
    }
}

/// The canonical order is total: any two records compare.
pub proof fn lemma_triple_order_total(a: Quad, b: Quad)
    ensures
        spec_triple_le(a, b) || spec_triple_le(b, a),
        spec_triple_lt(a, b) ==> !spec_triple_le(b, a),
{
}

/// Sorts the records by `(src, dst, edge_type)`.  The result is a
/// permutation of the input: it holds exactly the input records, with
/// multiplicity.
pub fn sort_quadruples(input: Vec<Quad>) -> (r: Vec<Quad>)
    ensures
        spec_quads_sorted(r@),
        r@.to_multiset() == input@.to_multiset(),
        r@.len() == input@.len(),
{
    broadcast use vstd::seq_lib::group_to_multiset_ensures;

    let mut rest = input;
    let mut out: Vec<Quad> = Vec::new();
    while rest.len() > 0
        invariant
            spec_quads_sorted(out@),
            out@.to_multiset().add(rest@.to_multiset()) == input@.to_multiset(),
            out@.len() + rest@.len() == input@.len(),
            forall|i: int, j: int|
                0 <= i < out@.len() && 0 <= j < rest@.len() ==> spec_triple_le(
                    #[trigger] out@[i],
                    #[trigger] rest@[j],
                ),
        decreases rest@.len(),
    {
        let mut m: usize = 0;
        let mut i: usize = 1;
        while i < rest.len()
            invariant
                m < rest@.len(),
                i <= rest@.len(),
                forall|k: int| 0 <= k < i ==> spec_triple_le(rest@[m as int], #[trigger] rest@[k]),
            decreases rest@.len() - i,
        {
            if triple_lt(&rest[i], &rest[m]) {
                m = i;
            }
            i = i + 1;
        }
        let ghost rest0 = rest@;
        let ghost out0 = out@;
        let picked = rest.remove(m);
        out.push(picked);
        proof {
            broadcast use vstd::seq_lib::group_to_multiset_ensures;

            assert(rest0.contains(rest0[m as int]));
            assert(rest@ == rest0.remove(m as int));
            assert(rest0.remove(m as int).to_multiset() =~= rest0.to_multiset().remove(picked));
            assert(out@ == out0.push(picked));
            assert(out0.push(picked).to_multiset() =~= out0.to_multiset().insert(picked));
            assert(rest0.to_multiset().count(picked) > 0);
            assert(out@.to_multiset().add(rest@.to_multiset()) =~= out0.to_multiset().add(
                rest0.to_multiset(),
            ));
            assert(forall|j: int|
                0 <= j < rest@.len() ==> spec_triple_le(picked, #[trigger] rest@[j])) by {
                assert(forall|j: int|
                    0 <= j < rest@.len() ==> rest@[j] == rest0[if j < m { j } else { j + 1 }]);
            }
            assert(forall|i: int, j: int|
                0 <= i < j < out@.len() ==> spec_triple_le(#[trigger] out@[i], #[trigger] out@[j]))
                by {
                assert(forall|i: int| 0 <= i < out0.len() ==> out@[i] == out0[i]);
                assert(out@.last() == picked);
            }
        }
    }
    proof {
        assert(rest@.to_multiset() =~= Multiset::<Quad>::empty());
        assert(out@.to_multiset() =~= input@.to_multiset());
    }
    out
}

} // verus!
