//! Properties of the duplicate-collapsed record stream.
//!
//! `build_edges` stores `spec_dedup` of its sorted input; the lemmas here
//! let callers carry the stored stream's strictness and bounds without
//! re-walking the build.

use vstd::prelude::*;
use crate::quad::{Quad, spec_triple_eq, spec_quads_sorted};
use crate::normalize::{spec_dedup, spec_no_adjacent_dup, spec_dups_weight_equal};
use crate::symmetry::spec_symmetric;

verus! {

/// One unfolding of `spec_dedup` on a non-empty stream.
proof fn lemma_dedup_step(s: Seq<Quad>)
    requires
        s.len() > 0,
    ensures
        (s.len() >= 2 && spec_triple_eq(s.last(), s[s.len() - 2])) ==> spec_dedup(s)
            == spec_dedup(s.drop_last()),
        !(s.len() >= 2 && spec_triple_eq(s.last(), s[s.len() - 2])) ==> spec_dedup(s)
            == spec_dedup(s.drop_last()).push(s.last()),
{
}

/// The surviving records of a duplicate run end with a record of that run.
proof fn lemma_dedup_last(s: Seq<Quad>)
    requires
        s.len() > 0,
    ensures
        spec_dedup(s).len() > 0,
        spec_triple_eq(spec_dedup(s).last(), s.last()),
    decreases s.len(),
{
    if s.len() >= 2 && spec_triple_eq(s.last(), s[s.len() - 2]) {
        lemma_dedup_last(s.drop_last());
        assert(s.drop_last().last() == s[s.len() - 2]);
    } else {
        assert(spec_dedup(s).last() == s.last());
    }
}

/// Collapsing the duplicates of a sorted stream leaves no two adjacent
/// duplicate triples.
pub proof fn lemma_dedup_no_adjacent(s: Seq<Quad>)
    requires
        spec_quads_sorted(s),
    ensures
        spec_no_adjacent_dup(spec_dedup(s)),
    decreases s.len(),
{
    if s.len() == 0 {
        assert(spec_dedup(s).len() == 0);
    } else {
        let t = s.drop_last();
        assert(forall|i: int| 0 <= i < t.len() ==> #[trigger] t[i] == s[i]);
        lemma_dedup_no_adjacent(t);
        lemma_dedup_step(s);
        if s.len() >= 2 && spec_triple_eq(s.last(), s[s.len() - 2]) {
        } else {
            let dd = spec_dedup(s);
            let ddt = spec_dedup(t);
            assert(dd == ddt.push(s.last()));
            assert forall|i: int| 0 < i < dd.len() implies !spec_triple_eq(
                #[trigger] dd[i],
                dd[i - 1],
            ) by {
                if i < ddt.len() {
                    assert(dd[i] == ddt[i]);
                    assert(dd[i - 1] == ddt[i - 1]);
                } else {
                    assert(dd[i] == s.last());
                    assert(dd[i - 1] == ddt.last());
                    lemma_dedup_last(t);
                    assert(t.last() == s[s.len() - 2]);
                }
            }
        }
    }
}

/// Every surviving record is one of the input records.
pub proof fn lemma_dedup_elements(s: Seq<Quad>)
    ensures
        forall|j: int| 0 <= j < spec_dedup(s).len() ==> s.contains(#[trigger] spec_dedup(s)[j]),
    decreases s.len(),
{
    if s.len() > 0 {
        lemma_dedup_elements(s.drop_last());
        let t = s.drop_last();
        assert forall|j: int| 0 <= j < spec_dedup(s).len() implies s.contains(
            #[trigger] spec_dedup(s)[j],
        ) by {
            if s.len() >= 2 && spec_triple_eq(s.last(), s[s.len() - 2]) {
                assert(t.contains(spec_dedup(t)[j]));
                let k = choose|k: int| 0 <= k < t.len() && t[k] == spec_dedup(t)[j];
                assert(s[k] == spec_dedup(s)[j]);
            } else {
                if j < spec_dedup(t).len() {
                    assert(t.contains(spec_dedup(t)[j]));
                    let k = choose|k: int| 0 <= k < t.len() && t[k] == spec_dedup(t)[j];
                    assert(s[k] == spec_dedup(s)[j]);
                } else {
                    assert(spec_dedup(s)[j] == s.last());
                    assert(s[s.len() - 1] == s.last());
                }
            }
        }
    }
}

/// In a sorted stream whose duplicates agree on the weight, every input
/// record has a surviving representative with the same triple and weight.
pub proof fn lemma_dedup_representative(s: Seq<Quad>)
    requires
        spec_quads_sorted(s),
        spec_dups_weight_equal(s),
    ensures
        forall|k: int|
            0 <= k < s.len() ==> exists|j: int|
                0 <= j < spec_dedup(s).len() && spec_triple_eq(
                    #[trigger] spec_dedup(s)[j],
                    #[trigger] s[k],
                ) && spec_dedup(s)[j].weight == s[k].weight,
    decreases s.len(),
{
    if s.len() > 0 {
        let t = s.drop_last();
        assert(forall|i: int| 0 <= i < t.len() ==> #[trigger] t[i] == s[i]);
        lemma_dedup_representative(t);
        let dd = spec_dedup(s);
        let ddt = spec_dedup(t);
        assert forall|k: int| 0 <= k < s.len() implies exists|j: int|
            0 <= j < dd.len() && spec_triple_eq(#[trigger] dd[j], #[trigger] s[k]) && dd[j].weight
                == s[k].weight by {
            if s.len() >= 2 && spec_triple_eq(s.last(), s[s.len() - 2]) {
                assert(dd =~= ddt);
                if k < s.len() - 1 {
                    let j = choose|j: int|
                        0 <= j < ddt.len() && spec_triple_eq(#[trigger] ddt[j], t[k]) && ddt[j].weight
                            == t[k].weight;
                    assert(spec_triple_eq(dd[j], s[k]) && dd[j].weight == s[k].weight);
                } else {
                    // The last record is a duplicate of its predecessor and
                    // carries the same weight.
                    assert(s[s.len() - 1].weight == s[s.len() - 2].weight);
                    let j = choose|j: int|
                        0 <= j < ddt.len() && spec_triple_eq(#[trigger] ddt[j], t[s.len() - 2])
                            && ddt[j].weight == t[s.len() - 2].weight;
                    assert(spec_triple_eq(dd[j], s[k]) && dd[j].weight == s[k].weight);
                }
            } else {
                assert(dd =~= ddt.push(s.last()));
                if k < s.len() - 1 {
                    let j = choose|j: int|
                        0 <= j < ddt.len() && spec_triple_eq(#[trigger] ddt[j], t[k]) && ddt[j].weight
                            == t[k].weight;
                    assert(dd[j] == ddt[j]);
                    assert(spec_triple_eq(dd[j], s[k]) && dd[j].weight == s[k].weight);
                } else {
                    assert(dd[dd.len() - 1] == s.last());
                }
            }
        }
    }
}

/// Collapsing duplicates preserves symmetry, as long as the stream is
/// sorted and duplicates agree on the weight.
pub proof fn lemma_dedup_symmetric(s: Seq<Quad>)
    requires
        spec_quads_sorted(s),
        spec_dups_weight_equal(s),
        spec_symmetric(s),
    ensures
        spec_symmetric(spec_dedup(s)),
{
    let dd = spec_dedup(s);
    lemma_dedup_elements(s);
    lemma_dedup_representative(s);
    assert forall|i: int| 0 <= i < dd.len() && (#[trigger] dd[i]).src != dd[i].dst implies exists|
        j: int,
    |
        0 <= j < dd.len() && (#[trigger] dd[j]).src == dd[i].dst && dd[j].dst == dd[i].src
            && dd[j].edge_type == dd[i].edge_type && dd[j].weight == dd[i].weight by {
        assert(s.contains(dd[i]));
        let k = choose|k: int| 0 <= k < s.len() && s[k] == dd[i];
        let m = choose|m: int|
            0 <= m < s.len() && (#[trigger] s[m]).src == s[k].dst && s[m].dst == s[k].src
                && s[m].edge_type == s[k].edge_type && s[m].weight == s[k].weight;
        let j = choose|j: int|
            0 <= j < dd.len() && spec_triple_eq(#[trigger] dd[j], s[m]) && dd[j].weight
                == s[m].weight;
        assert(dd[j].src == dd[i].dst && dd[j].dst == dd[i].src && dd[j].edge_type
            == dd[i].edge_type && dd[j].weight == dd[i].weight);
    }
}

} // verus!
