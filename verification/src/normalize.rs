//! Materialization of the compact edge representation.
//!
//! `build_edges` walks a sorted stream of edge records once and pushes the
//! surviving records' packed keys into the monotone edge set, together with
//! the parallel edge-type and weight columns, while counting selfloops,
//! distinct edges, singleton nodes and unique sources.  Duplicates — records
//! with the same `(src, dst, edge_type)` — are collapsed or rejected
//! according to the caller's policy.

use vstd::prelude::*;
use crate::types::{NodeT, EdgeTypeT, WeightBitsT, spec_is_valid_weight, is_valid_weight};
use crate::codec::{
    spec_node_bits, spec_encode_edge, spec_node_bit_mask, spec_encode_max_edge, get_node_bits,
    encode_edge, encode_max_edge, lemma_encode_order, lemma_encode_below_max,
};
use crate::monotone::MonotoneIntegerSet;
use crate::quad::{Quad, spec_triple_eq, spec_triple_le, spec_triple_lt, spec_quads_sorted, triple_eq, triple_lt};
use crate::vocab::spec_count_true;

verus! {

/// The sorted record stream with duplicate triples collapsed: of each run of
/// records with equal `(src, dst, edge_type)`, only the first survives.
pub open spec fn spec_dedup(s: Seq<Quad>) -> Seq<Quad>
    decreases s.len(),
{
    if s.len() == 0 {
        Seq::empty()
    } else if s.len() >= 2 && spec_triple_eq(s.last(), s[s.len() - 2]) {
        spec_dedup(s.drop_last())
    } else {
        spec_dedup(s.drop_last()).push(s.last())
    }
}

/// How many records of a sequence are selfloops.
pub open spec fn spec_count_selfloops(s: Seq<Quad>) -> nat
    decreases s.len(),
{
    if s.len() == 0 {
        0
    } else {
        spec_count_selfloops(s.drop_last()) + if s.last().src == s.last().dst {
            1nat
        } else {
            0nat
        }
    }
}

/// Whether the last record of a sequence starts a new `(src, dst)` pair.
pub open spec fn spec_last_is_new_pair(s: Seq<Quad>) -> bool {
    s.len() == 1 || !(s.last().src == s[s.len() - 2].src && s.last().dst == s[s.len() - 2].dst)
}

/// How many distinct `(src, dst)` pairs a pair-grouped sequence holds.
pub open spec fn spec_count_unique_pairs(s: Seq<Quad>) -> nat
    decreases s.len(),
{
    if s.len() == 0 {
        0
    } else {
        spec_count_unique_pairs(s.drop_last()) + if spec_last_is_new_pair(s) {
            1nat
        } else {
            0nat
        }
    }
}

/// How many distinct selfloop `(src, dst)` pairs a pair-grouped sequence
/// holds.
pub open spec fn spec_count_unique_selfloops(s: Seq<Quad>) -> nat
    decreases s.len(),
{
    if s.len() == 0 {
        0
    } else {
        spec_count_unique_selfloops(s.drop_last()) + if s.last().src == s.last().dst
            && spec_last_is_new_pair(s) {
            1nat
        } else {
            0nat
        }
    }
}

/// How many distinct `(src, dst)` pairs with `src <= dst` a pair-grouped
/// sequence holds: on an undirected (mirrored) edge set, the number of
/// undirected edges, each counted once.
pub open spec fn spec_count_unique_canonical_pairs(s: Seq<Quad>) -> nat
    decreases s.len(),
{
    if s.len() == 0 {
        0
    } else {
        spec_count_unique_canonical_pairs(s.drop_last()) + if s.last().src <= s.last().dst
            && spec_last_is_new_pair(s) {
            1nat
        } else {
            0nat
        }
    }
}

/// The number of distinct edges a graph reports: distinct ordered pairs
/// when directed; distinct pairs with `src <= dst` — one per undirected
/// edge — when undirected.
pub open spec fn spec_unique_edges_count(s: Seq<Quad>, directed: bool) -> nat {
    if directed {
        spec_count_unique_pairs(s)
    } else {
        spec_count_unique_canonical_pairs(s)
    }
}

/// The distinct sources of a source-grouped sequence, in order.
pub open spec fn spec_distinct_srcs(s: Seq<Quad>) -> Seq<u64>
    decreases s.len(),
{
    if s.len() == 0 {
        Seq::empty()
    } else if s.len() >= 2 && s.last().src == s[s.len() - 2].src {
        spec_distinct_srcs(s.drop_last())
    } else {
        spec_distinct_srcs(s.drop_last()).push(s.last().src as u64)
    }
}

/// A non-empty sequence's distinct-source list is non-empty and ends with
/// the source of the last record.
proof fn lemma_distinct_srcs_last(s: Seq<Quad>)
    requires
        s.len() > 0,
    ensures
        spec_distinct_srcs(s).len() > 0,
        spec_distinct_srcs(s).last() == s.last().src as u64,
    decreases s.len(),
{
    if s.len() >= 2 && s.last().src == s[s.len() - 2].src {
        lemma_distinct_srcs_last(s.drop_last());
        assert(s.drop_last().last() == s[s.len() - 2]);
    }
}

/// A non-empty sequence keeps at least its first record after collapsing
/// duplicates.
proof fn lemma_dedup_nonempty(s: Seq<Quad>)
    requires
        s.len() > 0,
    ensures
        spec_dedup(s).len() > 0,
        spec_dedup(s).last() == s.last() || spec_triple_eq(spec_dedup(s).last(), s.last()),
    decreases s.len(),
{
    if s.len() >= 2 && spec_triple_eq(s.last(), s[s.len() - 2]) {
        lemma_dedup_nonempty(s.drop_last());
        assert(s.drop_last().last() == s[s.len() - 2]);
    }
}

/// Whether no two adjacent records of a sorted sequence are duplicates.
pub open spec fn spec_no_adjacent_dup(s: Seq<Quad>) -> bool {
    forall|i: int| 0 < i < s.len() ==> !spec_triple_eq(#[trigger] s[i], s[i - 1])
}

/// Whether adjacent duplicate records always carry the same weight.
pub open spec fn spec_dups_weight_equal(s: Seq<Quad>) -> bool {
    forall|i: int|
        0 < i < s.len() && spec_triple_eq(#[trigger] s[i], s[i - 1]) ==> s[i].weight == s[i
            - 1].weight
}

/// Whether every record carries a strictly positive finite weight.
pub open spec fn spec_all_weights_present(s: Seq<Quad>) -> bool {
    forall|i: int|
        0 <= i < s.len() ==> (#[trigger] s[i]).weight is Some && spec_is_valid_weight(
            s[i].weight.unwrap(),
        )
}

/// Whether no record carries a weight.
pub open spec fn spec_no_weights(s: Seq<Quad>) -> bool {
    forall|i: int| 0 <= i < s.len() ==> (#[trigger] s[i]).weight is None
}

/// Whether no record carries an edge type.
pub open spec fn spec_no_edge_types(s: Seq<Quad>) -> bool {
    forall|i: int| 0 <= i < s.len() ==> (#[trigger] s[i]).edge_type is None
}

/// Whether every record's endpoints lie below the number of nodes.
pub open spec fn spec_endpoints_below(s: Seq<Quad>, nodes_number: NodeT) -> bool {
    forall|i: int|
        0 <= i < s.len() ==> (#[trigger] s[i]).src < nodes_number && s[i].dst < nodes_number
}

/// Whether a node is an endpoint of some record.
pub open spec fn spec_is_endpoint(s: Seq<Quad>, v: NodeT) -> bool {
    exists|i: int| 0 <= i < s.len() && ((#[trigger] s[i]).src == v || s[i].dst == v)
}

/// Whether a node is an endpoint of some non-selfloop record.
pub open spec fn spec_has_nonself_edge(s: Seq<Quad>, v: NodeT) -> bool {
    exists|i: int|
        0 <= i < s.len() && ((#[trigger] s[i]).src == v || s[i].dst == v) && s[i].src != s[i].dst
}

/// Whether the record stream is acceptable to `build_edges` under the given
/// duplicate and weight policies.
pub open spec fn spec_build_accepts(
    s: Seq<Quad>,
    ignore_duplicated_edges: bool,
    has_edge_weights: bool,
) -> bool {
    &&& (has_edge_weights ==> spec_all_weights_present(s))
    &&& (!has_edge_weights ==> spec_no_weights(s))
    &&& (ignore_duplicated_edges ==> spec_dups_weight_equal(s))
    &&& (!ignore_duplicated_edges ==> spec_no_adjacent_dup(s))
}

/// The packed keys of a record sequence.
pub open spec fn spec_keys_of(s: Seq<Quad>, node_bits: u8) -> Seq<u64> {
    s.map_values(|q: Quad| spec_encode_edge(q.src, q.dst, node_bits))
}

/// The edge-type column of a record sequence.
pub open spec fn spec_types_of(s: Seq<Quad>) -> Seq<Option<EdgeTypeT>> {
    s.map_values(|q: Quad| q.edge_type)
}

/// Counts the set entries of a bitmap.
fn count_true_bits(bits: &Vec<bool>) -> (r: u64)
    ensures
        r == spec_count_true(bits@),
{
    let mut count: u64 = 0;
    let mut i: usize = 0;
    while i < bits.len()
        invariant
            i <= bits@.len(),
            count == spec_count_true(bits@.take(i as int)),
            count <= i,
        decreases bits@.len() - i,
    {
        if bits[i] {
            count = count + 1;
        }
        i = i + 1;
        proof {
            assert(bits@.take(i as int).drop_last() =~= bits@.take(i as int - 1));
        }
    }
    proof {
        assert(bits@.take(bits@.len() as int) =~= bits@);
    }
    count
}

/// Counts the positions set in `any` but not in `nonself`: the nodes whose
/// incident edges are all selfloops.
fn count_only_self(any: &Vec<bool>, nonself: &Vec<bool>) -> (r: u64)
    requires
        any@.len() == nonself@.len(),
    ensures
        r == spec_count_true(Seq::new(any@.len(), |v: int| any@[v] && !nonself@[v])),
{
    let ghost target = Seq::new(any@.len(), |v: int| any@[v] && !nonself@[v]);
    let mut count: u64 = 0;
    let mut i: usize = 0;
    while i < any.len()
        invariant
            target == Seq::new(any@.len(), |v: int| any@[v] && !nonself@[v]),
            any@.len() == nonself@.len(),
            i <= any@.len(),
            count == spec_count_true(target.take(i as int)),
            count <= i,
        decreases any@.len() - i,
    {
        if any[i] && !nonself[i] {
            count = count + 1;
        }
        i = i + 1;
        proof {
            assert(target.take(i as int).drop_last() =~= target.take(i as int - 1));
            assert(target.take(i as int).last() == (any@[i as int - 1] && !nonself@[i as int - 1]));
        }
    }
    proof {
        assert(target.take(target.len() as int) =~= target);
    }
    count
}

/// The compact edge representation produced by `build_edges`, together with
/// the counts gathered during the pass.
pub struct BuiltEdges {
    /// The surviving records themselves, in storage order.
    pub records: Vec<Quad>,
    /// The packed keys of the surviving records, in order.
    pub edges: MonotoneIntegerSet,
    /// The per-edge optional type column, present when edge types are on.
    pub edge_type_ids: Option<Vec<Option<EdgeTypeT>>>,
    /// The per-edge weight column, present when weights are on.
    pub weights: Option<Vec<WeightBitsT>>,
    /// The distinct sources of the stored edges, when tracked.
    pub unique_sources: Option<MonotoneIntegerSet>,
    /// The number of distinct stored `(src, dst)` pairs.
    pub unique_edges_number: u64,
    /// The number of stored selfloop occurrences.
    pub self_loop_number: u64,
    /// The number of distinct nodes with a selfloop.
    pub unique_self_loop_number: u64,
    /// The number of nodes with at least one non-selfloop edge, or the
    /// number of nodes when singleton tracking is off.
    pub not_singleton_nodes_number: u64,
    /// The number of nodes whose incident edges are all selfloops, or zero
    /// when singleton tracking is off.
    pub singleton_nodes_with_self_loops_number: u64,
    /// The width of the destination field of a packed key.
    pub node_bits: u8,
    /// The mask that extracts the destination from a packed key.
    pub node_bit_mask: u64,
}

impl BuiltEdges {
    /// The stored record sequence `dd` is faithfully materialized: keys,
    /// type column and weight column all project `dd`.
    pub open spec fn matches(
        &self,
        dd: Seq<Quad>,
        has_edge_types: bool,
        has_edge_weights: bool,
    ) -> bool {
        &&& self.records@ == dd
        &&& spec_quads_sorted(dd)
        &&& self.edges.seq() == spec_keys_of(dd, self.node_bits)
        &&& self.edges.inv()
        &&& (has_edge_types <==> self.edge_type_ids is Some)
        &&& (has_edge_types ==> self.edge_type_ids.unwrap()@ == spec_types_of(dd))
        &&& (has_edge_weights <==> self.weights is Some)
        &&& (has_edge_weights ==> self.weights.unwrap()@.len() == dd.len() && (forall|j: int|
            0 <= j < dd.len() ==> Some(#[trigger] self.weights.unwrap()@[j]) == dd[j].weight))
    }
}

/// Builds the compact edge representation from a sorted record stream.
///
/// The stream must be sorted by `(src, dst, edge_type)` with both endpoints
/// below `nodes_number`, and without edge types when edge types are off.
/// The build succeeds exactly when weights are present, positive and finite
/// precisely where the weight flag demands, and duplicates obey the
/// duplicate policy; the surviving records are then `spec_dedup` of the
/// stream, and every reported count is exact.
#[verifier::rlimit(100)]
pub fn build_edges(
    quads: &Vec<Quad>,
    nodes_number: NodeT,
    ignore_duplicated_edges: bool,
    has_edge_weights: bool,
    has_edge_types: bool,
    might_have_singletons: bool,
    might_have_singletons_with_selfloops: bool,
    might_have_trap_nodes: bool,
    directed: bool,
) -> (r: Result<BuiltEdges, String>)
    requires
        spec_quads_sorted(quads@),
        spec_endpoints_below(quads@, nodes_number),
        !has_edge_types ==> spec_no_edge_types(quads@),
    ensures
        r.is_ok() <==> spec_build_accepts(quads@, ignore_duplicated_edges, has_edge_weights),
        r.is_ok() ==> {
            let b = r.unwrap();
            let dd = spec_dedup(quads@);
            let track = might_have_singletons || might_have_singletons_with_selfloops;
            let build_us = (directed && (might_have_trap_nodes || might_have_singletons)) || (
            !directed && might_have_singletons);
            &&& b.node_bits == spec_node_bits(nodes_number)
            &&& 1 <= b.node_bits <= 32
            &&& (nodes_number as u64) <= (1u64 << (b.node_bits as u64))
            &&& b.node_bit_mask == spec_node_bit_mask(b.node_bits)
            &&& b.matches(dd, has_edge_types, has_edge_weights)
            &&& spec_no_adjacent_dup(dd)
            &&& spec_endpoints_below(dd, nodes_number)
            &&& b.self_loop_number == spec_count_selfloops(dd)
            &&& b.unique_edges_number == spec_unique_edges_count(dd, directed)
            &&& b.unique_self_loop_number == spec_count_unique_selfloops(dd)
            &&& (track ==> b.not_singleton_nodes_number == spec_count_true(
                Seq::new(nodes_number as nat, |v: int| spec_has_nonself_edge(dd, v as NodeT)),
            ))
            &&& (track ==> b.singleton_nodes_with_self_loops_number == spec_count_true(
                Seq::new(
                    nodes_number as nat,
                    |v: int| spec_is_endpoint(dd, v as NodeT) && !spec_has_nonself_edge(
                        dd,
                        v as NodeT,
                    ),
                ),
            ))
            &&& (!track ==> b.not_singleton_nodes_number == nodes_number
                && b.singleton_nodes_with_self_loops_number == 0)
            &&& (build_us <==> b.unique_sources is Some)
            &&& (build_us ==> b.unique_sources.unwrap().seq() == spec_distinct_srcs(dd)
                && b.unique_sources.unwrap().inv())
        },
{
    let node_bits = get_node_bits(nodes_number);
    proof {
        assert((node_bits as u64) <= 32 ==> ((1u64 << (node_bits as u64)) >= 1)) by (bit_vector);
    }
    let node_bit_mask = (1u64 << (node_bits as u64)) - 1;
    let max_edge = encode_max_edge(nodes_number, node_bits);
    let universe = if max_edge == u64::MAX {
        u64::MAX
    } else {
        max_edge + 1
    };
    let mut edges = MonotoneIntegerSet::new(universe);
    let mut records: Vec<Quad> = Vec::new();
    let mut edge_type_ids: Vec<Option<EdgeTypeT>> = Vec::new();
    let mut weights: Vec<WeightBitsT> = Vec::new();
    let track = might_have_singletons || might_have_singletons_with_selfloops;
    let build_us = (directed && (might_have_trap_nodes || might_have_singletons)) || (!directed
        && might_have_singletons);
    let mut any_endpoint: Vec<bool> = Vec::new();
    let mut nonself_endpoint: Vec<bool> = Vec::new();
    if track {
        let mut v: usize = 0;
        while v < nodes_number as usize
            invariant
                v <= nodes_number as usize,
                any_endpoint@.len() == v,
                nonself_endpoint@.len() == v,
                forall|k: int| 0 <= k < v ==> !(#[trigger] any_endpoint@[k]),
                forall|k: int| 0 <= k < v ==> !(#[trigger] nonself_endpoint@[k]),
            decreases nodes_number as usize - v,
        {
            any_endpoint.push(false);
            nonself_endpoint.push(false);
            v = v + 1;
        }
    }
    let mut unique_sources = MonotoneIntegerSet::new(nodes_number as u64);
    let mut self_loop_number: u64 = 0;
    let mut unique_edges_number: u64 = 0;
    let mut unique_canonical_number: u64 = 0;
    let mut unique_self_loop_number: u64 = 0;
    let mut prev = Quad { src: 0, dst: 0, edge_type: None, weight: None };
    let mut i: usize = 0;
    proof {
        assert(spec_dedup(quads@.take(0)) =~= Seq::<Quad>::empty());
        assert(spec_keys_of(Seq::<Quad>::empty(), node_bits) =~= Seq::<u64>::empty());
        assert(spec_types_of(Seq::<Quad>::empty()) =~= Seq::<Option<EdgeTypeT>>::empty());
        assert(spec_distinct_srcs(Seq::<Quad>::empty()) =~= Seq::<u64>::empty());
    }
    while i < quads.len()
        invariant
            spec_quads_sorted(quads@),
            spec_endpoints_below(quads@, nodes_number),
            !has_edge_types ==> spec_no_edge_types(quads@),
            i <= quads@.len(),
            node_bits == spec_node_bits(nodes_number),
            1 <= node_bits <= 32,
            (nodes_number as u64) <= (1u64 << (node_bits as u64)),
            node_bit_mask == spec_node_bit_mask(node_bits),
            universe >= spec_encode_max_edge(nodes_number, node_bits),
            track == (might_have_singletons || might_have_singletons_with_selfloops),
            build_us == ((directed && (might_have_trap_nodes || might_have_singletons)) || (
            !directed && might_have_singletons)),
            edges.inv(),
            edges.spec_universe() == universe,
            unique_sources.inv(),
            unique_sources.spec_universe() == nodes_number as u64,
            ({
                let kept = spec_dedup(quads@.take(i as int));
                let full = quads@.take(i as int);
                &&& records@ == kept
                &&& spec_quads_sorted(kept)
                &&& edges.seq() == spec_keys_of(kept, node_bits)
                &&& (has_edge_types ==> edge_type_ids@ == spec_types_of(kept))
                &&& (!has_edge_types ==> edge_type_ids@.len() == 0)
                &&& (has_edge_weights ==> weights@.len() == kept.len() && (forall|j: int|
                    0 <= j < kept.len() ==> Some(#[trigger] weights@[j]) == kept[j].weight))
                &&& (!has_edge_weights ==> weights@.len() == 0)
                &&& self_loop_number == spec_count_selfloops(kept)
                &&& unique_edges_number == spec_count_unique_pairs(kept)
                &&& unique_canonical_number == spec_count_unique_canonical_pairs(kept)
                &&& unique_self_loop_number == spec_count_unique_selfloops(kept)
                &&& self_loop_number <= i
                &&& unique_edges_number <= i
                &&& unique_canonical_number <= i
                &&& unique_self_loop_number <= i
                &&& kept.len() <= i
                &&& (i > 0 ==> kept.len() > 0 && prev == kept.last() && spec_triple_eq(
                    prev,
                    full.last(),
                ) && prev.weight == full.last().weight)
                &&& (track ==> any_endpoint@.len() == nodes_number && (forall|v: int|
                    0 <= v < nodes_number ==> #[trigger] any_endpoint@[v] == spec_is_endpoint(
                        kept,
                        v as NodeT,
                    )))
                &&& (track ==> nonself_endpoint@.len() == nodes_number && (forall|v: int|
                    0 <= v < nodes_number ==> #[trigger] nonself_endpoint@[v]
                        == spec_has_nonself_edge(kept, v as NodeT)))
                &&& (build_us ==> unique_sources.seq() == spec_distinct_srcs(kept))
                &&& spec_build_accepts(full, ignore_duplicated_edges, has_edge_weights)
            }),
        decreases quads@.len() - i,
    {
        let q = quads[i];
        let ghost full0 = quads@.take(i as int);
        let ghost kept0 = spec_dedup(full0);
        let ghost full1 = quads@.take(i as int + 1);
        proof {
            assert(full1.drop_last() =~= full0);
            assert(full1.last() == q);
            assert(forall|j: int| 0 <= j < full0.len() ==> #[trigger] full1[j] == full0[j]);
        }
        // Weight policy.
        match q.weight {
            Some(w) => {
                if !has_edge_weights {
                    return Err(String::from_str(
                        "A weight was provided but weights are not expected.",
                    ));
                }
                if !is_valid_weight(w) {
                    return Err(String::from_str(
                        "An edge weight is not a strictly positive finite number.",
                    ));
                }
            },
            None => {
                if has_edge_weights {
                    return Err(String::from_str(
                        "A weight is missing although weights are expected.",
                    ));
                }
            },
        }
        // Duplicate policy.
        let is_dup = i > 0 && triple_eq(&q, &prev);
        if is_dup {
            if !ignore_duplicated_edges {
                proof {
                    assert(spec_triple_eq(full1[i as int], full1[i as int - 1]));
                }
                return Err(String::from_str(
                    "A duplicated edge was found while building the graph.",
                ));
            }
            let weights_equal = match (q.weight, prev.weight) {
                (Option::None, Option::None) => true,
                (Option::Some(a), Option::Some(b)) => a == b,
                _ => false,
            };
            if !weights_equal {
                proof {
                    assert(spec_triple_eq(full1[i as int], full1[i as int - 1]));
                    assert(full1[i as int].weight != full1[i as int - 1].weight);
                }
                return Err(String::from_str(
                    "Two duplicated edges carry different weights.",
                ));
            }
            proof {
                assert(spec_triple_eq(q, full0.last()));
                assert(spec_dedup(full1) =~= kept0);
                assert(spec_build_accepts(full1, ignore_duplicated_edges, has_edge_weights));
            }
            i = i + 1;
            continue ;
        }
        // The record survives: push its key and columns.
        let ghost kept1 = kept0.push(q);
        proof {
            if i > 0 {
                assert(!spec_triple_eq(full1.last(), full1[full1.len() - 2]));
            }
            assert(spec_dedup(full1) =~= kept1);
            assert(kept1.drop_last() =~= kept0);
            assert(spec_build_accepts(full1, ignore_duplicated_edges, has_edge_weights));
            if i > 0 {
                assert(spec_triple_le(full0.last(), q)) by {
                    assert(spec_triple_le(quads@[i as int - 1], quads@[i as int]));
                }
                assert(spec_triple_le(prev, q));
            }
        }
        let key = encode_edge(q.src, q.dst, node_bits);
        proof {
            lemma_encode_below_max(q.src, q.dst, nodes_number, node_bits);
            if i > 0 {
                let p = kept0.last();
                lemma_encode_order(p.src, p.dst, q.src, q.dst, node_bits);
                assert(spec_keys_of(kept0, node_bits).last() == spec_encode_edge(
                    p.src,
                    p.dst,
                    node_bits,
                ));
            }
        }
        records.push(q);
        proof {
            assert(spec_quads_sorted(kept1)) by {
                assert(forall|j: int| 0 <= j < kept0.len() ==> #[trigger] kept1[j] == kept0[j]);
                if i > 0 {
                    assert(forall|j: int|
                        0 <= j < kept0.len() ==> spec_triple_le(#[trigger] kept0[j], prev));
                }
            }
        }
        let pushed = edges.push(key);
        proof {
            assert(pushed.is_ok());
            assert(spec_keys_of(kept1, node_bits) =~= spec_keys_of(kept0, node_bits).push(
                spec_encode_edge(q.src, q.dst, node_bits),
            ));
        }
        if has_edge_types {
            edge_type_ids.push(q.edge_type);
            proof {
                assert(spec_types_of(kept1) =~= spec_types_of(kept0).push(q.edge_type));
            }
        }
        if has_edge_weights {
            match q.weight {
                Some(w) => {
                    weights.push(w);
                },
                None => {
                    proof {
                        assert(false);
                    }
                },
            }
        }
        // Selfloop and distinct-pair counters.
        let selfloop = q.src == q.dst;
        let new_pair = i == 0 || !(q.src == prev.src && q.dst == prev.dst);
        proof {
            if kept0.len() > 0 {
                assert(kept1[kept1.len() - 2] == prev);
            }
            assert(spec_last_is_new_pair(kept1) == new_pair);
            assert(spec_count_selfloops(kept1) == spec_count_selfloops(kept0) + if selfloop {
                1nat
            } else {
                0nat
            });
        }
        if selfloop {
            self_loop_number = self_loop_number + 1;
        }
        if new_pair {
            unique_edges_number = unique_edges_number + 1;
            if q.src <= q.dst {
                unique_canonical_number = unique_canonical_number + 1;
            }
            if selfloop {
                unique_self_loop_number = unique_self_loop_number + 1;
            }
        }
        // Endpoint bitmaps.
        if track {
            let ghost any0 = any_endpoint@;
            let ghost nonself0 = nonself_endpoint@;
            any_endpoint.set(q.src as usize, true);
            any_endpoint.set(q.dst as usize, true);
            if q.src != q.dst {
                nonself_endpoint.set(q.src as usize, true);
                nonself_endpoint.set(q.dst as usize, true);
            }
            proof {
                assert forall|v: int| 0 <= v < nodes_number implies #[trigger] any_endpoint@[v]
                    == spec_is_endpoint(kept1, v as NodeT) by {
                    assert(forall|j: int| 0 <= j < kept0.len() ==> #[trigger] kept1[j] == kept0[j]);
                    if v == q.src as int || v == q.dst as int {
                        assert(kept1[kept1.len() - 1].src == v || kept1[kept1.len() - 1].dst == v);
                    } else {
                        assert(any_endpoint@[v] == any0[v]);
                        if spec_is_endpoint(kept1, v as NodeT) {
                            let w = choose|j: int|
                                0 <= j < kept1.len() && ((#[trigger] kept1[j]).src == v
                                    || kept1[j].dst == v);
                            assert(w < kept0.len() && (kept0[w].src == v || kept0[w].dst == v));
                        }
                        if spec_is_endpoint(kept0, v as NodeT) {
                            let w = choose|j: int|
                                0 <= j < kept0.len() && ((#[trigger] kept0[j]).src == v
                                    || kept0[j].dst == v);
                            assert(kept1[w].src == v || kept1[w].dst == v);
                        }
                    }
                }
                assert forall|v: int| 0 <= v < nodes_number implies #[trigger] nonself_endpoint@[v]
                    == spec_has_nonself_edge(kept1, v as NodeT) by {
                    assert(forall|j: int| 0 <= j < kept0.len() ==> #[trigger] kept1[j] == kept0[j]);
                    if (v == q.src as int || v == q.dst as int) && q.src != q.dst {
                        assert(kept1[kept1.len() - 1] == q);
                    } else {
                        assert(nonself_endpoint@[v] == nonself0[v]);
                        if spec_has_nonself_edge(kept1, v as NodeT) {
                            let w = choose|j: int|
                                0 <= j < kept1.len() && ((#[trigger] kept1[j]).src == v
                                    || kept1[j].dst == v) && kept1[j].src != kept1[j].dst;
                            assert(w < kept0.len() && (kept0[w].src == v || kept0[w].dst == v)
                                && kept0[w].src != kept0[w].dst);
                        }
                        if spec_has_nonself_edge(kept0, v as NodeT) {
                            let w = choose|j: int|
                                0 <= j < kept0.len() && ((#[trigger] kept0[j]).src == v
                                    || kept0[j].dst == v) && kept0[j].src != kept0[j].dst;
                            assert(kept1[w].src == v || kept1[w].dst == v);
                            assert(kept1[w].src != kept1[w].dst);
                        }
                    }
                }
            }
        }
        // Distinct sources.
        if build_us {
            let new_src = i == 0 || q.src != prev.src;
            proof {
                if kept0.len() > 0 {
                    assert(kept1[kept1.len() - 2] == prev);
                }
                if new_src {
                    assert(spec_distinct_srcs(kept1) =~= spec_distinct_srcs(kept0).push(
                        q.src as u64,
                    ));
                    if kept0.len() > 0 {
                        lemma_distinct_srcs_last(kept0);
                        assert(unique_sources.seq().last() == prev.src as u64);
                    }
                } else {
                    assert(spec_distinct_srcs(kept1) =~= spec_distinct_srcs(kept0));
                }
            }
            if new_src {
                let pushed_src = unique_sources.push(q.src as u64);
                proof {
                    assert(pushed_src.is_ok());
                }
            }
        }
        prev = q;
        i = i + 1;
    }
    proof {
        assert(quads@.take(quads@.len() as int) =~= quads@);
        crate::dedup_props::lemma_dedup_elements(quads@);
        crate::dedup_props::lemma_dedup_no_adjacent(quads@);
        let dd = spec_dedup(quads@);
        assert forall|j: int| 0 <= j < dd.len() implies (#[trigger] dd[j]).src < nodes_number
            && dd[j].dst < nodes_number by {
            assert(quads@.contains(dd[j]));
            let k = choose|k: int| 0 <= k < quads@.len() && quads@[k] == dd[j];
        }
    }
    let reported_unique_edges_number: u64 = if directed {
        unique_edges_number
    } else {
        unique_canonical_number
    };
    let not_singleton_nodes_number: u64;
    let singleton_nodes_with_self_loops_number: u64;
    if track {
        not_singleton_nodes_number = count_true_bits(&nonself_endpoint);
        singleton_nodes_with_self_loops_number = count_only_self(&any_endpoint, &nonself_endpoint);
        proof {
            let dd = spec_dedup(quads@);
            assert(nonself_endpoint@ =~= Seq::new(
                nodes_number as nat,
                |v: int| spec_has_nonself_edge(dd, v as NodeT),
            ));
            assert(Seq::new(any_endpoint@.len(), |v: int| any_endpoint@[v] && !nonself_endpoint@[v])
                =~= Seq::new(
                nodes_number as nat,
                |v: int| spec_is_endpoint(dd, v as NodeT) && !spec_has_nonself_edge(dd, v as NodeT),
            ));
        }
    } else {
        not_singleton_nodes_number = nodes_number as u64;
        singleton_nodes_with_self_loops_number = 0;
    }
    Ok(
        BuiltEdges {
            records,
            edges,
            edge_type_ids: if has_edge_types {
                Some(edge_type_ids)
            } else {
                None
            },
            weights: if has_edge_weights {
                Some(weights)
            } else {
                None
            },
            unique_sources: if build_us {
                Some(unique_sources)
            } else {
                None
            },
            unique_edges_number: reported_unique_edges_number,
            self_loop_number,
            unique_self_loop_number,
            not_singleton_nodes_number,
            singleton_nodes_with_self_loops_number,
            node_bits,
            node_bit_mask,
        },
    )
}


/// Fails exactly when a numeric node list is paired with a non-numeric edge
/// list: the two identifier spaces could not be aligned.
pub fn check_numeric_ids_compatibility(
    has_nodes_list: bool,
    numeric_node_ids: bool,
    numeric_edge_node_ids: bool,
) -> (r: Result<(), String>)
    ensures
        r.is_ok() <==> !(has_nodes_list && numeric_node_ids && !numeric_edge_node_ids),
{
    if has_nodes_list && numeric_node_ids && !numeric_edge_node_ids {
        return Err(String::from_str(
            "A numeric node list cannot be loaded together with a non-numeric edge list: the node identifiers of the two lists are not guaranteed to align.",
        ));
    }
    Ok(())
}

} // verus!
