//! The immutable graph: compact edge storage plus adjacency queries.
//!
//! A graph owns its node dictionary, the monotone set of packed edge keys,
//! the parallel edge-type and weight columns, and cached scalar counts.  All
//! adjacency queries go through rank and select on the ordered key set: the
//! edges of a source node occupy one contiguous index range.

use vstd::prelude::*;
use crate::types::{NodeT, EdgeT, EdgeTypeT, WeightBitsT, spec_is_valid_weight};
use crate::codec::{
    spec_node_bits, spec_encode_edge, spec_node_bit_mask, encode_edge, lemma_encode_order,
};
use crate::monotone::MonotoneIntegerSet;
use crate::quad::{Quad, spec_triple_eq, spec_triple_le, spec_quads_sorted};
use crate::vocab::Vocabulary;
use crate::typed::{NodeTypeVocabulary, EdgeTypeVocabulary};
use crate::normalize::{
    spec_keys_of, spec_no_adjacent_dup, spec_endpoints_below, spec_distinct_srcs,
    spec_unique_edges_count, spec_count_selfloops, spec_count_unique_selfloops,
};
use crate::symmetry::spec_symmetric;

verus! {

/// How many records of a sequence have the given source.
pub open spec fn spec_count_src(s: Seq<Quad>, v: NodeT) -> nat
    decreases s.len(),
{
    if s.len() == 0 {
        0
    } else {
        spec_count_src(s.drop_last(), v) + if s.last().src == v {
            1nat
        } else {
            0nat
        }
    }
}

/// When the records with source `v` are exactly the index interval
/// `[r0, r1)`, their number is `r1 - r0`.
pub proof fn lemma_count_src_interval(s: Seq<Quad>, v: NodeT, r0: int, r1: int)
    requires
        0 <= r0 <= r1 <= s.len(),
        forall|i: int| 0 <= i < s.len() ==> (((#[trigger] s[i]).src == v) <==> (r0 <= i < r1)),
    ensures
        spec_count_src(s, v) == r1 - r0,
    decreases s.len(),
{
    if s.len() == 0 {
    } else {
        let n = s.len() as int;
        let t = s.drop_last();
        assert(forall|i: int| 0 <= i < t.len() ==> #[trigger] t[i] == s[i]);
        if s.last().src == v {
            assert(r0 <= n - 1 < r1);
            assert(r1 == n);
            lemma_count_src_interval(t, v, r0, r1 - 1);
        } else {
            if r0 == r1 {
                lemma_count_src_interval(t, v, if r0 > n - 1 {
                    n - 1
                } else {
                    r0
                }, if r1 > n - 1 {
                    n - 1
                } else {
                    r1
                });
            } else {
                assert(!(r0 <= n - 1 < r1));
                assert(r1 <= n - 1);
                lemma_count_src_interval(t, v, r0, r1);
            }
        }
    }
}

/// How many records of a sequence have a source below `v`.
pub open spec fn spec_count_src_below(s: Seq<Quad>, v: NodeT) -> nat
    decreases s.len(),
{
    if s.len() == 0 {
        0
    } else {
        spec_count_src_below(s.drop_last(), v) + if s.last().src < v {
            1nat
        } else {
            0nat
        }
    }
}

/// When the records with source below `v` are exactly the first `r0`
/// indices, their number is `r0`.
pub proof fn lemma_count_src_below_interval(s: Seq<Quad>, v: NodeT, r0: int)
    requires
        0 <= r0 <= s.len(),
        forall|i: int| 0 <= i < s.len() ==> (((#[trigger] s[i]).src < v) <==> (i < r0)),
    ensures
        spec_count_src_below(s, v) == r0,
    decreases s.len(),
{
    if s.len() > 0 {
        let n = s.len() as int;
        let t = s.drop_last();
        assert(forall|i: int| 0 <= i < t.len() ==> #[trigger] t[i] == s[i]);
        if s.last().src < v {
            assert(r0 == n);
            lemma_count_src_below_interval(t, v, r0 - 1);
        } else {
            assert(r0 <= n - 1);
            lemma_count_src_below_interval(t, v, r0);
        }
    }
}

/// A record lexicographically between two records of one `(src, dst)` pair
/// shares that pair.
proof fn lemma_pair_sandwich(a: Quad, b: Quad, c: Quad)
    requires
        spec_triple_le(a, b),
        spec_triple_le(b, c),
        a.src == c.src,
        a.dst == c.dst,
    ensures
        b.src == a.src,
        b.dst == a.dst,
{
}

/// Whether an undirected graph's records are mirrored with equal type and
/// weight.  Kept opaque: queries never need it, so it would only weigh
/// their proofs down; constructors reveal it when they establish or use it.
#[verifier::opaque]
pub open spec fn spec_mirrored_records(s: Seq<Quad>) -> bool {
    spec_symmetric(s)
}

/// An immutable graph in the compact monotone-key representation.
pub struct Graph {
    /// Whether the graph is directed.
    pub(crate) directed: bool,
    /// The number of distinct nodes with a selfloop.
    pub(crate) unique_self_loop_number: u64,
    /// The number of stored selfloop occurrences.
    pub(crate) self_loop_number: u64,
    /// The number of nodes known to have a non-selfloop edge (or the node
    /// count when singleton tracking was off at construction).
    pub(crate) not_singleton_nodes_number: u64,
    /// The number of nodes whose incident edges are all selfloops (or zero
    /// when singleton tracking was off at construction).
    pub(crate) singleton_nodes_with_self_loops_number: u64,
    /// The number of distinct stored `(src, dst)` pairs.
    pub(crate) unique_edges_number: u64,
    /// The graph's name.
    pub(crate) name: String,
    /// The stored edge records, sorted by `(src, dst, edge_type)`.
    pub(crate) records: Vec<Quad>,
    /// The packed keys of the stored records, in the same order.
    pub(crate) edges: MonotoneIntegerSet,
    /// The width of the destination field of a packed key.
    pub(crate) node_bits: u8,
    /// The mask that extracts the destination from a packed key.
    pub(crate) node_bit_mask: u64,
    /// The dictionary from node names to node identifiers.
    pub(crate) nodes: Vocabulary,
    /// The distinct sources of the stored edges, when tracked; `None` means
    /// the sources are taken to be all of `[0, nodes_number)`.
    pub(crate) unique_sources: Option<MonotoneIntegerSet>,
    /// The per-edge weight column, present on weighted graphs.
    pub(crate) weights: Option<Vec<WeightBitsT>>,
    /// The node types, when a typed node list was given.
    pub(crate) node_types: Option<NodeTypeVocabulary>,
    /// The edge types, when the edge list carries types.
    pub(crate) edge_types: Option<EdgeTypeVocabulary>,
}

impl Graph {
    /// The stored edge records, in storage order: the graph's mathematical
    /// content.
    pub closed spec fn quads(&self) -> Seq<Quad> {
        self.records@
    }

    /// The number of nodes.
    pub open spec fn spec_nodes_number(&self) -> nat {
        self.spec_nodes().spec_len()
    }

    /// Whether the graph is directed.
    pub closed spec fn spec_directed(&self) -> bool {
        self.directed
    }

    /// The node dictionary.
    pub closed spec fn spec_nodes(&self) -> Vocabulary {
        self.nodes
    }

    /// The node types.
    pub closed spec fn spec_node_types(&self) -> Option<NodeTypeVocabulary> {
        self.node_types
    }

    /// The edge types.
    pub closed spec fn spec_edge_types(&self) -> Option<EdgeTypeVocabulary> {
        self.edge_types
    }

    /// Whether the graph stores edge weights.
    pub closed spec fn spec_has_weights(&self) -> bool {
        self.weights is Some
    }

    /// Whether the graph stores edge types.
    pub closed spec fn spec_has_edge_types(&self) -> bool {
        self.edge_types is Some
    }

    /// The stored distinct-source set, when tracked.
    pub closed spec fn spec_unique_sources(&self) -> Option<MonotoneIntegerSet> {
        self.unique_sources
    }

    /// The packed key of the record at the given index.
    pub open spec fn spec_key_at(&self, i: int) -> u64 {
        spec_encode_edge(self.quads()[i].src, self.quads()[i].dst, spec_node_bits(
            self.spec_nodes_number() as NodeT,
        ))
    }

    /// Whether the graph stores an edge from `src` to `dst`.
    pub open spec fn spec_has_edge(&self, src: NodeT, dst: NodeT) -> bool {
        exists|i: int|
            0 <= i < self.quads().len() && (#[trigger] self.quads()[i]).src == src
                && self.quads()[i].dst == dst
    }

    /// Structural soundness: the columns agree with the records, the
    /// records are sorted with no duplicate triple, every endpoint is a
    /// node, an undirected graph's records are mirrored with equal type
    /// and weight, and the cached edge and selfloop counts are exact (the
    /// two singleton counts depend on the construction flags and are bound
    /// by the constructor's own contract instead).
    pub open spec fn well_formed(&self) -> bool {
        let n = self.spec_nodes_number();
        let s = self.quads();
        &&& self.spec_nodes().inv()
        &&& !self.spec_nodes().is_numeric()
        &&& n <= u32::MAX
        &&& self.spec_node_bits() == spec_node_bits(n as NodeT)
        &&& 1 <= self.spec_node_bits() <= 32
        &&& (n as u64) <= (1u64 << (self.spec_node_bits() as u64))
        &&& self.spec_node_bit_mask() == spec_node_bit_mask(self.spec_node_bits())
        &&& self.spec_edges().inv()
        &&& self.spec_edges().seq() == spec_keys_of(s, self.spec_node_bits())
        &&& spec_quads_sorted(s)
        &&& spec_no_adjacent_dup(s)
        &&& spec_endpoints_below(s, n as NodeT)
        &&& (self.spec_edge_types() is Some ==> self.spec_edge_types().unwrap().inv()
            && self.spec_edge_types().unwrap().ids_seq().len() == s.len() && (forall|i: int|
            0 <= i < s.len() ==> self.spec_edge_types().unwrap().ids_seq()[i] == (
            #[trigger] s[i]).edge_type))
        &&& (self.spec_edge_types() is None ==> forall|i: int|
            0 <= i < s.len() ==> (#[trigger] s[i]).edge_type is None)
        &&& (self.spec_weights() is Some ==> self.spec_weights().unwrap()@.len() == s.len() && (
        forall|i: int|
            0 <= i < s.len() ==> Some(#[trigger] self.spec_weights().unwrap()@[i]) == s[i].weight
                && spec_is_valid_weight(self.spec_weights().unwrap()@[i])))
        &&& (self.spec_weights() is None ==> forall|i: int|
            0 <= i < s.len() ==> (#[trigger] s[i]).weight is None)
        &&& (self.spec_node_types() is Some ==> self.spec_node_types().unwrap().inv()
            && self.spec_node_types().unwrap().ids_seq().len() == n)
        &&& (self.spec_unique_sources() is Some ==> self.spec_unique_sources().unwrap().inv()
            && self.spec_unique_sources().unwrap().seq() == spec_distinct_srcs(s))
        &&& (!self.spec_directed() ==> spec_mirrored_records(s))
        &&& self.spec_unique_edges_number() == spec_unique_edges_count(s, self.spec_directed())
        &&& self.spec_self_loop_number() == spec_count_selfloops(s)
        &&& self.spec_unique_self_loop_number() == spec_count_unique_selfloops(s)
    }

    /// The stored monotone key set.
    pub closed spec fn spec_edges(&self) -> MonotoneIntegerSet {
        self.edges
    }

    /// The key width.
    pub closed spec fn spec_node_bits(&self) -> u8 {
        self.node_bits
    }

    /// The destination mask.
    pub closed spec fn spec_node_bit_mask(&self) -> u64 {
        self.node_bit_mask
    }

    /// The weight column.
    pub closed spec fn spec_weights(&self) -> Option<Vec<WeightBitsT>> {
        self.weights
    }

    /// The cached distinct-pair count.
    pub closed spec fn spec_unique_edges_number(&self) -> u64 {
        self.unique_edges_number
    }

    /// The cached selfloop count.
    pub closed spec fn spec_self_loop_number(&self) -> u64 {
        self.self_loop_number
    }

    /// The cached distinct-selfloop count.
    pub closed spec fn spec_unique_self_loop_number(&self) -> u64 {
        self.unique_self_loop_number
    }

    /// The cached count of nodes with a non-selfloop edge.
    pub closed spec fn spec_not_singleton_nodes_number(&self) -> u64 {
        self.not_singleton_nodes_number
    }

    /// The cached count of selfloop-only nodes.
    pub closed spec fn spec_singleton_nodes_with_self_loops_number(&self) -> u64 {
        self.singleton_nodes_with_self_loops_number
    }

    /// Returns the number of nodes in the graph.
    pub fn get_nodes_number(&self) -> (r: NodeT)
        requires
            self.well_formed(),
        ensures
            r == self.spec_nodes_number(),
    {
        self.nodes.len() as NodeT
    }

    /// Returns the number of stored records as a vector length.
    pub(crate) fn edges_len(&self) -> (r: usize)
        ensures
            r == self.quads().len(),
    {
        self.records.len()
    }

    /// Returns the number of stored directed edge occurrences.
    pub fn get_edges_number(&self) -> (r: EdgeT)
        ensures
            r == self.quads().len(),
    {
        self.records.len() as EdgeT
    }

    /// Returns the number of distinct stored `(src, dst)` pairs.
    pub fn get_unique_edges_number(&self) -> (r: EdgeT)
        ensures
            r == self.spec_unique_edges_number(),
    {
        self.unique_edges_number
    }

    /// Returns the number of stored selfloop occurrences.
    pub fn get_self_loop_number(&self) -> (r: EdgeT)
        ensures
            r == self.spec_self_loop_number(),
    {
        self.self_loop_number
    }

    /// Returns the number of distinct nodes with a selfloop.
    pub fn get_unique_self_loop_number(&self) -> (r: u64)
        ensures
            r == self.spec_unique_self_loop_number(),
    {
        self.unique_self_loop_number
    }

    /// Returns the number of nodes with at least one non-selfloop edge (the
    /// node count, when singleton tracking was off at construction).
    pub fn get_not_singleton_nodes_number(&self) -> (r: u64)
        ensures
            r == self.spec_not_singleton_nodes_number(),
    {
        self.not_singleton_nodes_number
    }

    /// Returns the number of nodes whose incident edges are all selfloops
    /// (zero, when singleton tracking was off at construction).
    pub fn get_singleton_nodes_with_self_loops_number(&self) -> (r: u64)
        ensures
            r == self.spec_singleton_nodes_with_self_loops_number(),
    {
        self.singleton_nodes_with_self_loops_number
    }

    /// Returns whether the graph is directed.
    pub fn is_directed(&self) -> (r: bool)
        ensures
            r == self.spec_directed(),
    {
        self.directed
    }

    /// Returns whether the graph stores any selfloop.
    pub fn has_selfloops(&self) -> (r: bool)
        ensures
            r == (self.spec_self_loop_number() > 0),
    {
        self.self_loop_number > 0
    }

    /// Returns whether the graph stores edge weights.
    pub fn has_weights(&self) -> (r: bool)
        ensures
            r == self.spec_has_weights(),
    {
        self.weights.is_some()
    }

    /// Returns whether the graph stores edge types.
    pub fn has_edge_types(&self) -> (r: bool)
        ensures
            r == self.spec_has_edge_types(),
    {
        self.edge_types.is_some()
    }

    /// Returns whether the graph stores node types.
    pub fn has_node_types(&self) -> (r: bool)
        ensures
            r == (self.spec_node_types() is Some),
    {
        self.node_types.is_some()
    }

    /// Returns the graph's name.
    pub fn get_name(&self) -> (r: String)
        ensures
            r@ == self.spec_name(),
    {
        self.name.clone()
    }

    /// The graph's name.
    pub closed spec fn spec_name(&self) -> Seq<char> {
        self.name@
    }

    /// Returns the stored record at the given edge identifier: source,
    /// destination, optional edge type, optional weight bits.
    pub fn get_edge_quadruple(&self, edge_id: EdgeT) -> (r: Quad)
        requires
            edge_id < self.quads().len(),
        ensures
            r == self.quads()[edge_id as int],
    {
        let len = self.records.len();
        proof {
            assert(edge_id < len);
        }
        self.records[edge_id as usize].clone()
    }

    /// Returns the index range `[min, max)` of the stored edges whose
    /// source is `src`.
    pub(crate) fn src_range(&self, src: NodeT) -> (r: (usize, usize))
        requires
            self.well_formed(),
            src < self.spec_nodes_number(),
        ensures
            r.0 <= r.1 <= self.quads().len(),
            r.0 == spec_count_src_below(self.quads(), src),
            forall|i: int|
                0 <= i < self.quads().len() ==> (((#[trigger] self.quads()[i]).src == src) <==> (
                r.0 <= i < r.1)),
    {
        let bits = self.node_bits;
        let low = encode_edge(src, 0, bits);
        let high = encode_edge(src + 1, 0, bits);
        let r0 = self.edges.rank(low);
        let r1 = self.edges.rank(high);
        proof {
            let s = self.quads();
            let n = self.spec_nodes_number() as NodeT;
            let b = bits as u64;
            // The bracket keys are ordered.
            if ((src + 1) as u64) < (1u64 << b) {
                lemma_encode_order(src, 0, (src + 1) as NodeT, 0, bits);
            } else {
                lemma_shift_bound(src as u64, 0, (src + 1) as u64, b);
                assert(spec_encode_edge(src, 0, bits) == ((src as u64) << b) | 0);
                assert(spec_encode_edge((src + 1) as NodeT, 0, bits) == (((src + 1) as u64) << b)
                    | 0);
                assert((((src + 1) as u64) << b) | 0 == ((src + 1) as u64) << b) by (bit_vector);
            }
            assert(low < high);
            // Each stored key compares with the brackets as its source does.
            assert forall|i: int| 0 <= i < s.len() implies (((#[trigger] s[i]).src == src) <==> (
            r0 <= i < r1)) by {
                let q = s[i];
                assert(self.spec_edges().seq()[i] == spec_encode_edge(q.src, q.dst, bits));
                lemma_encode_order(src, 0, q.src, q.dst, bits);
                lemma_encode_order(q.src, q.dst, src, 0, bits);
                if ((src + 1) as u64) < (1u64 << b) {
                    lemma_encode_order((src + 1) as NodeT, 0, q.src, q.dst, bits);
                    lemma_encode_order(q.src, q.dst, (src + 1) as NodeT, 0, bits);
                } else {
                    lemma_shift_bound(q.src as u64, q.dst as u64, (src + 1) as u64, b);
                    assert(spec_encode_edge((src + 1) as NodeT, 0, bits) == (((src + 1) as u64)
                        << b) | 0);
                    assert((((src + 1) as u64) << b) | 0 == ((src + 1) as u64) << b)
                        by (bit_vector);
                    assert(q.src < n <= src + 1);
                }
            }
            if r1 < r0 {
                assert(self.spec_edges().seq()[r1 as int] < low);
                assert(self.spec_edges().seq()[r1 as int] >= high);
                assert(false);
            }
            assert forall|i: int| 0 <= i < s.len() implies (((#[trigger] s[i]).src < src) <==> (i
                < r0)) by {
                let q = s[i];
                assert(self.spec_edges().seq()[i] == spec_encode_edge(q.src, q.dst, bits));
                lemma_encode_order(q.src, q.dst, src, 0, bits);
                lemma_encode_order(src, 0, q.src, q.dst, bits);
            }
            lemma_count_src_below_interval(s, src, r0 as int);
        }
        (r0, r1)
    }

    /// Returns the index range `[min, max)` of the stored edges whose
    /// source is `src`.
    pub fn get_minmax_edge_ids(&self, src: NodeT) -> (r: (EdgeT, EdgeT))
        requires
            self.well_formed(),
            src < self.spec_nodes_number(),
        ensures
            r.0 <= r.1 <= self.quads().len(),
            r.0 == spec_count_src_below(self.quads(), src),
            r.1 == spec_count_src_below(self.quads(), src) + spec_count_src(self.quads(), src),
            forall|i: int|
                0 <= i < self.quads().len() ==> (((#[trigger] self.quads()[i]).src == src) <==> (
                r.0 <= i < r.1)),
    {
        let (r0, r1) = self.src_range(src);
        proof {
            lemma_count_src_interval(self.quads(), src, r0 as int, r1 as int);
        }
        (r0 as EdgeT, r1 as EdgeT)
    }

    /// Returns the number of stored edges whose source is `src`: the
    /// node's (outbound) degree.  It equals the rank difference of the two
    /// keys that bracket the node's key range.
    pub fn get_node_degree(&self, src: NodeT) -> (r: EdgeT)
        requires
            self.well_formed(),
            src < self.spec_nodes_number(),
        ensures
            r == spec_count_src(self.quads(), src),
    {
        let (r0, r1) = self.src_range(src);
        proof {
            lemma_count_src_interval(self.quads(), src, r0 as int, r1 as int);
        }
        (r1 - r0) as EdgeT
    }

    /// Returns whether the graph stores an edge from `src` to `dst`.
    pub fn has_edge(&self, src: NodeT, dst: NodeT) -> (r: bool)
        requires
            self.well_formed(),
        ensures
            r == self.spec_has_edge(src, dst),
    {
        let n = self.nodes.len();
        if (src as usize) >= n || (dst as usize) >= n {
            return false;
        }
        let key = encode_edge(src, dst, self.node_bits);
        let present = self.edges.contains(key);
        proof {
            let s = self.quads();
            let bits = self.spec_node_bits();
            if present {
                let i = choose|i: int|
                    0 <= i < self.spec_edges().seq().len() && self.spec_edges().seq()[i] == key;
                assert(self.spec_edges().seq()[i] == spec_encode_edge(s[i].src, s[i].dst, bits));
                lemma_encode_order(s[i].src, s[i].dst, src, dst, bits);
            }
            if self.spec_has_edge(src, dst) {
                let i = choose|i: int|
                    0 <= i < s.len() && (#[trigger] s[i]).src == src && s[i].dst == dst;
                assert(self.spec_edges().seq()[i] == spec_encode_edge(s[i].src, s[i].dst, bits));
                assert(self.spec_edges().seq().contains(key));
            }
        }
        present
    }

    /// Returns the identifier (storage index) of the first stored edge from
    /// `src` to `dst`, or an error when the graph stores no such edge.
    #[verifier::rlimit(100)]
    pub fn get_edge_id(&self, src: NodeT, dst: NodeT) -> (r: Result<EdgeT, String>)
        requires
            self.well_formed(),
        ensures
            r.is_ok() <==> self.spec_has_edge(src, dst),
            r.is_ok() ==> {
                let e = r.unwrap() as int;
                &&& 0 <= e < self.quads().len()
                &&& self.quads()[e].src == src
                &&& self.quads()[e].dst == dst
                &&& forall|j: int|
                    0 <= j < e ==> !((#[trigger] self.quads()[j]).src == src && self.quads()[j].dst
                        == dst)
            },
    {
        let n = self.nodes.len();
        if (src as usize) >= n || (dst as usize) >= n {
            proof {
                assert(!self.spec_has_edge(src, dst));
            }
            return Err(String::from_str("The given edge does not exist in the graph."));
        }
        let key = encode_edge(src, dst, self.node_bits);
        let k = self.edges.rank(key);
        if k < self.records.len() {
            let q = &self.records[k];
            if q.src == src && q.dst == dst {
                proof {
                    assert(self.spec_has_edge(src, dst)) by {
                        assert(self.quads()[k as int].src == src);
                    }
                    let s = self.quads();
                    let bits = self.spec_node_bits();
                    assert forall|j: int| 0 <= j < k implies !((#[trigger] s[j]).src == src
                        && s[j].dst == dst) by {
                        assert(self.spec_edges().seq()[j] == spec_encode_edge(
                            s[j].src,
                            s[j].dst,
                            bits,
                        ));
                        lemma_encode_order(s[j].src, s[j].dst, src, dst, bits);
                    }
                }
                return Ok(k as EdgeT);
            }
        }
        proof {
            let s = self.quads();
            let bits = self.spec_node_bits();
            if self.spec_has_edge(src, dst) {
                let i = choose|i: int|
                    0 <= i < s.len() && (#[trigger] s[i]).src == src && s[i].dst == dst;
                assert(self.spec_edges().seq()[i] == key);
                assert(i >= k);
                assert(self.spec_edges().seq()[k as int] >= key);
                assert(self.spec_edges().seq()[k as int] <= self.spec_edges().seq()[i]);
                assert(self.spec_edges().seq()[k as int] == spec_encode_edge(
                    s[k as int].src,
                    s[k as int].dst,
                    bits,
                ));
                lemma_encode_order(s[k as int].src, s[k as int].dst, src, dst, bits);
                assert(false);
            }
        }
        Err(String::from_str("The given edge does not exist in the graph."))
    }

    /// Returns the identifier of the stored edge from `src` to `dst` with
    /// the given optional edge type, or an error when the graph stores no
    /// such edge.  In a multigraph, parallel edges differ exactly in this
    /// identifier.
    pub fn get_edge_id_with_type(&self, src: NodeT, dst: NodeT, edge_type: Option<EdgeTypeT>) -> (r:
        Result<EdgeT, String>)
        ensures
            r.is_ok() <==> exists|i: int|
                0 <= i < self.quads().len() && (#[trigger] self.quads()[i]).src == src
                    && self.quads()[i].dst == dst && self.quads()[i].edge_type == edge_type,
            r.is_ok() ==> {
                let e = r.unwrap() as int;
                &&& 0 <= e < self.quads().len()
                &&& self.quads()[e].src == src
                &&& self.quads()[e].dst == dst
                &&& self.quads()[e].edge_type == edge_type
                &&& forall|j: int|
                    0 <= j < e ==> !((#[trigger] self.quads()[j]).src == src && self.quads()[j].dst
                        == dst && self.quads()[j].edge_type == edge_type)
            },
    {
        let mut j: usize = 0;
        while j < self.records.len()
            invariant
                j <= self.quads().len(),
                self.quads().len() == self.records@.len(),
                forall|m: int|
                    0 <= m < j ==> !((#[trigger] self.quads()[m]).src == src && self.quads()[m].dst
                        == dst && self.quads()[m].edge_type == edge_type),
            decreases self.quads().len() - j,
        {
            let q = &self.records[j];
            let et_matches = match (q.edge_type, edge_type) {
                (Option::None, Option::None) => true,
                (Option::Some(a), Option::Some(b)) => a == b,
                _ => false,
            };
            if q.src == src && q.dst == dst && et_matches {
                return Ok(j as EdgeT);
            }
            j = j + 1;
        }
        Err(String::from_str("The given typed edge does not exist in the graph."))
    }

    /// Returns the destinations of the stored edges whose source is `src`,
    /// in storage order.
    pub fn get_node_neighbours(&self, src: NodeT) -> (r: Vec<NodeT>)
        requires
            self.well_formed(),
            src < self.spec_nodes_number(),
        ensures
            r@.len() == spec_count_src(self.quads(), src),
            forall|k: int|
                0 <= k < r@.len() ==> #[trigger] r@[k] == self.quads()[spec_count_src_below(
                    self.quads(),
                    src,
                ) + k].dst && self.quads()[spec_count_src_below(self.quads(), src) + k].src == src,
    {
        let (r0, r1) = self.src_range(src);
        proof {
            lemma_count_src_interval(self.quads(), src, r0 as int, r1 as int);
        }
        let ghost quads = self.quads();
        let mut out: Vec<NodeT> = Vec::new();
        let mut i: usize = r0;
        while i < r1
            invariant
                quads == self.quads(),
                self.quads().len() == self.records@.len(),
                r0 <= i <= r1 <= quads.len(),
                out@.len() == i - r0,
                forall|j: int| r0 <= j < r1 ==> (#[trigger] quads[j]).src == src,
                forall|k: int| 0 <= k < out@.len() ==> #[trigger] out@[k] == quads[r0 + k].dst,
            decreases r1 - i,
        {
            out.push(self.records[i].dst);
            i = i + 1;
        }
        out
    }

    /// Returns whether the node has no outbound edge (a trap node, when the
    /// graph is directed).
    pub fn is_node_trap(&self, node: NodeT) -> (r: bool)
        requires
            self.well_formed(),
            node < self.spec_nodes_number(),
        ensures
            r == (spec_count_src(self.quads(), node) == 0),
    {
        self.get_node_degree(node) == 0
    }

    /// Returns whether the destination of the stored edge is a trap node.
    #[verifier::rlimit(30)]
    pub fn is_edge_trap(&self, edge_id: EdgeT) -> (r: bool)
        requires
            self.well_formed(),
            edge_id < self.quads().len(),
        ensures
            r == (spec_count_src(self.quads(), self.quads()[edge_id as int].dst) == 0),
    {
        let q = self.get_edge_quadruple(edge_id);
        proof {
            assert(self.quads()[edge_id as int].dst < self.spec_nodes_number());
        }
        self.is_node_trap(q.dst)
    }

    /// Assembles a graph from its finalized parts.  The caller must have
    /// established every structural invariant: this is the final step of the
    /// normalizer, and of the derived-graph constructors.
    pub fn new(
        directed: bool,
        unique_self_loop_number: u64,
        self_loop_number: u64,
        not_singleton_nodes_number: u64,
        singleton_nodes_with_self_loops_number: u64,
        unique_edges_number: u64,
        records: Vec<Quad>,
        edges: MonotoneIntegerSet,
        unique_sources: Option<MonotoneIntegerSet>,
        nodes: Vocabulary,
        node_bit_mask: u64,
        node_bits: u8,
        edge_types: Option<EdgeTypeVocabulary>,
        name: String,
        weights: Option<Vec<WeightBitsT>>,
        node_types: Option<NodeTypeVocabulary>,
    ) -> (g: Graph)
        requires
            nodes.inv(),
            !nodes.is_numeric(),
            nodes.spec_len() <= u32::MAX,
            node_bits == spec_node_bits(nodes.spec_len() as NodeT),
            1 <= node_bits <= 32,
            (nodes.spec_len() as u64) <= (1u64 << (node_bits as u64)),
            node_bit_mask == spec_node_bit_mask(node_bits),
            edges.inv(),
            edges.seq() == spec_keys_of(records@, node_bits),
            spec_quads_sorted(records@),
            spec_no_adjacent_dup(records@),
            spec_endpoints_below(records@, nodes.spec_len() as NodeT),
            edge_types is Some ==> edge_types.unwrap().inv() && edge_types.unwrap().ids_seq().len()
                == records@.len() && (forall|i: int|
                0 <= i < records@.len() ==> edge_types.unwrap().ids_seq()[i] == (
                #[trigger] records@[i]).edge_type),
            edge_types is None ==> forall|i: int|
                0 <= i < records@.len() ==> (#[trigger] records@[i]).edge_type is None,
            weights is Some ==> weights.unwrap()@.len() == records@.len() && (forall|i: int|
                0 <= i < records@.len() ==> Some(#[trigger] weights.unwrap()@[i])
                    == records@[i].weight && spec_is_valid_weight(weights.unwrap()@[i])),
            weights is None ==> forall|i: int|
                0 <= i < records@.len() ==> (#[trigger] records@[i]).weight is None,
            node_types is Some ==> node_types.unwrap().inv() && node_types.unwrap().ids_seq().len()
                == nodes.spec_len(),
            unique_sources is Some ==> unique_sources.unwrap().inv()
                && unique_sources.unwrap().seq() == spec_distinct_srcs(records@),
            !directed ==> spec_mirrored_records(records@),
            unique_edges_number == spec_unique_edges_count(records@, directed),
            self_loop_number == spec_count_selfloops(records@),
            unique_self_loop_number == spec_count_unique_selfloops(records@),
        ensures
            g.well_formed(),
            g.quads() == records@,
            g.spec_directed() == directed,
            g.spec_nodes() == nodes,
            g.spec_node_types() == node_types,
            g.spec_edge_types() == edge_types,
            g.spec_has_weights() == (weights is Some),
            g.spec_unique_sources() == unique_sources,
            g.spec_name() == name@,
            g.spec_unique_edges_number() == unique_edges_number,
            g.spec_self_loop_number() == self_loop_number,
            g.spec_unique_self_loop_number() == unique_self_loop_number,
            g.spec_not_singleton_nodes_number() == not_singleton_nodes_number,
            g.spec_singleton_nodes_with_self_loops_number()
                == singleton_nodes_with_self_loops_number,
    {
        Graph {
            directed,
            unique_self_loop_number,
            self_loop_number,
            not_singleton_nodes_number,
            singleton_nodes_with_self_loops_number,
            unique_edges_number,
            name,
            records,
            edges,
            node_bits,
            node_bit_mask,
            nodes,
            unique_sources,
            weights,
            node_types,
            edge_types,
        }
    }
}

/// When the bracket source exceeds the key width's range, every stored key
/// lies below the bracket key.
proof fn lemma_shift_bound(s: u64, d: u64, hi: u64, b: u64)
    requires
        b <= 32,
        s < (1u64 << b),
        d < (1u64 << b),
        hi >= (1u64 << b),
        hi <= 0xffff_ffffu64,
    ensures
        ((s << b) | d) < (hi << b),
{
    assert(b <= 32 && s < (1u64 << b) && d < (1u64 << b) && hi >= (1u64 << b) && hi
        <= 0xffff_ffffu64 ==> ((s << b) | d) < (hi << b)) by (bit_vector);
}

} // verus!
