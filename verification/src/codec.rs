//! Bit-packed edge codec.
//!
//! A directed edge occurrence `(src, dst)` is packed into a single `u64` key
//! as `(src << node_bits) | dst`, where `node_bits` is the smallest width
//! that can hold every node identifier.  The key order is exactly the
//! lexicographic order on `(src, dst)`, which is what makes rank and select
//! queries on the ordered key set answer adjacency questions.

use vstd::prelude::*;
use crate::types::NodeT;

verus! {

/// The number of bits needed to store a node identifier: the smallest `b`
/// with `2^b >= max(nodes_number, 2)`.
pub open spec fn spec_node_bits(nodes_number: NodeT) -> u8
    decreases nodes_number,
{
    if nodes_number <= 2 {
        1u8
    } else {
        (spec_node_bits(((nodes_number + 1) / 2) as NodeT) + 1) as u8
    }
}

/// The packed key of the edge `(src, dst)`.
pub open spec fn spec_encode_edge(src: NodeT, dst: NodeT, node_bits: u8) -> u64 {
    ((src as u64) << (node_bits as u64)) | (dst as u64)
}

/// The source node of a packed edge key.
pub open spec fn spec_src_of(key: u64, node_bits: u8) -> NodeT {
    (key >> (node_bits as u64)) as NodeT
}

/// The destination node of a packed edge key.
pub open spec fn spec_dst_of(key: u64, node_bits: u8) -> NodeT {
    (key & (((1u64 << (node_bits as u64)) - 1) as u64)) as NodeT
}

/// The mask that extracts the destination from a packed key.
pub open spec fn spec_node_bit_mask(node_bits: u8) -> u64 {
    ((1u64 << (node_bits as u64)) - 1) as u64
}

/// The number of node identifiers that `node_bits` must accommodate: at
/// least two, so that even trivial graphs get a one-bit codec.
pub open spec fn spec_at_least_two(nodes_number: NodeT) -> u64 {
    if nodes_number >= 2 {
        nodes_number as u64
    } else {
        2u64
    }
}

proof fn lemma_node_bits_bounds(nodes_number: NodeT)
    ensures
        1 <= spec_node_bits(nodes_number) <= 32,
        (nodes_number as u64) <= (1u64 << (spec_node_bits(nodes_number) as u64)),
        (1u64 << ((spec_node_bits(nodes_number) - 1) as u64)) < spec_at_least_two(nodes_number),
    decreases nodes_number,
{
    if nodes_number <= 2 {
        assert((1u64 << 1u64) == 2 && (1u64 << 0u64) == 1) by (bit_vector);
    } else {
        let half = ((nodes_number + 1) / 2) as NodeT;
        lemma_node_bits_bounds(half);
        let hb = spec_node_bits(half) as u64;
        assert(hb <= 31 ==> (1u64 << ((hb + 1) as u64)) == 2 * (1u64 << hb)) by (bit_vector);
        assert(1 <= hb <= 32 ==> (1u64 << hb) == 2 * (1u64 << ((hb - 1) as u64))) by (bit_vector);
        if spec_node_bits(half) == 32 {
            assert((1u64 << ((32u64 - 1) as u64)) == 0x8000_0000u64) by (bit_vector);
            assert(half <= 0x8000_0000u64);
            assert(false);
        }
    }
}

/// Returns the number of bits needed to store a node identifier of this
/// graph: the smallest `b` with `2^b >= max(nodes_number, 2)`.
pub fn get_node_bits(nodes_number: NodeT) -> (r: u8)
    ensures
        r == spec_node_bits(nodes_number),
        1 <= r <= 32,
        (nodes_number as u64) <= (1u64 << (r as u64)),
{
    proof {
        lemma_node_bits_bounds(nodes_number);
    }
    let mut n: NodeT = nodes_number;
    let mut r: u8 = 1;
    while n > 2
        invariant
            1 <= r <= 32,
            spec_node_bits(nodes_number) <= 32,
            spec_node_bits(nodes_number) == spec_node_bits(n) + r - 1,
        decreases n,
    {
        n = n / 2 + n % 2;
        r = r + 1;
        proof {
            lemma_node_bits_bounds(n);
        }
    }
    r
}

/// Packs the edge `(src, dst)` into its `u64` key.
pub fn encode_edge(src: NodeT, dst: NodeT, node_bits: u8) -> (r: u64)
    requires
        node_bits <= 32,
    ensures
        r == spec_encode_edge(src, dst, node_bits),
{
    ((src as u64) << (node_bits as u64)) | (dst as u64)
}

/// The exclusive upper bound of the key universe for a graph with the given
/// number of nodes: one past the key of the largest possible edge.
pub open spec fn spec_encode_max_edge(nodes_number: NodeT, node_bits: u8) -> u64 {
    ((nodes_number as u64) << (node_bits as u64)) | (nodes_number as u64)
}

/// Returns one past the key of the largest possible edge of a graph with the
/// given number of nodes, bounding the key universe of the edge set.
pub fn encode_max_edge(nodes_number: NodeT, node_bits: u8) -> (r: u64)
    requires
        node_bits <= 32,
    ensures
        r == spec_encode_max_edge(nodes_number, node_bits),
{
    ((nodes_number as u64) << (node_bits as u64)) | (nodes_number as u64)
}

/// Unpacks an edge key into its `(src, dst)` pair.
pub fn decode_edge(key: u64, node_bits: u8, node_bit_mask: u64) -> (r: (NodeT, NodeT))
    requires
        node_bits <= 32,
        node_bit_mask == spec_node_bit_mask(node_bits),
        key >> (node_bits as u64) <= NodeT::MAX as u64,
    ensures
        r.0 == spec_src_of(key, node_bits),
        r.1 == spec_dst_of(key, node_bits),
{
    proof {
        let b = node_bits as u64;
        assert(b <= 32 ==> (key & (((1u64 << b) - 1) as u64)) < (1u64 << 32u64)) by (bit_vector);
        assert((1u64 << 32u64) == 0x1_0000_0000u64) by (bit_vector);
    }
    ((key >> (node_bits as u64)) as NodeT, (key & node_bit_mask) as NodeT)
}

/// Packing then unpacking an edge gives the edge back, as long as both node
/// identifiers fit in `node_bits` bits.
pub proof fn lemma_encode_decode(src: NodeT, dst: NodeT, node_bits: u8)
    requires
        node_bits <= 32,
        (src as u64) < (1u64 << (node_bits as u64)),
        (dst as u64) < (1u64 << (node_bits as u64)),
    ensures
        spec_src_of(spec_encode_edge(src, dst, node_bits), node_bits) == src,
        spec_dst_of(spec_encode_edge(src, dst, node_bits), node_bits) == dst,
{
    let s = src as u64;
    let d = dst as u64;
    let b = node_bits as u64;
    assert(b <= 32 && s < (1u64 << b) && d < (1u64 << b) ==> (((s << b) | d) >> b) == s)
        by (bit_vector);
    assert(b <= 32 && s < (1u64 << b) && d < (1u64 << b) ==> (((s << b) | d) & (((1u64 << b)
        - 1) as u64)) == d) by (bit_vector);
}

/// The packed key order is the lexicographic order on `(src, dst)`.
pub proof fn lemma_encode_order(src1: NodeT, dst1: NodeT, src2: NodeT, dst2: NodeT, node_bits: u8)
    requires
        node_bits <= 32,
        (src1 as u64) < (1u64 << (node_bits as u64)),
        (dst1 as u64) < (1u64 << (node_bits as u64)),
        (src2 as u64) < (1u64 << (node_bits as u64)),
        (dst2 as u64) < (1u64 << (node_bits as u64)),
    ensures
        (spec_encode_edge(src1, dst1, node_bits) < spec_encode_edge(src2, dst2, node_bits))
            <==> (src1 < src2 || (src1 == src2 && dst1 < dst2)),
        (spec_encode_edge(src1, dst1, node_bits) == spec_encode_edge(src2, dst2, node_bits))
            <==> (src1 == src2 && dst1 == dst2),
{
    let s1 = src1 as u64;
    let d1 = dst1 as u64;
    let s2 = src2 as u64;
    let d2 = dst2 as u64;
    let b = node_bits as u64;
    assert(b <= 32 && s1 < (1u64 << b) && d1 < (1u64 << b) && s2 < (1u64 << b) && d2 < (1u64
        << b) ==> ((((s1 << b) | d1) < ((s2 << b) | d2)) <==> (s1 < s2 || (s1 == s2 && d1 < d2))))
        by (bit_vector);
    assert(b <= 32 && s1 < (1u64 << b) && d1 < (1u64 << b) && s2 < (1u64 << b) && d2 < (1u64
        << b) ==> ((((s1 << b) | d1) == ((s2 << b) | d2)) <==> (s1 == s2 && d1 == d2)))
        by (bit_vector);
}

/// Every well-formed edge key lies below the universe bound of its graph.
pub proof fn lemma_encode_below_max(src: NodeT, dst: NodeT, nodes_number: NodeT, node_bits: u8)
    requires
        node_bits <= 32,
        src < nodes_number,
        dst < nodes_number,
        (nodes_number as u64) <= (1u64 << (node_bits as u64)),
    ensures
        spec_encode_edge(src, dst, node_bits) < spec_encode_max_edge(nodes_number, node_bits),
{
    let s = src as u64;
    let d = dst as u64;
    let n = nodes_number as u64;
    let b = node_bits as u64;
    assert(b <= 32 && s < n && d < n && n <= (1u64 << b) && n <= 0xffff_ffffu64 ==> ((s << b) | d)
        < ((n << b) | n)) by (bit_vector);
}

} // verus!
