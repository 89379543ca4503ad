//! Verified decision logic of the walker and the sampler.
//!
//! Randomness is integer work here: the xorshift generator is written out
//! and proved exact, candidate edges drawn from it are filtered against the
//! graph by verified code, and the holdout split partitions the edge
//! identifiers for any shuffled order handed in.  Only the float-biased
//! transition weighting of node2vec stays outside, feeding its choice back
//! through `extend_walk`.

use vstd::prelude::*;
use crate::types::{NodeT, EdgeT, SEED_XOR};
use crate::graph::{Graph, spec_count_src};
use crate::vocab::spec_count_true;

verus! {

/// The xorshift successor of a generator state.
pub open spec fn spec_xorshift(x: u64) -> u64 {
    let a = x ^ (x << 13);
    let b = a ^ (a >> 7);
    b ^ (b << 17)
}

/// Advances the xorshift generator by one step.
pub fn xorshift(x: u64) -> (r: u64)
    ensures
        r == spec_xorshift(x),
{
    let a = x ^ (x << 13u64);
    let b = a ^ (a >> 7u64);
    b ^ (b << 17u64)
}

/// The generator state after `n + 1` steps from `seed`.
pub open spec fn spec_xorshift_iter(n: nat, seed: u64) -> u64
    decreases n,
{
    if n == 0 {
        spec_xorshift(seed)
    } else {
        spec_xorshift(spec_xorshift_iter((n - 1) as nat, seed))
    }
}

/// Returns `size` successive xorshift states seeded by `seed` mixed with
/// the fixed constant, so that a zero seed does not stick to the
/// generator's zero fixed point.
pub fn gen_random_vec(size: usize, seed: u64) -> (r: Vec<u64>)
    ensures
        r@.len() == size,
        forall|i: int| 0 <= i < size ==> #[trigger] r@[i] == spec_xorshift_iter(
            i as nat,
            seed ^ SEED_XOR,
        ),
{
    let mixed = seed ^ SEED_XOR;
    let mut out: Vec<u64> = Vec::new();
    let mut state: u64 = mixed;
    let mut i: usize = 0;
    while i < size
        invariant
            i <= size,
            out@.len() == i,
            i == 0 ==> state == mixed,
            i > 0 ==> state == spec_xorshift_iter((i - 1) as nat, mixed),
            forall|j: int| 0 <= j < i ==> #[trigger] out@[j] == spec_xorshift_iter(
                j as nat,
                mixed,
            ),
        decreases size - i,
    {
        state = xorshift(state);
        out.push(state);
        i = i + 1;
    }
    out
}

/// Turns uniformly drawn values into negative-edge candidates: each value
/// is decoded into a node pair, and the pair survives only when the graph
/// does not store it, when it respects the parent's selfloop policy, and
/// when it touches a seed node if a seed set was given.
pub fn filter_negative_candidates(
    g: &Graph,
    candidates: &Vec<u64>,
    seed_nodes: Option<&Vec<bool>>,
) -> (r: Vec<(NodeT, NodeT)>)
    requires
        g.well_formed(),
        seed_nodes is Some ==> seed_nodes.unwrap()@.len() == g.spec_nodes_number(),
    ensures
        forall|k: int|
            0 <= k < r@.len() ==> !g.spec_has_edge((#[trigger] r@[k]).0, r@[k].1),
        forall|k: int|
            0 <= k < r@.len() ==> (#[trigger] r@[k]).0 < g.spec_nodes_number() && r@[k].1
                < g.spec_nodes_number(),
        g.spec_self_loop_number() == 0 ==> forall|k: int|
            0 <= k < r@.len() ==> (#[trigger] r@[k]).0 != r@[k].1,
        seed_nodes is Some ==> forall|k: int|
            0 <= k < r@.len() ==> seed_nodes.unwrap()@[(#[trigger] r@[k]).0 as int]
                || seed_nodes.unwrap()@[r@[k].1 as int],
{
    let n = g.get_nodes_number();
    let mut out: Vec<(NodeT, NodeT)> = Vec::new();
    if n == 0 {
        return out;
    }
    let allow_selfloops = g.has_selfloops();
    let mut k: usize = 0;
    while k < candidates.len()
        invariant
            g.well_formed(),
            n == g.spec_nodes_number(),
            n > 0,
            allow_selfloops == (g.spec_self_loop_number() > 0),
            seed_nodes is Some ==> seed_nodes.unwrap()@.len() == g.spec_nodes_number(),
            forall|m: int|
                0 <= m < out@.len() ==> !g.spec_has_edge((#[trigger] out@[m]).0, out@[m].1),
            forall|m: int|
                0 <= m < out@.len() ==> (#[trigger] out@[m]).0 < n && out@[m].1 < n,
            !allow_selfloops ==> forall|m: int|
                0 <= m < out@.len() ==> (#[trigger] out@[m]).0 != out@[m].1,
            seed_nodes is Some ==> forall|m: int|
                0 <= m < out@.len() ==> seed_nodes.unwrap()@[(#[trigger] out@[m]).0 as int]
                    || seed_nodes.unwrap()@[out@[m].1 as int],
        decreases candidates@.len() - k,
    {
        let value = candidates[k];
        let src = ((value >> 32u64) % (n as u64)) as NodeT;
        let dst = ((value & 0xffff_ffffu64) % (n as u64)) as NodeT;
        let mut accept = !g.has_edge(src, dst);
        if src == dst && !allow_selfloops {
            accept = false;
        }
        if let Some(sn) = seed_nodes {
            if !sn[src as usize] && !sn[dst as usize] {
                accept = false;
            }
        }
        if accept {
            out.push((src, dst));
        }
        k = k + 1;
    }
    out
}

/// Splits the edge identifiers into a training and a validation part.
/// Walking the shuffled `order`, edge identifiers that are not spanning
/// forest edges move to validation until `valid_target` of them are
/// collected; everything else trains.  Whatever order is handed in, the
/// two parts partition the identifiers, validation has exactly the target
/// size, and every forest edge stays in training.
#[verifier::rlimit(100)]
pub fn split_edges(g: &Graph, order: &Vec<EdgeT>, valid_target: u64, in_forest: &Vec<bool>) -> (r:
    Result<(Vec<EdgeT>, Vec<EdgeT>), String>)
    requires
        in_forest@.len() == g.quads().len(),
    ensures
        r.is_ok() ==> {
            let (train, valid) = r.unwrap();
            &&& valid@.len() == valid_target
            &&& train@.len() + valid@.len() == g.quads().len()
            &&& (forall|j: int| 0 <= j < train@.len() ==> (#[trigger] train@[j]) < g.quads().len())
            &&& (forall|j: int| 0 <= j < valid@.len() ==> (#[trigger] valid@[j]) < g.quads().len())
            &&& (forall|e: EdgeT|
                e < g.quads().len() ==> (train@.contains(e) <==> !valid@.contains(e)))
            &&& (forall|j: int|
                0 <= j < valid@.len() ==> !in_forest@[(#[trigger] valid@[j]) as int])
        },
{
    let edges_number = g.edges_len();
    let mut marks: Vec<bool> = Vec::new();
    let mut v: usize = 0;
    while v < edges_number
        invariant
            v <= edges_number,
            marks@.len() == v,
            forall|m: int| 0 <= m < v ==> !(#[trigger] marks@[m]),
        decreases edges_number - v,
    {
        marks.push(false);
        v = v + 1;
    }
    let mut count: u64 = 0;
    let mut k: usize = 0;
    proof {
        lemma_count_marked_zero(marks@);
    }
    while k < order.len() && count < valid_target
        invariant
            marks@.len() == edges_number,
            in_forest@.len() == edges_number,
            k <= order@.len(),
            count == spec_count_true(marks@),
            count <= valid_target,
            forall|m: int| 0 <= m < edges_number ==> (#[trigger] marks@[m] ==> !in_forest@[m]),
        decreases order@.len() - k,
    {
        let e = order[k];
        if e < edges_number as u64 {
            let idx = e as usize;
            if !marks[idx] && !in_forest[idx] {
                let ghost marks0 = marks@;
                marks.set(idx, true);
                proof {
                    crate::vocab::lemma_count_true_update(marks0, idx as int);
                }
                count = count + 1;
            }
        }
        k = k + 1;
    }
    if count < valid_target {
        return Err(String::from_str(
            "The validation set cannot reach the requested size: too few edges are eligible.",
        ));
    }
    let mut train: Vec<EdgeT> = Vec::new();
    let mut valid: Vec<EdgeT> = Vec::new();
    let mut e: usize = 0;
    proof {
        lemma_count_prefix_zero(marks@);
    }
    while e < edges_number
        invariant
            marks@.len() == edges_number,
            in_forest@.len() == edges_number,
            e <= edges_number,
            train@.len() + valid@.len() == e,
            valid@.len() == spec_count_true(marks@.take(e as int)),
            forall|m: int| 0 <= m < edges_number ==> (#[trigger] marks@[m] ==> !in_forest@[m]),
            forall|j: int| 0 <= j < train@.len() ==> (#[trigger] train@[j]) < e,
            forall|j: int| 0 <= j < valid@.len() ==> (#[trigger] valid@[j]) < e,
            forall|x: EdgeT|
                x < e ==> (train@.contains(x) <==> !(#[trigger] marks@[x as int])),
            forall|x: EdgeT| x < e ==> (valid@.contains(x) <==> marks@[x as int]),
        decreases edges_number - e,
    {
        let ghost train0 = train@;
        let ghost valid0 = valid@;
        if marks[e] {
            valid.push(e as EdgeT);
        } else {
            train.push(e as EdgeT);
        }
        e = e + 1;
        proof {
            assert(marks@.take(e as int).drop_last() =~= marks@.take(e as int - 1));
            assert forall|x: EdgeT| x < e implies (train@.contains(x) <==> !(
            #[trigger] marks@[x as int])) by {
                if x < e - 1 {
                    if train0.contains(x) {
                        let w = choose|w: int| 0 <= w < train0.len() && train0[w] == x;
                        assert(train@[w] == x);
                    }
                    if train@.contains(x) {
                        let w = choose|w: int| 0 <= w < train@.len() && train@[w] == x;
                        assert(w < train0.len() || train@[w] == e - 1);
                        if w < train0.len() {
                            assert(train0[w] == x);
                        }
                    }
                } else {
                    if !marks@[x as int] {
                        assert(train@[train@.len() - 1] == x);
                    } else {
                        if train@.contains(x) {
                            let w = choose|w: int| 0 <= w < train@.len() && train@[w] == x;
                            assert(w < train0.len());
                        }
                    }
                }
            }
            assert forall|x: EdgeT| x < e implies (valid@.contains(x) <==> marks@[x as int]) by {
                if x < e - 1 {
                    if valid0.contains(x) {
                        let w = choose|w: int| 0 <= w < valid0.len() && valid0[w] == x;
                        assert(valid@[w] == x);
                    }
                    if valid@.contains(x) {
                        let w = choose|w: int| 0 <= w < valid@.len() && valid@[w] == x;
                        if w < valid0.len() {
                            assert(valid0[w] == x);
                        }
                    }
                } else {
                    if marks@[x as int] {
                        assert(valid@[valid@.len() - 1] == x);
                    } else {
                        if valid@.contains(x) {
                            let w = choose|w: int| 0 <= w < valid@.len() && valid@[w] == x;
                            assert(w < valid0.len());
                        }
                    }
                }
            }
        }
    }
    proof {
        assert(marks@.take(edges_number as int) =~= marks@);
        assert forall|j: int| 0 <= j < valid@.len() implies !in_forest@[(
        #[trigger] valid@[j]) as int] by {
            let x = valid@[j];
            assert(valid@.contains(x));
            assert(marks@[x as int]);
        }
    }
    Ok((train, valid))
}

/// An all-false bitmap counts zero.
proof fn lemma_count_marked_zero(s: Seq<bool>)
    requires
        forall|m: int| 0 <= m < s.len() ==> !(#[trigger] s[m]),
    ensures
        spec_count_true(s) == 0,
    decreases s.len(),
{
    if s.len() > 0 {
        lemma_count_marked_zero(s.drop_last());
    }
}

/// The empty prefix counts zero.
proof fn lemma_count_prefix_zero(s: Seq<bool>)
    ensures
        spec_count_true(s.take(0)) == 0,
{
    assert(s.take(0) =~= Seq::<bool>::empty());
}

impl Graph {
    /// Appends the `chosen`-th neighbour of the walk's last node.  This is
    /// the verified step of the walker: whatever biased (or uniform) draw
    /// produced `chosen`, the walk stays neighbour-consecutive.
    #[verifier::rlimit(60)]
    pub fn extend_walk(&self, walk: &mut Vec<NodeT>, chosen: EdgeT)
        requires
            self.well_formed(),
            old(walk)@.len() > 0,
            old(walk)@.last() < self.spec_nodes_number(),
            chosen < spec_count_src(self.quads(), old(walk)@.last()),
        ensures
            final(walk)@.len() == old(walk)@.len() + 1,
            final(walk)@.drop_last() == old(walk)@,
            self.spec_has_edge(old(walk)@.last(), final(walk)@.last()),
            final(walk)@.last() < self.spec_nodes_number(),
    {
        let last = walk[walk.len() - 1];
        let (r0, r1) = self.src_range(last);
        proof {
            crate::graph::lemma_count_src_interval(self.quads(), last, r0 as int, r1 as int);
        }
        let e = r0 + chosen as usize;
        proof {
            assert(self.quads()[e as int].src == last);
        }
        let q = self.get_edge_quadruple(e as EdgeT);
        walk.push(q.dst);
        proof {
            assert(final(walk)@.drop_last() =~= old(walk)@);
            assert(self.spec_has_edge(old(walk)@.last(), q.dst)) by {
                assert(self.quads()[e as int].src == old(walk)@.last() && self.quads()[e as int].dst
                    == q.dst);
            }
        }
    }

    /// Produces one walk of up to `length` nodes from `start`, choosing
    /// each step uniformly with the xorshift generator seeded by `seed`.
    /// On a graph without traps the walk has exactly `length` nodes; it
    /// starts at `start`, stays on nodes, and every consecutive pair is a
    /// stored edge.
    #[verifier::rlimit(60)]
    pub fn complete_walk(&self, start: NodeT, length: usize, seed: u64) -> (r: Vec<NodeT>)
        requires
            self.well_formed(),
            start < self.spec_nodes_number(),
            length >= 1,
        ensures
            1 <= r@.len() <= length,
            r@[0] == start,
            forall|i: int| 0 <= i < r@.len() ==> #[trigger] r@[i] < self.spec_nodes_number(),
            forall|i: int| 0 <= i < r@.len() - 1 ==> self.spec_has_edge(
                #[trigger] r@[i],
                r@[i + 1],
            ),
            r@.len() < length ==> spec_count_src(self.quads(), r@.last()) == 0,
    {
        let mut walk: Vec<NodeT> = Vec::new();
        walk.push(start);
        let mut state: u64 = seed ^ SEED_XOR;
        while walk.len() < length
            invariant
                self.well_formed(),
                1 <= walk@.len() <= length,
                walk@[0] == start,
                forall|i: int| 0 <= i < walk@.len() ==> #[trigger] walk@[i]
                    < self.spec_nodes_number(),
                forall|i: int| 0 <= i < walk@.len() - 1 ==> self.spec_has_edge(
                    #[trigger] walk@[i],
                    walk@[i + 1],
                ),
            decreases length - walk@.len(),
        {
            let last = walk[walk.len() - 1];
            let degree = self.get_node_degree(last);
            if degree == 0 {
                return walk;
            }
            state = xorshift(state);
            let chosen = state % degree;
            let ghost before = walk@;
            self.extend_walk(&mut walk, chosen);
            proof {
                assert(forall|i: int| 0 <= i < before.len() ==> #[trigger] walk@[i] == before[i]);
            }
        }
        walk
    }
}

} // verus!
