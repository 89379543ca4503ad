//! End-to-end exercises of the graph engine: construction, normalization,
//! adjacency queries and the delimited-text configuration.

use graph::codec::{decode_edge, encode_edge, encode_max_edge, get_node_bits};
use graph::graph::Graph;
use graph::monotone::MonotoneIntegerSet;
use graph::normalize::{build_edges, check_numeric_ids_compatibility};
use graph::symmetry::{check_symmetric, symmetrize};
use graph::quad::{sort_quadruples, Quad};
use graph::readers::{CsvFileReader, EdgeFileReader, TypeFileReader, parse_edge_weight};
use graph::sampling::{filter_negative_candidates, gen_random_vec, split_edges, xorshift};
use graph::strnum::{parse_u32, u32_to_decimal};
use graph::typed::{EdgeTypeVocabulary, NodeTypeVocabulary};
use graph::vocab::Vocabulary;

fn quad(src: u32, dst: u32, et: Option<u32>, w: Option<u32>) -> Quad {
    Quad { src, dst, edge_type: et, weight: w }
}

fn names_vocab(names: &[&str]) -> Vocabulary {
    let mut v = Vocabulary::new();
    for n in names {
        v.insert(n).unwrap();
    }
    v.build_reverse_mapping().unwrap();
    v
}

/// Builds an unweighted, untyped graph from raw directed pairs.
fn graph_from_pairs(names: &[&str], pairs: &[(u32, u32)], directed: bool, symmetrize_input: bool) -> Graph {
    let nodes = names_vocab(names);
    let mut quads: Vec<Quad> = pairs.iter().map(|&(s, d)| quad(s, d, None, None)).collect();
    if symmetrize_input {
        quads = symmetrize(quads);
    }
    let sorted = sort_quadruples(quads);
    let built = build_edges(
        &sorted,
        names.len() as u32,
        true,  // ignore duplicated edges
        false, // weights
        false, // edge types
        true,  // might have singletons
        true,  // might have singletons with selfloops
        true,  // might have trap nodes
        directed,
    )
    .unwrap();
    Graph::new(
        directed,
        built.unique_self_loop_number,
        built.self_loop_number,
        built.not_singleton_nodes_number,
        built.singleton_nodes_with_self_loops_number,
        built.unique_edges_number,
        built.records,
        built.edges,
        built.unique_sources,
        nodes,
        built.node_bit_mask,
        built.node_bits,
        None,
        String::from("test graph"),
        None,
        None,
    )
}

#[test]
fn test_cora_node_centralities() {
    // A small citation-style graph: paper 0 is cited by everyone, the rest
    // form a chain.  Degree centrality must rank node 0 first.
    let names = ["p0", "p1", "p2", "p3", "p4"];
    let pairs = [(1, 0), (2, 0), (3, 0), (4, 0), (1, 2), (2, 3), (3, 4)];
    let g = graph_from_pairs(&names, &pairs, false, true);
    let n = g.get_nodes_number();
    assert_eq!(n, 5);
    let mut degrees = Vec::new();
    for v in 0..n {
        degrees.push(g.get_node_degree(v));
    }
    assert_eq!(degrees[0], 4);
    let max_degree = *degrees.iter().max().unwrap();
    assert_eq!(max_degree, 4);
    // Degree centrality: every centrality is within (0, 1] after dividing
    // by the maximum, and node 0 has centrality one.
    for v in 0..n as usize {
        assert!(degrees[v] >= 1);
        assert!(degrees[v] <= max_degree);
    }
    // The degree sum counts each undirected edge twice.
    let degree_sum: u64 = degrees.iter().sum();
    assert_eq!(degree_sum, g.get_edges_number());
}

#[test]
fn test_codec_round_trip() {
    let bits = get_node_bits(1000);
    assert_eq!(bits, 10);
    let key = encode_edge(997, 3, bits);
    let (src, dst) = decode_edge(key, bits, (1u64 << bits) - 1);
    assert_eq!((src, dst), (997, 3));
    assert!(key < encode_max_edge(1000, bits));
    // Key order is lexicographic on (src, dst).
    assert!(encode_edge(1, 999, bits) < encode_edge(2, 0, bits));
}

#[test]
fn test_monotone_rank_select() {
    let mut set = MonotoneIntegerSet::new(100);
    for v in [5u64, 8, 8, 15, 32] {
        set.push(v).unwrap();
    }
    assert_eq!(set.len(), 5);
    assert_eq!(set.rank(8), 1);
    assert_eq!(set.rank(15), 3);
    assert_eq!(set.rank(99), 5);
    assert_eq!(set.select(3).unwrap(), 15);
    assert!(set.select(5).is_err());
    assert!(set.contains(32));
    assert!(!set.contains(33));
    // Unsorted pushes are rejected and leave the set unchanged.
    assert!(set.push(31).is_err());
    assert_eq!(set.len(), 5);
    // Pushes at or above the universe bound are rejected.
    assert!(set.push(100).is_err());
}

#[test]
fn test_decimal_round_trip() {
    for v in [0u32, 7, 10, 99, 100, 4294967295] {
        let s = u32_to_decimal(v);
        assert_eq!(parse_u32(&s), Some(v));
    }
    assert_eq!(parse_u32("007"), Some(7));
    assert_eq!(parse_u32(""), None);
    assert_eq!(parse_u32("12a"), None);
    assert_eq!(parse_u32("4294967296"), None);
}

#[test]
fn test_vocabulary() {
    let mut v = Vocabulary::new();
    assert_eq!(v.insert("A").unwrap(), (0, false));
    assert_eq!(v.insert("B").unwrap(), (1, false));
    assert_eq!(v.insert("A").unwrap(), (0, true));
    assert!(v.insert("").is_err());
    assert_eq!(v.get("B"), Some(1));
    assert_eq!(v.get("C"), None);
    assert_eq!(v.translate(1).unwrap(), "B");
    assert!(v.translate(2).is_err());
    assert_eq!(v.len(), 2);
}

#[test]
fn test_numeric_vocabulary() {
    let mut v = Vocabulary::new().set_numeric_ids(true);
    assert_eq!(v.insert("7").unwrap(), (7, false));
    assert_eq!(v.insert("3").unwrap(), (3, false));
    assert!(v.insert("x").is_err());
    assert_eq!(v.len(), 8);
    // Gaps make the reverse mapping fail.
    assert!(v.build_reverse_mapping().is_err());
    let mut dense = Vocabulary::new().set_numeric_ids(true);
    dense.insert("1").unwrap();
    dense.insert("0").unwrap();
    dense.build_reverse_mapping().unwrap();
    assert_eq!(dense.translate(1).unwrap(), "1");
    assert_eq!(dense.len(), 2);
}

#[test]
fn test_node_type_vocabulary() {
    let mut nt = NodeTypeVocabulary::new();
    let row = nt.insert_values(Some(vec!["gene".to_string(), "protein".to_string()])).unwrap();
    assert_eq!(row, Some(vec![0, 1]));
    assert_eq!(nt.insert_values(None).unwrap(), None);
    // The same label twice within one element is inconsistent.
    assert!(nt.insert_values(Some(vec!["gene".to_string(), "gene".to_string()])).is_err());
    assert_eq!(nt.get_unknown_count(), 1);
    assert_eq!(nt.count_rows_with(0), 1);
    assert_eq!(nt.len(), 2);
}

#[test]
fn test_s1_undirected_deduplication() {
    // Input edges (A,B), (B,A), (A,B) on an undirected graph with duplicate
    // collapsing: two stored directed occurrences, one undirected edge, no
    // selfloops.
    let g = graph_from_pairs(&["A", "B"], &[(0, 1), (1, 0), (0, 1)], false, true);
    assert_eq!(g.get_nodes_number(), 2);
    assert_eq!(g.get_edges_number(), 2);
    assert!(g.has_edge(0, 1));
    assert!(g.has_edge(1, 0));
    assert_eq!(g.get_self_loop_number(), 0);
    // One undirected edge, counted once.
    assert_eq!(g.get_unique_edges_number(), 1);
}

#[test]
fn test_s2_incomplete_directed_edge_list_fails() {
    // An undirected graph loaded from a directed edge list must define both
    // directions of every edge.
    let quads = vec![quad(0, 1, None, None)];
    let sorted = sort_quadruples(quads);
    assert!(check_symmetric(&sorted).is_err());
    let both = sort_quadruples(vec![quad(0, 1, None, None), quad(1, 0, None, None)]);
    assert!(check_symmetric(&both).is_ok());
}

#[test]
fn test_s6_numeric_id_mismatch() {
    assert!(check_numeric_ids_compatibility(true, true, false).is_err());
    assert!(check_numeric_ids_compatibility(true, true, true).is_ok());
    assert!(check_numeric_ids_compatibility(false, true, false).is_ok());
}

#[test]
fn test_duplicate_edge_rejected() {
    let sorted = sort_quadruples(vec![quad(0, 1, None, None), quad(0, 1, None, None)]);
    let r = build_edges(&sorted, 2, false, false, false, true, true, true, true);
    assert!(r.is_err());
    // With the ignoring policy the duplicate collapses.
    let b = build_edges(&sorted, 2, true, false, false, true, true, true, true).unwrap();
    assert_eq!(b.records.len(), 1);
}

#[test]
fn test_weight_policy() {
    let w = 1.5f32.to_bits();
    assert_eq!(parse_edge_weight(Some(w)).unwrap(), Some(w));
    assert!(parse_edge_weight(Some(f32::NAN.to_bits())).is_err());
    assert!(parse_edge_weight(Some((-1.0f32).to_bits())).is_err());
    assert!(parse_edge_weight(Some(0.0f32.to_bits())).is_err());
    assert!(parse_edge_weight(Some(f32::INFINITY.to_bits())).is_err());
    assert_eq!(parse_edge_weight(None).unwrap(), None);
    // A weight where none is expected, and a missing weight where one is
    // expected, both fail the build.
    let with_w = sort_quadruples(vec![quad(0, 1, None, Some(w))]);
    assert!(build_edges(&with_w, 2, true, false, false, true, true, true, true).is_err());
    let without_w = sort_quadruples(vec![quad(0, 1, None, None)]);
    assert!(build_edges(&without_w, 2, true, true, false, true, true, true, true).is_err());
    // Duplicates with different weights never collapse.
    let dup = sort_quadruples(vec![
        quad(0, 1, None, Some(w)),
        quad(0, 1, None, Some(2.5f32.to_bits())),
    ]);
    assert!(build_edges(&dup, 2, true, true, false, true, true, true, true).is_err());
}

#[test]
fn test_b1_empty_graph() {
    let g = graph_from_pairs(&[], &[], false, true);
    assert_eq!(g.get_nodes_number(), 0);
    assert_eq!(g.get_edges_number(), 0);
    assert_eq!(g.get_unique_edges_number(), 0);
    assert_eq!(g.get_self_loop_number(), 0);
    assert!(!g.has_edge(0, 0));
    assert!(!g.has_edge(3, 7));
}

#[test]
fn test_b2_single_selfloop() {
    let g = graph_from_pairs(&["A"], &[(0, 0)], false, true);
    assert_eq!(g.get_edges_number(), 1);
    assert_eq!(g.get_self_loop_number(), 1);
    assert_eq!(g.get_unique_self_loop_number(), 1);
    assert_eq!(g.get_singleton_nodes_with_self_loops_number(), 1);
    assert_eq!(g.get_not_singleton_nodes_number(), 0);
    assert!(g.has_edge(0, 0));
}

#[test]
fn test_b3_multigraph() {
    // Two distinct edge types on the same endpoints are two stored edges.
    let nodes = names_vocab(&["A", "B"]);
    let mut etv = Vocabulary::new();
    etv.insert("t0").unwrap();
    etv.insert("t1").unwrap();
    etv.build_reverse_mapping().unwrap();
    let sorted = sort_quadruples(vec![quad(0, 1, Some(0), None), quad(0, 1, Some(1), None)]);
    let built = build_edges(&sorted, 2, false, false, true, true, true, true, true).unwrap();
    assert_eq!(built.records.len(), 2);
    assert_eq!(built.unique_edges_number, 1);
    let ets = EdgeTypeVocabulary::from_structs(built.edge_type_ids.unwrap(), etv);
    assert_eq!(ets.get_edge_type(0), Some(0));
    assert_eq!(ets.get_edge_type(1), Some(1));
    assert_eq!(ets.count_edges_with(0), 1);
    let g = Graph::new(
        true,
        built.unique_self_loop_number,
        built.self_loop_number,
        built.not_singleton_nodes_number,
        built.singleton_nodes_with_self_loops_number,
        built.unique_edges_number,
        built.records,
        built.edges,
        built.unique_sources,
        nodes,
        built.node_bit_mask,
        built.node_bits,
        Some(ets),
        String::from("multigraph"),
        None,
        None,
    );
    assert!(g.has_edge(0, 1));
    assert_eq!(g.get_edge_id(0, 1).unwrap(), 0);
    assert_eq!(g.get_node_degree(0), 2);
    let q0 = g.get_edge_quadruple(0);
    let q1 = g.get_edge_quadruple(1);
    assert_ne!(q0.edge_type, q1.edge_type);
}

#[test]
fn test_symmetrize_and_symmetry_check() {
    let rows = vec![quad(2, 0, None, None), quad(0, 1, None, None), quad(1, 1, None, None)];
    let sym = symmetrize(rows);
    assert_eq!(sym.len(), 5);
    let sorted = sort_quadruples(sym);
    assert!(check_symmetric(&sorted).is_ok());
}

#[test]
fn test_graph_queries_triangle() {
    // The undirected cycle A-B-C-A: every node has two neighbours, and the
    // adjacency queries agree with the edge set.
    let g = graph_from_pairs(&["A", "B", "C"], &[(0, 1), (1, 2), (2, 0)], false, true);
    assert_eq!(g.get_edges_number(), 6);
    for v in 0..3u32 {
        assert_eq!(g.get_node_degree(v), 2);
        assert!(!g.is_node_trap(v));
        let neigh = g.get_node_neighbours(v);
        assert_eq!(neigh.len(), 2);
        for d in neigh {
            assert!(g.has_edge(v, d));
            assert!(g.has_edge(d, v));
        }
    }
    assert!(!g.has_edge(0, 0));
    let (lo, hi) = g.get_minmax_edge_ids(1);
    assert_eq!(hi - lo, 2);
    assert_eq!(g.get_edge_id(2, 0).unwrap(), 4);
}

#[test]
fn test_directed_trap_nodes() {
    // In A -> B, node B is a trap: it has no outbound edge.
    let g = graph_from_pairs(&["A", "B"], &[(0, 1)], true, false);
    assert!(!g.is_node_trap(0));
    assert!(g.is_node_trap(1));
    assert!(g.is_edge_trap(0));
    assert_eq!(g.get_edges_number(), 1);
}

#[test]
fn test_edge_file_reader_configuration() {
    let reader = EdgeFileReader::new("graph.tsv".to_string()).unwrap();
    let reader = reader
        .set_sources_column_number(Some(0))
        .unwrap()
        .set_destinations_column_number(Some(1))
        .unwrap()
        .set_separator(Some(",".to_string()))
        .set_header(Some(false))
        .set_verbose(Some(false))
        .set_ignore_duplicates(Some(true))
        .set_skip_self_loops(Some(false))
        .set_rows_to_skip(Some(0))
        .set_default_edge_type(Some("friend".to_string()))
        .set_edge_types_column_number(Some(2))
        .unwrap();
    // A full row parses; the empty edge type cell falls back to the default.
    let row = reader
        .parse_edge_line(vec!["A".to_string(), "B".to_string(), "".to_string()])
        .unwrap();
    assert_eq!(row.0, "A");
    assert_eq!(row.1, "B");
    assert_eq!(row.2, Some("friend".to_string()));
    assert_eq!(row.3, None);
    // A row without the configured column fails.
    assert!(reader.parse_edge_line(vec!["A".to_string()]).is_err());
}

#[test]
fn test_reader_file_shape_validation() {
    let reader = CsvFileReader::new("t.tsv".to_string())
        .set_file_shape(vec!["subject".to_string(), "object".to_string()], 2);
    assert_eq!(reader.get_column_number(&"object".to_string()).unwrap(), 1);
    assert!(reader.get_column_number(&"weight".to_string()).is_err());
    assert_eq!(reader.get_elements_per_line().unwrap(), 2);
    let efr = EdgeFileReader::new("t.tsv".to_string()).unwrap();
    let mut efr = efr;
    efr.reader = reader;
    // Column indices beyond the line width are rejected.
    assert!(efr.set_sources_column_number(Some(5)).is_err());
}

#[test]
fn test_type_file_reader_configuration() {
    let t = TypeFileReader::new("types.tsv".to_string()).unwrap();
    let t = t
        .set_type_column_number(Some(0))
        .unwrap()
        .set_numeric_type_ids(Some(false))
        .set_header(Some(true))
        .set_csv_is_correct(Some(false))
        .set_ignore_duplicates(Some(true))
        .set_rows_to_skip(Some(0))
        .set_max_rows_number(Some(100));
    assert_eq!(t.parse_type_line(vec!["gene".to_string()]).unwrap(), "gene");
    assert!(t.parse_type_line(vec![]).is_err());
    assert!(t.set_comment_symbol(Some("".to_string())).is_err());
}

#[test]
fn test_b3_typed_edge_ids() {
    // Distinct edge types on the same endpoints have distinct identifiers.
    let g = {
        let nodes = names_vocab(&["A", "B"]);
        let sorted = sort_quadruples(vec![quad(0, 1, Some(0), None), quad(0, 1, Some(1), None)]);
        let built = build_edges(&sorted, 2, false, false, true, true, true, true, true).unwrap();
        let mut etv = Vocabulary::new();
        etv.insert("t0").unwrap();
        etv.insert("t1").unwrap();
        etv.build_reverse_mapping().unwrap();
        let ets = EdgeTypeVocabulary::from_structs(built.edge_type_ids.unwrap(), etv);
        Graph::new(
            true,
            built.unique_self_loop_number,
            built.self_loop_number,
            built.not_singleton_nodes_number,
            built.singleton_nodes_with_self_loops_number,
            built.unique_edges_number,
            built.records,
            built.edges,
            built.unique_sources,
            nodes,
            built.node_bit_mask,
            built.node_bits,
            Some(ets),
            String::from("typed"),
            None,
            None,
        )
    };
    let e0 = g.get_edge_id_with_type(0, 1, Some(0)).unwrap();
    let e1 = g.get_edge_id_with_type(0, 1, Some(1)).unwrap();
    assert_ne!(e0, e1);
    assert!(g.get_edge_id_with_type(0, 1, Some(2)).is_err());
    assert!(g.get_edge_id_with_type(1, 0, Some(0)).is_err());
}

#[test]
fn test_xorshift_generator() {
    // The generator is a pure function: equal seeds give equal streams, and
    // the stream is the iterated single step.
    let a = gen_random_vec(8, 42);
    let b = gen_random_vec(8, 42);
    assert_eq!(a, b);
    let mut state = 42u64 ^ graph::types::SEED_XOR;
    for v in &a {
        state = xorshift(state);
        assert_eq!(*v, state);
    }
    assert_ne!(gen_random_vec(8, 43), a);
}

#[test]
fn test_negative_candidate_filtering() {
    // On the triangle, every surviving candidate is a non-edge and no
    // selfloop (the parent has none).
    let g = graph_from_pairs(&["A", "B", "C"], &[(0, 1), (1, 2), (2, 0)], false, true);
    let candidates = gen_random_vec(64, 7);
    let negatives = filter_negative_candidates(&g, &candidates, None);
    for (u, v) in &negatives {
        assert!(!g.has_edge(*u, *v));
        assert_ne!(u, v);
        assert!(*u < 3 && *v < 3);
    }
    // The triangle is complete without selfloops: nothing survives.
    assert!(negatives.is_empty());
    // On a path, the missing pair does survive.
    let p = graph_from_pairs(&["A", "B", "C"], &[(0, 1), (1, 2)], false, true);
    let seeds = vec![true, false, false];
    let negs = filter_negative_candidates(&p, &candidates, Some(&seeds));
    for (u, v) in &negs {
        assert!(!p.has_edge(*u, *v));
        assert!(seeds[*u as usize] || seeds[*v as usize]);
    }
}

#[test]
fn test_split_edges_partition() {
    // The path A-B-C-D-E: the split partitions the edge identifiers, spares
    // the forest, and reaches the target exactly.
    let g = graph_from_pairs(
        &["A", "B", "C", "D", "E"],
        &[(0, 1), (1, 2), (2, 3), (3, 4)],
        false,
        true,
    );
    let e = g.get_edges_number() as usize;
    assert_eq!(e, 8);
    let mut in_forest = vec![false; e];
    in_forest[0] = true;
    in_forest[1] = true;
    let order: Vec<u64> = (0..e as u64).rev().collect();
    let (train, valid) = split_edges(&g, &order, 3, &in_forest).unwrap();
    assert_eq!(valid.len(), 3);
    assert_eq!(train.len() + valid.len(), e);
    for id in &valid {
        assert!(!in_forest[*id as usize]);
        assert!(!train.contains(id));
    }
    for id in 0..e as u64 {
        assert!(train.contains(&id) != valid.contains(&id));
    }
    // An unreachable target is reported.
    assert!(split_edges(&g, &order, 100, &in_forest).is_err());
    // Determinism: the same order gives the same split.
    let again = split_edges(&g, &order, 3, &in_forest).unwrap();
    assert_eq!(again.0, train);
    assert_eq!(again.1, valid);
}

#[test]
fn test_walks_on_triangle() {
    // Walks of length three on the trap-free cycle: full length, start as
    // requested, neighbour-consecutive; same seed, same walk.
    let g = graph_from_pairs(&["A", "B", "C"], &[(0, 1), (1, 2), (2, 0)], false, true);
    for start in 0..3u32 {
        let w = g.complete_walk(start, 3, 7);
        assert_eq!(w.len(), 3);
        assert_eq!(w[0], start);
        for i in 0..w.len() - 1 {
            assert!(g.has_edge(w[i], w[i + 1]));
        }
        assert_eq!(g.complete_walk(start, 3, 7), w);
    }
    // A walk hitting a trap truncates.
    let d = graph_from_pairs(&["A", "B"], &[(0, 1)], true, false);
    let w = d.complete_walk(0, 5, 1);
    assert_eq!(w, vec![0, 1]);
    // The verified step extends by a neighbour of the last node.
    let mut walk = vec![2u32];
    g.extend_walk(&mut walk, 0);
    assert_eq!(walk.len(), 2);
    assert!(g.has_edge(2, walk[1]));
}

#[test]
fn test_determinism_of_construction() {
    // Two constructions from the same input are structurally equal.
    let pairs = [(0u32, 1u32), (1, 2), (2, 0), (2, 2)];
    let g1 = graph_from_pairs(&["A", "B", "C"], &pairs, false, true);
    let g2 = graph_from_pairs(&["A", "B", "C"], &pairs, false, true);
    assert_eq!(g1.get_edges_number(), g2.get_edges_number());
    assert_eq!(g1.get_unique_edges_number(), g2.get_unique_edges_number());
    for e in 0..g1.get_edges_number() {
        let q1 = g1.get_edge_quadruple(e);
        let q2 = g2.get_edge_quadruple(e);
        assert_eq!((q1.src, q1.dst, q1.edge_type, q1.weight), (q2.src, q2.dst, q2.edge_type, q2.weight));
    }
}
