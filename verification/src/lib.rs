//! An in-memory graph engine for machine-learning workloads on graphs.
//!
//! The engine stores a graph as a monotone-encoded edge set: every directed
//! edge occurrence `(src, dst)` is packed into a single integer key, and the
//! keys are kept in an ordered set that answers rank and select queries.  A
//! normalizer ingests raw edge lists, validates, symmetrizes and
//! deduplicates them, and materializes the compact representation; on top of
//! it sit the adjacency queries, uniform random walks, the negative-edge
//! filter and the holdout edge split.

pub mod types;
pub mod codec;
pub mod monotone;
pub mod strnum;
pub mod vocab;
pub mod typed;
pub mod quad;
pub mod normalize;
pub mod dedup_props;
pub mod symmetry;
pub mod graph;
pub mod readers;
pub mod sampling;
