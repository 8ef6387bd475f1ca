//! Per-point named vector storage and sparse query scoring.
//!
//! A stored point may carry several vectors of different kinds (dense
//! embeddings, sparse index/value pairs) under string names. This crate
//! holds the named-vector container with its borrowed-or-owned entries,
//! the query abstraction over one or more example vectors, and the
//! scorer that compares a query against stored sparse vectors while
//! accounting the compute cost of each comparison. A small side module
//! decodes compiled SPIR-V shader code into words for the GPU layer
//! that consumes this storage.

pub mod counter;
pub mod distances;
pub mod named_vectors;
pub mod query;
pub mod scorer;
pub mod sparse_vector;
pub mod spv;
pub mod storage;
pub mod tiny_store;
pub mod vectors;

use vstd::prelude::*;

verus! {

/// Offset of a stored point inside a vector storage backend.
pub type PointOffsetType = u32;

/// A similarity score.
pub type ScoreType = i64;

} // verus!
