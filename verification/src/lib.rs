//! An in-memory property graph store with a traversal query layer.
//!
//! A graph is built of named vertices (each carrying name/value properties)
//! connected by named, directed edges. Vertices and edges live in arenas
//! inside the [`graph::Graph`] and are addressed by stable identifiers that
//! are never reused. Queries filter vertices by property and walk outgoing
//! or incoming edges; removing a vertex cascades to every incident edge, so
//! no edge ever references a dead vertex.
#![allow(non_snake_case)]

use vstd::prelude::*;

pub mod edge;
pub mod graph;
pub mod laws;
pub mod remove;
pub mod traversal;
pub mod vertex;

verus! {

/// A stable handle for a vertex: the slot index in the store's vertex arena.
/// Slots are never reused, so a `VertexId` never changes meaning within one
/// store.
#[derive(Clone, Copy, PartialEq, Eq, Structural, Debug)]
pub struct VertexId {
    pub idx: usize,
}

/// A stable handle for an edge: the slot index in the store's edge arena.
#[derive(Clone, Copy, PartialEq, Eq, Structural, Debug)]
pub struct EdgeId {
    pub idx: usize,
}

/// The one failure kind: a lookup (by vertex name or by vertex id) found no
/// live target. Every fallible operation reports it instead of panicking.
#[derive(Clone, Copy, PartialEq, Eq, Structural, Debug)]
pub enum GraphError {
    NotFound,
}

} // verus!
