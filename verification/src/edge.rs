//! Edges and the two-stage edge builder.

use vstd::prelude::*;

use crate::graph::{find_vertex, lemma_find_vertex_props, live_edge_ids, live_vertex_ids, Graph};
use crate::{EdgeId, GraphError, VertexId};

verus! {

/// A named, directed connection between two vertex ids. A removed edge stays
/// in its arena slot with `alive` cleared, so its id is never handed to
/// another edge.
pub struct Edge {
    pub name: String,
    pub from: VertexId,
    pub to: VertexId,
    pub alive: bool,
}

impl Edge {
    /// A live edge from `from` to `to`.
    pub fn new(name: String, from: VertexId, to: VertexId) -> (r: Edge)
        ensures
            r == (Edge { name, from, to, alive: true }),
    {
        Edge { name, from, to, alive: true }
    }
}

/// Whether `id` is one of the two endpoints of `e`.
pub open spec fn edge_incident(e: Edge, id: VertexId) -> bool {
    e.from == id || e.to == id
}

/// The first stage of edge construction: only the edge name is fixed and the
/// store is untouched.
pub struct EdgeBuilder {
    pub name: String,
}

/// The second stage: the source vertex has been resolved; the edge is
/// committed, atomically, by [`EdgeToBuilder::to`].
pub struct EdgeToBuilder {
    pub name: String,
    pub from: VertexId,
}

impl EdgeBuilder {
    /// Resolves the source vertex by name (first live match, insertion
    /// order). `NotFound` when no live vertex carries that name; the store is
    /// never touched.
    pub fn from(self, graph: &Graph, from: String) -> (r: Result<EdgeToBuilder, GraphError>)
        ensures
            r == match find_vertex(graph.vertices@, from@) {
                Some(id) => Ok::<EdgeToBuilder, GraphError>(
                    EdgeToBuilder { name: self.name, from: id },
                ),
                None => Err::<EdgeToBuilder, GraphError>(GraphError::NotFound),
            },
    {
        match graph.get_vertex(&from) {
            Ok(id) => Ok(EdgeToBuilder { name: self.name, from: id }),
            Err(e) => Err(e),
        }
    }
}

impl EdgeToBuilder {
    /// Resolves the target vertex by name and commits the edge, atomically:
    /// the fresh edge is inserted and registered in the source's outgoing
    /// list and the target's incoming list, in one step. `NotFound` — with
    /// the store left completely unchanged — when no live vertex carries the
    /// target name, or when the source vertex resolved earlier has since been
    /// removed.
    pub fn to(self, graph: &mut Graph, to: String) -> (r: Result<EdgeId, GraphError>)
        requires
            old(graph).wf(),
        ensures
            final(graph).wf(),
            match r {
                Ok(eid) => {
                    &&& old(graph).vertex_live(self.from)
                    &&& find_vertex(old(graph).vertices@, to@) is Some
                    &&& ({
                        let t = find_vertex(old(graph).vertices@, to@)->Some_0;
                        &&& eid.idx == old(graph).edges@.len()
                        &&& final(graph).edge_live(eid)
                        &&& final(graph).name == old(graph).name
                        &&& final(graph).edges@ == old(graph).edges@.push(
                            Edge { name: self.name, from: self.from, to: t, alive: true },
                        )
                        &&& live_edge_ids(final(graph).edges@) == live_edge_ids(
                            old(graph).edges@,
                        ).push(eid)
                        &&& final(graph).vertices@.len() == old(graph).vertices@.len()
                        &&& (forall|i: int|
                            0 <= i < old(graph).vertices@.len() && i != self.from.idx as int && i
                                != t.idx as int ==> final(graph).vertices@[i] == old(graph).vertices@[i])
                        &&& (forall|i: int|
                            0 <= i < old(graph).vertices@.len() ==> {
                                &&& (#[trigger] final(graph).vertices@[i]).name == old(graph).vertices@[i].name
                                &&& final(graph).vertices@[i].properties == old(graph).vertices@[i].properties
                                &&& final(graph).vertices@[i].alive == old(graph).vertices@[i].alive
                            })
                        &&& final(graph).vertices@[self.from.idx as int].outgoing@ == old(graph).vertices@[self.from.idx as int].outgoing@.push(eid)
                        &&& final(graph).vertices@[t.idx as int].incoming@ == old(graph).vertices@[t.idx as int].incoming@.push(eid)
                        &&& (self.from.idx != t.idx ==> final(graph).vertices@[self.from.idx as int].incoming@ == old(graph).vertices@[self.from.idx as int].incoming@ && final(graph).vertices@[t.idx as int].outgoing@ == old(graph).vertices@[t.idx as int].outgoing@)
                        &&& live_vertex_ids(final(graph).vertices@) == live_vertex_ids(
                            old(graph).vertices@,
                        )
                    })
                },
                Err(e) => {
                    &&& e == GraphError::NotFound
                    &&& *final(graph) == *old(graph)
                    &&& !(old(graph).vertex_live(self.from) && find_vertex(
                        old(graph).vertices@,
                        to@,
                    ) is Some)
                },
            },
    {
        let to_id = match graph.get_vertex(&to) {
            Ok(id) => id,
            Err(_) => {
                return Err(GraphError::NotFound);
            },
        };
        if self.from.idx >= graph.vertices.len() || !graph.vertices[self.from.idx].alive {
            return Err(GraphError::NotFound);
        }
        proof {
            lemma_find_vertex_props(graph.vertices@, to@);
        }
        let eid = graph.insert_edge(self.name, self.from, to_id);
        Ok(eid)
    }
}

} // verus!
