//! Cross-cutting guarantees of the store, stated on their own.

use vstd::prelude::*;

use crate::graph::Graph;
use crate::traversal::{has_result, in_edges, out_edges};
use crate::{EdgeId, VertexId};

verus! {

/// Round-trip adjacency consistency. Every public mutator requires and
/// ensures [`Graph::wf`], so after any sequence of additions and removals
/// both directions hold: every id in any vertex's adjacency list maps to a
/// live edge whose endpoint is that vertex, and every live edge is registered
/// in its source's outgoing list and its target's incoming list.
pub proof fn lemma_adjacency_round_trip(g: Graph)
    requires
        g.wf(),
    ensures
        forall|v: int, k: int|
            0 <= v < g.vertices@.len() && 0 <= k < g.vertices@[v].outgoing@.len()
                ==> g.out_entry_ok(#[trigger] g.vertices@[v].outgoing@[k], v),
        forall|v: int, k: int|
            0 <= v < g.vertices@.len() && 0 <= k < g.vertices@[v].incoming@.len()
                ==> g.in_entry_ok(#[trigger] g.vertices@[v].incoming@[k], v),
        forall|i: int|
            0 <= i < g.edges@.len() && (#[trigger] g.edges@[i]).alive ==> {
                &&& g.vertex_live(g.edges@[i].from)
                &&& g.vertex_live(g.edges@[i].to)
                &&& g.vertices@[g.edges@[i].from.idx as int].outgoing@.contains(
                    EdgeId { idx: i as usize },
                )
                &&& g.vertices@[g.edges@[i].to.idx as int].incoming@.contains(
                    EdgeId { idx: i as usize },
                )
            },
{
    assert forall|v: int, k: int|
        0 <= v < g.vertices@.len() && 0 <= k
            < g.vertices@[v].outgoing@.len() implies g.out_entry_ok(
        #[trigger] g.vertices@[v].outgoing@[k],
        v,
    ) by {
        assert(g.vertex_entry_ok(v));
    }
    assert forall|v: int, k: int|
        0 <= v < g.vertices@.len() && 0 <= k
            < g.vertices@[v].incoming@.len() implies g.in_entry_ok(
        #[trigger] g.vertices@[v].incoming@[k],
        v,
    ) by {
        assert(g.vertex_entry_ok(v));
    }
    assert forall|i: int| 0 <= i < g.edges@.len() && (#[trigger] g.edges@[i]).alive implies {
        &&& g.vertex_live(g.edges@[i].from)
        &&& g.vertex_live(g.edges@[i].to)
        &&& g.vertices@[g.edges@[i].from.idx as int].outgoing@.contains(EdgeId { idx: i as usize })
        &&& g.vertices@[g.edges@[i].to.idx as int].incoming@.contains(EdgeId { idx: i as usize })
    } by {
        assert(g.edge_entry_ok(i));
    }
}

/// Query idempotence for the property filter: on an unmodified store, two
/// `has` calls with identical arguments return identical ordered results,
/// because the result is a function of the store and the arguments alone.
pub proof fn lemma_has_idempotent(
    g: Graph,
    vs: Seq<VertexId>,
    name: Seq<char>,
    value: Seq<char>,
    r1: Seq<VertexId>,
    r2: Seq<VertexId>,
)
    requires
        r1 == has_result(g.vertices@, vs, name, value),
        r2 == has_result(g.vertices@, vs, name, value),
    ensures
        r1 == r2,
{
}

/// Query idempotence for the outgoing-edge filter, as for `has`.
pub proof fn lemma_out_e_idempotent(
    g: Graph,
    vs: Seq<VertexId>,
    name: Seq<char>,
    r1: Seq<EdgeId>,
    r2: Seq<EdgeId>,
)
    requires
        r1 == out_edges(g.vertices@, g.edges@, vs, name),
        r2 == out_edges(g.vertices@, g.edges@, vs, name),
    ensures
        r1 == r2,
{
}

/// Query idempotence for the incoming-edge filter, as for `has`.
pub proof fn lemma_in_e_idempotent(
    g: Graph,
    vs: Seq<VertexId>,
    name: Seq<char>,
    r1: Seq<EdgeId>,
    r2: Seq<EdgeId>,
)
    requires
        r1 == in_edges(g.vertices@, g.edges@, vs, name),
        r2 == in_edges(g.vertices@, g.edges@, vs, name),
    ensures
        r1 == r2,
{
}

} // verus!
