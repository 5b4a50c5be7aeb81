//! Vertex removal with cascading edge cleanup.

use vstd::prelude::*;

use crate::edge::{edge_incident, Edge};
use crate::graph::{lemma_push_no_duplicates, Graph};
use crate::{EdgeId, GraphError, VertexId};

verus! {

/// The entries of the adjacency list `adj` whose edges (looked up in `edges`)
/// are not incident to `id`, in their original order: what a list must look
/// like after every edge touching `id` has been removed.
pub open spec fn retained(adj: Seq<EdgeId>, edges: Seq<Edge>, id: VertexId) -> Seq<EdgeId>
    decreases adj.len(),
{
    if adj.len() == 0 {
        Seq::empty()
    } else if edge_incident(edges[adj.last().idx as int], id) {
        retained(adj.drop_last(), edges, id)
    } else {
        retained(adj.drop_last(), edges, id).push(adj.last())
    }
}

/// One scan step of [`retained`] over a prefix.
proof fn lemma_retained_take_step(adj: Seq<EdgeId>, edges: Seq<Edge>, id: VertexId, k: int)
    requires
        0 <= k < adj.len(),
    ensures
        retained(adj.take(k + 1), edges, id) == if edge_incident(
            edges[adj[k].idx as int],
            id,
        ) {
            retained(adj.take(k), edges, id)
        } else {
            retained(adj.take(k), edges, id).push(adj[k])
        },
{
    assert(adj.take(k + 1).drop_last() =~= adj.take(k));
    assert(adj.take(k + 1).last() == adj[k]);
}

/// An entry survives the filter exactly when it was present and its edge is
/// not incident to the removed vertex.
pub proof fn lemma_retained_membership(adj: Seq<EdgeId>, edges: Seq<Edge>, id: VertexId)
    ensures
        forall|e: EdgeId|
            #[trigger] retained(adj, edges, id).contains(e) <==> (adj.contains(e)
                && !edge_incident(edges[e.idx as int], id)),
    decreases adj.len(),
{
    if adj.len() > 0 {
        lemma_retained_membership(adj.drop_last(), edges, id);
        let p = retained(adj.drop_last(), edges, id);
        let r = retained(adj, edges, id);
        assert forall|e: EdgeId| #[trigger] r.contains(e) implies (adj.contains(e)
            && !edge_incident(edges[e.idx as int], id)) by {
            if p.contains(e) {
                assert(adj.drop_last().contains(e));
                let k = choose|k: int| 0 <= k < adj.drop_last().len() && adj.drop_last()[k] == e;
                assert(adj[k] == e);
            } else {
                // `e` can only be the freshly pushed last entry.
                let k = choose|k: int| 0 <= k < r.len() && r[k] == e;
                assert(r == p.push(adj.last()));
                assert(e == adj.last());
                assert(adj[adj.len() - 1] == e);
            }
        }
        assert forall|e: EdgeId|
            adj.contains(e) && !edge_incident(edges[e.idx as int], id) implies #[trigger] r.contains(
            e,
        ) by {
            let k = choose|k: int| 0 <= k < adj.len() && adj[k] == e;
            if k < adj.len() - 1 {
                assert(adj.drop_last()[k] == e);
                assert(adj.drop_last().contains(e));
                assert(p.contains(e));
                if r == p.push(adj.last()) {
                    let j = choose|j: int| 0 <= j < p.len() && p[j] == e;
                    assert(r[j] == e);
                }
            } else {
                assert(e == adj.last());
                assert(r == p.push(e));
                assert(r[p.len() as int] == e);
            }
        }
    }
}

/// The filter keeps a duplicate-free list duplicate-free.
pub proof fn lemma_retained_no_duplicates(adj: Seq<EdgeId>, edges: Seq<Edge>, id: VertexId)
    requires
        adj.no_duplicates(),
    ensures
        retained(adj, edges, id).no_duplicates(),
    decreases adj.len(),
{
    if adj.len() > 0 {
        assert(adj.drop_last().no_duplicates()) by {
            assert forall|i: int, j: int|
                0 <= i < adj.drop_last().len() && 0 <= j < adj.drop_last().len() && i
                    != j implies adj.drop_last()[i] != adj.drop_last()[j] by {
                assert(adj[i] != adj[j]);
            }
        }
        lemma_retained_no_duplicates(adj.drop_last(), edges, id);
        lemma_retained_membership(adj.drop_last(), edges, id);
        let p = retained(adj.drop_last(), edges, id);
        if !edge_incident(edges[adj.last().idx as int], id) {
            assert(!adj.drop_last().contains(adj.last())) by {
                if adj.drop_last().contains(adj.last()) {
                    let k = choose|k: int|
                        0 <= k < adj.drop_last().len() && adj.drop_last()[k] == adj.last();
                    assert(adj[k] == adj[adj.len() - 1]);
                }
            }
            assert(!p.contains(adj.last()));
            lemma_push_no_duplicates(p, adj.last());
        }
    }
}

/// The filter reads only the endpoints of the listed edges, so two edge
/// arenas that agree on those endpoints filter alike.
proof fn lemma_retained_edges_agree(
    adj: Seq<EdgeId>,
    edges1: Seq<Edge>,
    edges2: Seq<Edge>,
    id: VertexId,
)
    requires
        forall|k: int|
            0 <= k < adj.len() ==> {
                &&& (#[trigger] adj[k]).idx < edges1.len()
                &&& adj[k].idx < edges2.len()
                &&& edges1[adj[k].idx as int].from == edges2[adj[k].idx as int].from
                &&& edges1[adj[k].idx as int].to == edges2[adj[k].idx as int].to
            },
    ensures
        retained(adj, edges1, id) == retained(adj, edges2, id),
    decreases adj.len(),
{
    if adj.len() > 0 {
        assert forall|k: int| 0 <= k < adj.drop_last().len() implies {
            &&& (#[trigger] adj.drop_last()[k]).idx < edges1.len()
            &&& adj.drop_last()[k].idx < edges2.len()
            &&& edges1[adj.drop_last()[k].idx as int].from
                == edges2[adj.drop_last()[k].idx as int].from
            &&& edges1[adj.drop_last()[k].idx as int].to == edges2[adj.drop_last()[k].idx as int].to
        } by {
            assert(adj.drop_last()[k] == adj[k]);
        }
        lemma_retained_edges_agree(adj.drop_last(), edges1, edges2, id);
        assert(adj[adj.len() - 1] == adj.last());
    }
}

/// Copies `adj` without the entries whose edges are incident to `id`.
fn filter_adjacency(adj: &Vec<EdgeId>, edges: &Vec<Edge>, id: VertexId) -> (r: Vec<EdgeId>)
    requires
        forall|k: int| 0 <= k < adj@.len() ==> (#[trigger] adj@[k]).idx < edges@.len(),
    ensures
        r@ == retained(adj@, edges@, id),
{
    let mut r: Vec<EdgeId> = Vec::new();
    let mut k: usize = 0;
    while k < adj.len()
        invariant
            k <= adj@.len(),
            forall|j: int| 0 <= j < adj@.len() ==> (#[trigger] adj@[j]).idx < edges@.len(),
            r@ == retained(adj@.take(k as int), edges@, id),
        decreases adj@.len() - k,
    {
        proof {
            lemma_retained_take_step(adj@, edges@, id, k as int);
        }
        let e = adj[k];
        if !(edges[e.idx].from == id || edges[e.idx].to == id) {
            r.push(e);
        }
        k += 1;
    }
    proof {
        assert(adj@.take(adj@.len() as int) =~= adj@);
    }
    r
}

impl Graph {
    /// Removes a live vertex and, cascading, every edge incident to it: each
    /// such edge dies and is unlinked from its other endpoint's adjacency
    /// list, so no live edge ever references the removed vertex. `NotFound` —
    /// with the store left completely unchanged — when `id` is not live.
    pub fn removeV(&mut self, id: VertexId) -> (r: Result<(), GraphError>)
        requires
            old(self).wf(),
        ensures
            final(self).wf(),
            match r {
                Ok(()) => {
                    &&& old(self).vertex_live(id)
                    &&& final(self).name == old(self).name
                    &&& final(self).vertices@.len() == old(self).vertices@.len()
                    &&& final(self).edges@.len() == old(self).edges@.len()
                    &&& (forall|i: int|
                        0 <= i < old(self).edges@.len() ==> {
                            &&& (#[trigger] final(self).edges@[i]).name == old(self).edges@[i].name
                            &&& final(self).edges@[i].from == old(self).edges@[i].from
                            &&& final(self).edges@[i].to == old(self).edges@[i].to
                            &&& final(self).edges@[i].alive == (old(self).edges@[i].alive
                                && !edge_incident(old(self).edges@[i], id))
                        })
                    &&& (forall|i: int|
                        0 <= i < final(self).edges@.len() && (#[trigger] final(self).edges@[i]).alive ==> !edge_incident(final(self).edges@[i], id))
                    &&& !final(self).vertices@[id.idx as int].alive
                    &&& final(self).vertices@[id.idx as int].name == old(self).vertices@[id.idx as int].name
                    &&& final(self).vertices@[id.idx as int].properties == old(self).vertices@[id.idx as int].properties
                    &&& final(self).vertices@[id.idx as int].outgoing@ == Seq::<EdgeId>::empty()
                    &&& final(self).vertices@[id.idx as int].incoming@ == Seq::<EdgeId>::empty()
                    &&& (forall|v: int|
                        0 <= v < old(self).vertices@.len() && v != id.idx as int ==> {
                            &&& (#[trigger] final(self).vertices@[v]).name == old(self).vertices@[v].name
                            &&& final(self).vertices@[v].properties == old(self).vertices@[v].properties
                            &&& final(self).vertices@[v].alive == old(self).vertices@[v].alive
                            &&& final(self).vertices@[v].outgoing@ == retained(
                                old(self).vertices@[v].outgoing@,
                                old(self).edges@,
                                id,
                            )
                            &&& final(self).vertices@[v].incoming@ == retained(
                                old(self).vertices@[v].incoming@,
                                old(self).edges@,
                                id,
                            )
                        })
                },
                Err(e) => {
                    &&& e == GraphError::NotFound
                    &&& !old(self).vertex_live(id)
                    &&& *final(self) == *old(self)
                },
            },
    {
        if id.idx >= self.vertices.len() || !self.vertices[id.idx].alive {
            return Err(GraphError::NotFound);
        }
        // First pass: every edge incident to `id` dies; endpoints stay on
        // record so the adjacency filter below can still see them.
        let mut i: usize = 0;
        while i < self.edges.len()
            invariant
                i <= self.edges@.len(),
                self.name == old(self).name,
                self.vertices == old(self).vertices,
                self.edges@.len() == old(self).edges@.len(),
                forall|j: int|
                    0 <= j < i ==> {
                        &&& (#[trigger] self.edges@[j]).name == old(self).edges@[j].name
                        &&& self.edges@[j].from == old(self).edges@[j].from
                        &&& self.edges@[j].to == old(self).edges@[j].to
                        &&& self.edges@[j].alive == (old(self).edges@[j].alive && !edge_incident(
                            old(self).edges@[j],
                            id,
                        ))
                    },
                forall|j: int|
                    i <= j < old(self).edges@.len() ==> #[trigger] self.edges@[j] == old(self).edges@[j],
            decreases self.edges@.len() - i,
        {
            if self.edges[i].from == id || self.edges[i].to == id {
                self.edges[i].alive = false;
            }
            i += 1;
        }
        // Second pass: unlink the dead edges from every adjacency list.
        let ghost mid_edges = self.edges@;
        let mut v: usize = 0;
        while v < self.vertices.len()
            invariant
                v <= self.vertices@.len(),
                self.name == old(self).name,
                self.edges@ == mid_edges,
                old(self).wf(),
                self.vertices@.len() == old(self).vertices@.len(),
                mid_edges.len() == old(self).edges@.len(),
                forall|j: int|
                    0 <= j < old(self).edges@.len() ==> {
                        &&& (#[trigger] mid_edges[j]).name == old(self).edges@[j].name
                        &&& mid_edges[j].from == old(self).edges@[j].from
                        &&& mid_edges[j].to == old(self).edges@[j].to
                        &&& mid_edges[j].alive == (old(self).edges@[j].alive && !edge_incident(
                            old(self).edges@[j],
                            id,
                        ))
                    },
                forall|w: int|
                    0 <= w < v ==> {
                        &&& (#[trigger] self.vertices@[w]).name == old(self).vertices@[w].name
                        &&& self.vertices@[w].properties == old(self).vertices@[w].properties
                        &&& self.vertices@[w].alive == old(self).vertices@[w].alive
                        &&& self.vertices@[w].outgoing@ == retained(
                            old(self).vertices@[w].outgoing@,
                            old(self).edges@,
                            id,
                        )
                        &&& self.vertices@[w].incoming@ == retained(
                            old(self).vertices@[w].incoming@,
                            old(self).edges@,
                            id,
                        )
                    },
                forall|w: int|
                    v <= w < old(self).vertices@.len() ==> #[trigger] self.vertices@[w] == old(self).vertices@[w],
            decreases self.vertices@.len() - v,
        {
            proof {
                assert(old(self).vertex_entry_ok(v as int));
            }
            let new_out = filter_adjacency(&self.vertices[v].outgoing, &self.edges, id);
            self.vertices[v].outgoing = new_out;
            let new_in = filter_adjacency(&self.vertices[v].incoming, &self.edges, id);
            self.vertices[v].incoming = new_in;
            proof {
                lemma_retained_edges_agree(
                    old(self).vertices@[v as int].outgoing@,
                    mid_edges,
                    old(self).edges@,
                    id,
                );
                lemma_retained_edges_agree(
                    old(self).vertices@[v as int].incoming@,
                    mid_edges,
                    old(self).edges@,
                    id,
                );
            }
            v += 1;
        }
        // Last: the vertex itself dies with cleared adjacency lists.
        self.vertices[id.idx].alive = false;
        self.vertices[id.idx].outgoing = Vec::new();
        self.vertices[id.idx].incoming = Vec::new();
        proof {
            lemma_wf_remove(*old(self), *self, id);
        }
        Ok(())
    }
}

/// Killing every edge incident to `id`, filtering those edges out of every
/// adjacency list, and clearing the removed vertex itself preserves store
/// consistency.
proof fn lemma_wf_remove(pre: Graph, post: Graph, id: VertexId)
    requires
        pre.wf(),
        pre.vertex_live(id),
        post.vertices@.len() == pre.vertices@.len(),
        post.edges@.len() == pre.edges@.len(),
        forall|i: int|
            0 <= i < pre.edges@.len() ==> {
                &&& (#[trigger] post.edges@[i]).from == pre.edges@[i].from
                &&& post.edges@[i].to == pre.edges@[i].to
                &&& post.edges@[i].alive == (pre.edges@[i].alive && !edge_incident(
                    pre.edges@[i],
                    id,
                ))
            },
        !post.vertices@[id.idx as int].alive,
        post.vertices@[id.idx as int].outgoing@ == Seq::<EdgeId>::empty(),
        post.vertices@[id.idx as int].incoming@ == Seq::<EdgeId>::empty(),
        forall|v: int|
            0 <= v < pre.vertices@.len() && v != id.idx as int ==> {
                &&& (#[trigger] post.vertices@[v]).alive == pre.vertices@[v].alive
                &&& post.vertices@[v].outgoing@ == retained(
                    pre.vertices@[v].outgoing@,
                    pre.edges@,
                    id,
                )
                &&& post.vertices@[v].incoming@ == retained(
                    pre.vertices@[v].incoming@,
                    pre.edges@,
                    id,
                )
            },
    ensures
        post.wf(),
{
    assert(pre.edges.len() == pre.edges@.len());
    assert(pre.vertices.len() == pre.vertices@.len());
    assert forall|v: int| 0 <= v < post.vertices@.len() implies post.vertex_entry_ok(v) by {
        assert(pre.vertex_entry_ok(v));
        if v != id.idx as int {
            let old_out = pre.vertices@[v].outgoing@;
            let old_in = pre.vertices@[v].incoming@;
            lemma_retained_membership(old_out, pre.edges@, id);
            lemma_retained_membership(old_in, pre.edges@, id);
            lemma_retained_no_duplicates(old_out, pre.edges@, id);
            lemma_retained_no_duplicates(old_in, pre.edges@, id);
            let new_out = post.vertices@[v].outgoing@;
            let new_in = post.vertices@[v].incoming@;
            assert forall|k: int| 0 <= k < new_out.len() implies post.out_entry_ok(
                #[trigger] new_out[k],
                v,
            ) by {
                let e = new_out[k];
                assert(new_out.contains(e));
                assert(old_out.contains(e) && !edge_incident(pre.edges@[e.idx as int], id));
                let j = choose|j: int| 0 <= j < old_out.len() && old_out[j] == e;
                assert(pre.out_entry_ok(old_out[j], v));
            }
            assert forall|k: int| 0 <= k < new_in.len() implies post.in_entry_ok(
                #[trigger] new_in[k],
                v,
            ) by {
                let e = new_in[k];
                assert(new_in.contains(e));
                assert(old_in.contains(e) && !edge_incident(pre.edges@[e.idx as int], id));
                let j = choose|j: int| 0 <= j < old_in.len() && old_in[j] == e;
                assert(pre.in_entry_ok(old_in[j], v));
            }
            if !post.vertices@[v].alive {
                assert(old_out == Seq::<EdgeId>::empty());
                assert(old_in == Seq::<EdgeId>::empty());
                assert(new_out == Seq::<EdgeId>::empty());
                assert(new_in == Seq::<EdgeId>::empty());
            }
        }
    }
    assert forall|ei: int| 0 <= ei < post.edges@.len() implies post.edge_entry_ok(ei) by {
        assert(pre.edge_entry_ok(ei));
        let e = post.edges@[ei];
        if e.alive {
            let e_pre = pre.edges@[ei];
            assert(e_pre.alive && !edge_incident(e_pre, id));
            assert(e.from == e_pre.from && e.to == e_pre.to);
            assert(e_pre.from.idx != id.idx && e_pre.to.idx != id.idx);
            lemma_retained_membership(
                pre.vertices@[e.from.idx as int].outgoing@,
                pre.edges@,
                id,
            );
            lemma_retained_membership(
                pre.vertices@[e.to.idx as int].incoming@,
                pre.edges@,
                id,
            );
            assert(pre.vertices@[e.from.idx as int].outgoing@.contains(
                EdgeId { idx: ei as usize },
            ));
            assert(pre.vertices@[e.to.idx as int].incoming@.contains(EdgeId { idx: ei as usize }));
            assert(!edge_incident(pre.edges@[ei], id));
            assert(post.vertices@[e.from.idx as int].outgoing@.contains(
                EdgeId { idx: ei as usize },
            ));
            assert(post.vertices@[e.to.idx as int].incoming@.contains(EdgeId { idx: ei as usize }));
        }
    }
}

} // verus!
