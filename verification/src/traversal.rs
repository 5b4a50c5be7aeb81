//! Read-only traversal queries over a set of vertex ids drawn from a store.
//!
//! Every query follows the same deterministic order: the outer iteration
//! follows the input vertex set, the inner iteration follows each vertex's
//! adjacency-list insertion order. Vertex results of [`Graph::has`] are
//! deduplicated by id; edge results need no deduplication because each edge
//! is registered in exactly one outgoing and one incoming list.

use vstd::prelude::*;

use crate::edge::Edge;
use crate::graph::Graph;
use crate::vertex::{vertex_has_property, Vertex};
use crate::{EdgeId, VertexId};

verus! {

/// The vertices of `vs` (resolved in `s`) owning a property `name` = `value`,
/// in input order, each id listed once.
pub open spec fn has_result(
    s: Seq<Vertex>,
    vs: Seq<VertexId>,
    name: Seq<char>,
    value: Seq<char>,
) -> Seq<VertexId>
    decreases vs.len(),
{
    if vs.len() == 0 {
        Seq::empty()
    } else {
        let p = has_result(s, vs.drop_last(), name, value);
        if vertex_has_property(s[vs.last().idx as int], name, value) && !p.contains(vs.last()) {
            p.push(vs.last())
        } else {
            p
        }
    }
}

/// The entries of the adjacency list `adj` whose edges (looked up in `edges`)
/// carry the name `name`, in list order.
pub open spec fn edges_named(edges: Seq<Edge>, adj: Seq<EdgeId>, name: Seq<char>) -> Seq<EdgeId>
    decreases adj.len(),
{
    if adj.len() == 0 {
        Seq::empty()
    } else {
        let p = edges_named(edges, adj.drop_last(), name);
        if edges[adj.last().idx as int].name@ == name {
            p.push(adj.last())
        } else {
            p
        }
    }
}

/// The edges named `name` leaving the vertices of `vs`, outer order by input
/// vertex, inner order by outgoing-list insertion.
pub open spec fn out_edges(
    vertices: Seq<Vertex>,
    edges: Seq<Edge>,
    vs: Seq<VertexId>,
    name: Seq<char>,
) -> Seq<EdgeId>
    decreases vs.len(),
{
    if vs.len() == 0 {
        Seq::empty()
    } else {
        out_edges(vertices, edges, vs.drop_last(), name) + edges_named(
            edges,
            vertices[vs.last().idx as int].outgoing@,
            name,
        )
    }
}

/// The edges named `name` arriving at the vertices of `vs`, outer order by
/// input vertex, inner order by incoming-list insertion.
pub open spec fn in_edges(
    vertices: Seq<Vertex>,
    edges: Seq<Edge>,
    vs: Seq<VertexId>,
    name: Seq<char>,
) -> Seq<EdgeId>
    decreases vs.len(),
{
    if vs.len() == 0 {
        Seq::empty()
    } else {
        in_edges(vertices, edges, vs.drop_last(), name) + edges_named(
            edges,
            vertices[vs.last().idx as int].incoming@,
            name,
        )
    }
}

/// The `to`-endpoints of the listed edges, in order.
pub open spec fn edge_targets(edges: Seq<Edge>, es: Seq<EdgeId>) -> Seq<VertexId> {
    Seq::new(es.len(), |i: int| edges[es[i].idx as int].to)
}

/// The `from`-endpoints of the listed edges, in order.
pub open spec fn edge_sources(edges: Seq<Edge>, es: Seq<EdgeId>) -> Seq<VertexId> {
    Seq::new(es.len(), |i: int| edges[es[i].idx as int].from)
}

/// Whether `v` holds `id`.
fn contains_vertex_id(v: &Vec<VertexId>, id: VertexId) -> (r: bool)
    ensures
        r == v@.contains(id),
{
    let mut i: usize = 0;
    while i < v.len()
        invariant
            i <= v@.len(),
            forall|j: int| 0 <= j < i ==> v@[j] != id,
        decreases v@.len() - i,
    {
        if v[i] == id {
            return true;
        }
        i += 1;
    }
    false
}

impl Graph {
    /// Every id of `vs` denotes a live vertex of this store.
    pub open spec fn valid_vertex_seq(&self, vs: Seq<VertexId>) -> bool {
        forall|k: int| 0 <= k < vs.len() ==> self.vertex_live(#[trigger] vs[k])
    }

    /// Every vertex of the input set owning at least one property with
    /// exactly this name and value, in input order; a vertex matching several
    /// times (or listed several times in the input) appears once.
    pub fn has(&self, vs: &Vec<VertexId>, property_name: &String, property_value: &String) -> (r:
        Vec<VertexId>)
        requires
            self.valid_vertex_seq(vs@),
        ensures
            r@ == has_result(self.vertices@, vs@, property_name@, property_value@),
    {
        let mut r: Vec<VertexId> = Vec::new();
        let mut k: usize = 0;
        while k < vs.len()
            invariant
                k <= vs@.len(),
                self.valid_vertex_seq(vs@),
                r@ == has_result(
                    self.vertices@,
                    vs@.take(k as int),
                    property_name@,
                    property_value@,
                ),
            decreases vs@.len() - k,
        {
            proof {
                lemma_has_result_take_step(
                    self.vertices@,
                    vs@,
                    property_name@,
                    property_value@,
                    k as int,
                );
                assert(self.vertex_live(vs@[k as int]));
            }
            let vid = vs[k];
            if self.vertices[vid.idx].has_property(property_name, property_value)
                && !contains_vertex_id(&r, vid) {
                r.push(vid);
            }
            k += 1;
        }
        proof {
            assert(vs@.take(vs@.len() as int) =~= vs@);
        }
        r
    }

    /// For each vertex of the input set, in order, every outgoing edge whose
    /// name equals `edge_name`, in adjacency-list order. Because the
    /// adjacency lists are kept consistent with the edge arena, this is exact
    /// with respect to the true graph.
    pub fn outE(&self, vs: &Vec<VertexId>, edge_name: &String) -> (r: Vec<EdgeId>)
        requires
            self.wf(),
            self.valid_vertex_seq(vs@),
        ensures
            r@ == out_edges(self.vertices@, self.edges@, vs@, edge_name@),
            forall|k: int| 0 <= k < r@.len() ==> self.edge_live(#[trigger] r@[k]),
    {
        let mut r: Vec<EdgeId> = Vec::new();
        let mut k: usize = 0;
        while k < vs.len()
            invariant
                k <= vs@.len(),
                self.wf(),
                self.valid_vertex_seq(vs@),
                r@ == out_edges(self.vertices@, self.edges@, vs@.take(k as int), edge_name@),
            decreases vs@.len() - k,
        {
            proof {
                assert(self.vertex_live(vs@[k as int]));
            }
            let vid = vs[k];
            let ghost r_prefix = r@;
            let ghost adj = self.vertices@[vid.idx as int].outgoing@;
            let mut j: usize = 0;
            while j < self.vertices[vid.idx].outgoing.len()
                invariant
                    j <= adj.len(),
                    k < vs@.len(),
                    vid == vs@[k as int],
                    vid.idx < self.vertices@.len(),
                    adj == self.vertices@[vid.idx as int].outgoing@,
                    self.wf(),
                    r@ == r_prefix + edges_named(self.edges@, adj.take(j as int), edge_name@),
                decreases adj.len() - j,
            {
                proof {
                    assert(self.vertex_entry_ok(vid.idx as int));
                    assert(self.out_entry_ok(adj[j as int], vid.idx as int));
                    lemma_edges_named_take_step(self.edges@, adj, edge_name@, j as int);
                }
                let eid = self.vertices[vid.idx].outgoing[j];
                if self.edges[eid.idx].name == *edge_name {
                    proof {
                        assert(r_prefix + edges_named(self.edges@, adj.take(j as int), edge_name@).push(eid)
                            =~= (r_prefix + edges_named(self.edges@, adj.take(j as int), edge_name@)).push(eid));
                    }
                    r.push(eid);
                }
                j += 1;
            }
            proof {
                assert(adj.take(adj.len() as int) =~= adj);
                lemma_out_edges_take_step(self.vertices@, self.edges@, vs@, edge_name@, k as int);
            }
            k += 1;
        }
        proof {
            assert(vs@.take(vs@.len() as int) =~= vs@);
            lemma_out_edges_live(*self, vs@, edge_name@);
        }
        r
    }

    /// For each vertex of the input set, in order, every incoming edge whose
    /// name equals `edge_name`, in adjacency-list order.
    pub fn inE(&self, vs: &Vec<VertexId>, edge_name: &String) -> (r: Vec<EdgeId>)
        requires
            self.wf(),
            self.valid_vertex_seq(vs@),
        ensures
            r@ == in_edges(self.vertices@, self.edges@, vs@, edge_name@),
            forall|k: int| 0 <= k < r@.len() ==> self.edge_live(#[trigger] r@[k]),
    {
        let mut r: Vec<EdgeId> = Vec::new();
        let mut k: usize = 0;
        while k < vs.len()
            invariant
                k <= vs@.len(),
                self.wf(),
                self.valid_vertex_seq(vs@),
                r@ == in_edges(self.vertices@, self.edges@, vs@.take(k as int), edge_name@),
            decreases vs@.len() - k,
        {
            proof {
                assert(self.vertex_live(vs@[k as int]));
            }
            let vid = vs[k];
            let ghost r_prefix = r@;
            let ghost adj = self.vertices@[vid.idx as int].incoming@;
            let mut j: usize = 0;
            while j < self.vertices[vid.idx].incoming.len()
                invariant
                    j <= adj.len(),
                    k < vs@.len(),
                    vid == vs@[k as int],
                    vid.idx < self.vertices@.len(),
                    adj == self.vertices@[vid.idx as int].incoming@,
                    self.wf(),
                    r@ == r_prefix + edges_named(self.edges@, adj.take(j as int), edge_name@),
                decreases adj.len() - j,
            {
                proof {
                    assert(self.vertex_entry_ok(vid.idx as int));
                    assert(self.in_entry_ok(adj[j as int], vid.idx as int));
                    lemma_edges_named_take_step(self.edges@, adj, edge_name@, j as int);
                }
                let eid = self.vertices[vid.idx].incoming[j];
                if self.edges[eid.idx].name == *edge_name {
                    proof {
                        assert(r_prefix + edges_named(self.edges@, adj.take(j as int), edge_name@).push(eid)
                            =~= (r_prefix + edges_named(self.edges@, adj.take(j as int), edge_name@)).push(eid));
                    }
                    r.push(eid);
                }
                j += 1;
            }
            proof {
                assert(adj.take(adj.len() as int) =~= adj);
                lemma_in_edges_take_step(self.vertices@, self.edges@, vs@, edge_name@, k as int);
            }
            k += 1;
        }
        proof {
            assert(vs@.take(vs@.len() as int) =~= vs@);
            lemma_in_edges_live(*self, vs@, edge_name@);
        }
        r
    }

    /// The `to`-endpoints of `outE(vs, edge_name)`: the neighbors reached by
    /// following the named edges forward.
    pub fn out(&self, vs: &Vec<VertexId>, edge_name: &String) -> (r: Vec<VertexId>)
        requires
            self.wf(),
            self.valid_vertex_seq(vs@),
        ensures
            r@ == edge_targets(
                self.edges@,
                out_edges(self.vertices@, self.edges@, vs@, edge_name@),
            ),
    {
        let es = self.outE(vs, edge_name);
        let mut r: Vec<VertexId> = Vec::new();
        let mut k: usize = 0;
        while k < es.len()
            invariant
                k <= es@.len(),
                es@ == out_edges(self.vertices@, self.edges@, vs@, edge_name@),
                forall|j: int| 0 <= j < es@.len() ==> self.edge_live(#[trigger] es@[j]),
                r@ == edge_targets(self.edges@, es@.take(k as int)),
            decreases es@.len() - k,
        {
            proof {
                assert(self.edge_live(es@[k as int]));
            }
            let eid = es[k];
            r.push(self.edges[eid.idx].to);
            proof {
                assert(edge_targets(self.edges@, es@.take(k + 1 as int)) =~= edge_targets(
                    self.edges@,
                    es@.take(k as int),
                ).push(self.edges@[eid.idx as int].to));
            }
            k += 1;
        }
        proof {
            assert(es@.take(es@.len() as int) =~= es@);
        }
        r
    }

    /// The `from`-endpoints of `inE(vs, edge_name)`: the neighbors from which
    /// the named edges arrive.
    pub fn in_(&self, vs: &Vec<VertexId>, edge_name: &String) -> (r: Vec<VertexId>)
        requires
            self.wf(),
            self.valid_vertex_seq(vs@),
        ensures
            r@ == edge_sources(
                self.edges@,
                in_edges(self.vertices@, self.edges@, vs@, edge_name@),
            ),
    {
        let es = self.inE(vs, edge_name);
        let mut r: Vec<VertexId> = Vec::new();
        let mut k: usize = 0;
        while k < es.len()
            invariant
                k <= es@.len(),
                es@ == in_edges(self.vertices@, self.edges@, vs@, edge_name@),
                forall|j: int| 0 <= j < es@.len() ==> self.edge_live(#[trigger] es@[j]),
                r@ == edge_sources(self.edges@, es@.take(k as int)),
            decreases es@.len() - k,
        {
            proof {
                assert(self.edge_live(es@[k as int]));
            }
            let eid = es[k];
            r.push(self.edges[eid.idx].from);
            proof {
                assert(edge_sources(self.edges@, es@.take(k + 1 as int)) =~= edge_sources(
                    self.edges@,
                    es@.take(k as int),
                ).push(self.edges@[eid.idx as int].from));
            }
            k += 1;
        }
        proof {
            assert(es@.take(es@.len() as int) =~= es@);
        }
        r
    }
}

/// One scan step of [`has_result`] over a prefix of the input set.
proof fn lemma_has_result_take_step(
    s: Seq<Vertex>,
    vs: Seq<VertexId>,
    name: Seq<char>,
    value: Seq<char>,
    k: int,
)
    requires
        0 <= k < vs.len(),
    ensures
        has_result(s, vs.take(k + 1), name, value) == ({
            let p = has_result(s, vs.take(k), name, value);
            if vertex_has_property(s[vs[k].idx as int], name, value) && !p.contains(vs[k]) {
                p.push(vs[k])
            } else {
                p
            }
        }),
{
    assert(vs.take(k + 1).drop_last() =~= vs.take(k));
    assert(vs.take(k + 1).last() == vs[k]);
}

/// One scan step of [`edges_named`] over a prefix of an adjacency list.
proof fn lemma_edges_named_take_step(edges: Seq<Edge>, adj: Seq<EdgeId>, name: Seq<char>, j: int)
    requires
        0 <= j < adj.len(),
    ensures
        edges_named(edges, adj.take(j + 1), name) == if edges[adj[j].idx as int].name@ == name {
            edges_named(edges, adj.take(j), name).push(adj[j])
        } else {
            edges_named(edges, adj.take(j), name)
        },
{
    assert(adj.take(j + 1).drop_last() =~= adj.take(j));
    assert(adj.take(j + 1).last() == adj[j]);
}

/// One scan step of [`out_edges`] over a prefix of the input set.
proof fn lemma_out_edges_take_step(
    vertices: Seq<Vertex>,
    edges: Seq<Edge>,
    vs: Seq<VertexId>,
    name: Seq<char>,
    k: int,
)
    requires
        0 <= k < vs.len(),
    ensures
        out_edges(vertices, edges, vs.take(k + 1), name) == out_edges(
            vertices,
            edges,
            vs.take(k),
            name,
        ) + edges_named(edges, vertices[vs[k].idx as int].outgoing@, name),
{
    assert(vs.take(k + 1).drop_last() =~= vs.take(k));
    assert(vs.take(k + 1).last() == vs[k]);
}

/// One scan step of [`in_edges`] over a prefix of the input set.
proof fn lemma_in_edges_take_step(
    vertices: Seq<Vertex>,
    edges: Seq<Edge>,
    vs: Seq<VertexId>,
    name: Seq<char>,
    k: int,
)
    requires
        0 <= k < vs.len(),
    ensures
        in_edges(vertices, edges, vs.take(k + 1), name) == in_edges(
            vertices,
            edges,
            vs.take(k),
            name,
        ) + edges_named(edges, vertices[vs[k].idx as int].incoming@, name),
{
    assert(vs.take(k + 1).drop_last() =~= vs.take(k));
    assert(vs.take(k + 1).last() == vs[k]);
}

/// Every entry selected by [`edges_named`] comes from the scanned list.
proof fn lemma_edges_named_elems(edges: Seq<Edge>, adj: Seq<EdgeId>, name: Seq<char>)
    ensures
        forall|k: int|
            0 <= k < edges_named(edges, adj, name).len() ==> adj.contains(
                #[trigger] edges_named(edges, adj, name)[k],
            ),
    decreases adj.len(),
{
    if adj.len() > 0 {
        lemma_edges_named_elems(edges, adj.drop_last(), name);
        let p = edges_named(edges, adj.drop_last(), name);
        assert forall|k: int| 0 <= k < edges_named(edges, adj, name).len() implies adj.contains(
            #[trigger] edges_named(edges, adj, name)[k],
        ) by {
            let r = edges_named(edges, adj, name);
            if k < p.len() {
                assert(r[k] == p[k]);
                assert(adj.drop_last().contains(p[k]));
                let j = choose|j: int| 0 <= j < adj.drop_last().len() && adj.drop_last()[j] == p[k];
                assert(adj[j] == p[k]);
            } else {
                assert(r[k] == adj.last());
                assert(adj[adj.len() - 1] == adj.last());
            }
        }
    }
}

/// Under store consistency, every edge returned by an outgoing scan over live
/// vertices is live.
proof fn lemma_out_edges_live(g: Graph, vs: Seq<VertexId>, name: Seq<char>)
    requires
        g.wf(),
        g.valid_vertex_seq(vs),
    ensures
        forall|k: int|
            0 <= k < out_edges(g.vertices@, g.edges@, vs, name).len() ==> g.edge_live(
                #[trigger] out_edges(g.vertices@, g.edges@, vs, name)[k],
            ),
    decreases vs.len(),
{
    if vs.len() > 0 {
        assert forall|k: int| 0 <= k < vs.drop_last().len() implies g.vertex_live(
            #[trigger] vs.drop_last()[k],
        ) by {
            assert(vs.drop_last()[k] == vs[k]);
        }
        lemma_out_edges_live(g, vs.drop_last(), name);
        let vid = vs.last();
        assert(g.vertex_live(vs[vs.len() - 1]));
        assert(g.vertex_entry_ok(vid.idx as int));
        let adj = g.vertices@[vid.idx as int].outgoing@;
        lemma_edges_named_elems(g.edges@, adj, name);
        let p = out_edges(g.vertices@, g.edges@, vs.drop_last(), name);
        let q = edges_named(g.edges@, adj, name);
        assert forall|k: int|
            0 <= k < out_edges(g.vertices@, g.edges@, vs, name).len() implies g.edge_live(
            #[trigger] out_edges(g.vertices@, g.edges@, vs, name)[k],
        ) by {
            let r = out_edges(g.vertices@, g.edges@, vs, name);
            if k < p.len() {
                assert(r[k] == p[k]);
            } else {
                assert(r[k] == q[k - p.len()]);
                assert(adj.contains(q[k - p.len()]));
                let j = choose|j: int| 0 <= j < adj.len() && adj[j] == q[k - p.len()];
                assert(g.out_entry_ok(adj[j], vid.idx as int));
            }
        }
    }
}

/// Under store consistency, every edge returned by an incoming scan over live
/// vertices is live.
proof fn lemma_in_edges_live(g: Graph, vs: Seq<VertexId>, name: Seq<char>)
    requires
        g.wf(),
        g.valid_vertex_seq(vs),
    ensures
        forall|k: int|
            0 <= k < in_edges(g.vertices@, g.edges@, vs, name).len() ==> g.edge_live(
                #[trigger] in_edges(g.vertices@, g.edges@, vs, name)[k],
            ),
    decreases vs.len(),
{
    if vs.len() > 0 {
        assert forall|k: int| 0 <= k < vs.drop_last().len() implies g.vertex_live(
            #[trigger] vs.drop_last()[k],
        ) by {
            assert(vs.drop_last()[k] == vs[k]);
        }
        lemma_in_edges_live(g, vs.drop_last(), name);
        let vid = vs.last();
        assert(g.vertex_live(vs[vs.len() - 1]));
        assert(g.vertex_entry_ok(vid.idx as int));
        let adj = g.vertices@[vid.idx as int].incoming@;
        lemma_edges_named_elems(g.edges@, adj, name);
        let p = in_edges(g.vertices@, g.edges@, vs.drop_last(), name);
        let q = edges_named(g.edges@, adj, name);
        assert forall|k: int|
            0 <= k < in_edges(g.vertices@, g.edges@, vs, name).len() implies g.edge_live(
            #[trigger] in_edges(g.vertices@, g.edges@, vs, name)[k],
        ) by {
            let r = in_edges(g.vertices@, g.edges@, vs, name);
            if k < p.len() {
                assert(r[k] == p[k]);
            } else {
                assert(r[k] == q[k - p.len()]);
                assert(adj.contains(q[k - p.len()]));
                let j = choose|j: int| 0 <= j < adj.len() && adj[j] == q[k - p.len()];
                assert(g.in_entry_ok(adj[j], vid.idx as int));
            }
        }
    }
}

} // verus!
