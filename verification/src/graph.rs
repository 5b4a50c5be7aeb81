//! The graph store: arenas of vertices and edges, kept mutually consistent.

use vstd::prelude::*;

use crate::edge::{Edge, EdgeBuilder};
use crate::vertex::{Property, Vertex};
use crate::{EdgeId, GraphError, VertexId};

verus! {

/// A named property graph. Vertices and edges live in two arenas; a slot's
/// index is its entity's id. Removal only clears a slot's `alive` flag, so
/// ids are stable and never reassigned for the life of the store.
pub struct Graph {
    pub name: String,
    pub vertices: Vec<Vertex>,
    pub edges: Vec<Edge>,
}

/// The ids of the live vertices of `s`, in slot (= insertion) order.
pub open spec fn live_vertex_ids(s: Seq<Vertex>) -> Seq<VertexId>
    decreases s.len(),
{
    if s.len() == 0 {
        Seq::empty()
    } else if s.last().alive {
        live_vertex_ids(s.drop_last()).push(VertexId { idx: (s.len() - 1) as usize })
    } else {
        live_vertex_ids(s.drop_last())
    }
}

/// The ids of the live edges of `s`, in slot (= insertion) order.
pub open spec fn live_edge_ids(s: Seq<Edge>) -> Seq<EdgeId>
    decreases s.len(),
{
    if s.len() == 0 {
        Seq::empty()
    } else if s.last().alive {
        live_edge_ids(s.drop_last()).push(EdgeId { idx: (s.len() - 1) as usize })
    } else {
        live_edge_ids(s.drop_last())
    }
}

/// The first live vertex named `name` at slot `i` or later, if any.
pub open spec fn find_vertex_from(s: Seq<Vertex>, name: Seq<char>, i: int) -> Option<VertexId>
    decreases s.len() - i,
{
    if i < 0 || i >= s.len() {
        None
    } else if s[i].alive && s[i].name@ == name {
        Some(VertexId { idx: i as usize })
    } else {
        find_vertex_from(s, name, i + 1)
    }
}

/// The first live vertex named `name`, in insertion order, if any.
pub open spec fn find_vertex(s: Seq<Vertex>, name: Seq<char>) -> Option<VertexId> {
    find_vertex_from(s, name, 0)
}

impl Graph {
    /// `id` denotes a live vertex of this store.
    pub open spec fn vertex_live(&self, id: VertexId) -> bool {
        id.idx < self.vertices@.len() && self.vertices@[id.idx as int].alive
    }

    /// `id` denotes a live edge of this store.
    pub open spec fn edge_live(&self, id: EdgeId) -> bool {
        id.idx < self.edges@.len() && self.edges@[id.idx as int].alive
    }

    /// Adjacency entry `e`, found in the outgoing list of the vertex in slot
    /// `vi`, denotes a live edge that indeed leaves that vertex.
    pub open spec fn out_entry_ok(&self, e: EdgeId, vi: int) -> bool {
        &&& e.idx < self.edges@.len()
        &&& self.edges@[e.idx as int].alive
        &&& self.edges@[e.idx as int].from == (VertexId { idx: vi as usize })
    }

    /// Adjacency entry `e`, found in the incoming list of the vertex in slot
    /// `vi`, denotes a live edge that indeed arrives at that vertex.
    pub open spec fn in_entry_ok(&self, e: EdgeId, vi: int) -> bool {
        &&& e.idx < self.edges@.len()
        &&& self.edges@[e.idx as int].alive
        &&& self.edges@[e.idx as int].to == (VertexId { idx: vi as usize })
    }

    /// The vertex in slot `vi` has consistent adjacency lists: no duplicate
    /// entries, every entry points at a live edge with the matching endpoint,
    /// and a dead vertex holds no entries at all.
    pub open spec fn vertex_entry_ok(&self, vi: int) -> bool {
        let v = self.vertices@[vi];
        &&& v.outgoing@.no_duplicates()
        &&& v.incoming@.no_duplicates()
        &&& (forall|k: int|
            0 <= k < v.outgoing@.len() ==> self.out_entry_ok(#[trigger] v.outgoing@[k], vi))
        &&& (forall|k: int|
            0 <= k < v.incoming@.len() ==> self.in_entry_ok(#[trigger] v.incoming@[k], vi))
        &&& (!v.alive ==> v.outgoing@ == Seq::<EdgeId>::empty() && v.incoming@ == Seq::<
        EdgeId,
        >::empty())
    }

    /// The edge in slot `ei`, if live, joins two live vertices and is
    /// registered in the outgoing list of its source and the incoming list of
    /// its target.
    pub open spec fn edge_entry_ok(&self, ei: int) -> bool {
        let e = self.edges@[ei];
        e.alive ==> {
            &&& self.vertex_live(e.from)
            &&& self.vertex_live(e.to)
            &&& self.vertices@[e.from.idx as int].outgoing@.contains(EdgeId { idx: ei as usize })
            &&& self.vertices@[e.to.idx as int].incoming@.contains(EdgeId { idx: ei as usize })
        }
    }

    /// Store-wide consistency: every adjacency entry points at a live edge
    /// with the matching endpoint, and every live edge is registered at both
    /// of its (live) endpoints — each exactly once, since the lists carry no
    /// duplicates. This holds after construction and after every mutation.
    pub open spec fn wf(&self) -> bool {
        &&& (forall|i: int| 0 <= i < self.vertices@.len() ==> self.vertex_entry_ok(i))
        &&& (forall|i: int| 0 <= i < self.edges@.len() ==> self.edge_entry_ok(i))
    }

    /// An empty, consistent store.
    pub fn new(name: String) -> (r: Graph)
        ensures
            r.name == name,
            r.vertices@ == Seq::<Vertex>::empty(),
            r.edges@ == Seq::<Edge>::empty(),
            r.wf(),
    {
        Graph { name, vertices: Vec::new(), edges: Vec::new() }
    }

    /// Adds a live vertex with no properties; always succeeds and returns the
    /// fresh id, which is the first never-used slot.
    pub fn addV(&mut self, name: String) -> (r: VertexId)
        requires
            old(self).wf(),
        ensures
            r.idx == old(self).vertices@.len(),
            final(self).vertex_live(r),
            final(self).name == old(self).name,
            final(self).edges@ == old(self).edges@,
            final(self).vertices@.len() == old(self).vertices@.len() + 1,
            forall|i: int|
                0 <= i < old(self).vertices@.len() ==> final(self).vertices@[i] == old(self).vertices@[i],
            final(self).vertices@[r.idx as int].name == name,
            final(self).vertices@[r.idx as int].properties@ == Seq::<Property>::empty(),
            final(self).vertices@[r.idx as int].outgoing@ == Seq::<EdgeId>::empty(),
            final(self).vertices@[r.idx as int].incoming@ == Seq::<EdgeId>::empty(),
            final(self).vertices@[r.idx as int].alive,
            live_vertex_ids(final(self).vertices@) == live_vertex_ids(old(self).vertices@).push(r),
            final(self).wf(),
    {
        let id = VertexId { idx: self.vertices.len() };
        self.vertices.push(Vertex::new(name));
        proof {
            lemma_live_vertex_ids_push(old(self).vertices@, self.vertices@.last());
            lemma_wf_push_vertex(*old(self), *self);
        }
        id
    }

    /// Adds a live vertex seeded with `properties` (kept in the given order);
    /// always succeeds and returns the fresh id.
    pub fn addV_with_properties(&mut self, name: String, properties: Vec<Property>) -> (r:
        VertexId)
        requires
            old(self).wf(),
        ensures
            r.idx == old(self).vertices@.len(),
            final(self).vertex_live(r),
            final(self).name == old(self).name,
            final(self).edges@ == old(self).edges@,
            final(self).vertices@.len() == old(self).vertices@.len() + 1,
            forall|i: int|
                0 <= i < old(self).vertices@.len() ==> final(self).vertices@[i] == old(self).vertices@[i],
            final(self).vertices@[r.idx as int].name == name,
            final(self).vertices@[r.idx as int].properties == properties,
            final(self).vertices@[r.idx as int].outgoing@ == Seq::<EdgeId>::empty(),
            final(self).vertices@[r.idx as int].incoming@ == Seq::<EdgeId>::empty(),
            final(self).vertices@[r.idx as int].alive,
            live_vertex_ids(final(self).vertices@) == live_vertex_ids(old(self).vertices@).push(r),
            final(self).wf(),
    {
        let id = VertexId { idx: self.vertices.len() };
        self.vertices.push(
            Vertex {
                name,
                properties,
                outgoing: Vec::new(),
                incoming: Vec::new(),
                alive: true,
            },
        );
        proof {
            lemma_live_vertex_ids_push(old(self).vertices@, self.vertices@.last());
            lemma_wf_push_vertex(*old(self), *self);
        }
        id
    }

    /// Starts the two-stage edge builder; the store is not touched until the
    /// builder's final step commits.
    pub fn addE(&self, name: String) -> (r: EdgeBuilder)
        ensures
            r.name == name,
    {
        EdgeBuilder { name }
    }

    /// The first live vertex whose name equals `name`, in insertion order;
    /// `NotFound` when no live vertex carries that name.
    pub fn get_vertex(&self, name: &String) -> (r: Result<VertexId, GraphError>)
        ensures
            r == match find_vertex(self.vertices@, name@) {
                Some(id) => Ok::<VertexId, GraphError>(id),
                None => Err::<VertexId, GraphError>(GraphError::NotFound),
            },
    {
        let mut i: usize = 0;
        while i < self.vertices.len()
            invariant
                i <= self.vertices@.len(),
                find_vertex(self.vertices@, name@) == find_vertex_from(
                    self.vertices@,
                    name@,
                    i as int,
                ),
            decreases self.vertices@.len() - i,
        {
            if self.vertices[i].alive && self.vertices[i].name == *name {
                return Ok(VertexId { idx: i });
            }
            i += 1;
        }
        Err(GraphError::NotFound)
    }

    /// Commits a new live edge between two live vertices and registers it in
    /// the source's outgoing list and the target's incoming list.
    pub(crate) fn insert_edge(&mut self, name: String, from: VertexId, to: VertexId) -> (r: EdgeId)
        requires
            old(self).wf(),
            old(self).vertex_live(from),
            old(self).vertex_live(to),
        ensures
            r.idx == old(self).edges@.len(),
            final(self).edge_live(r),
            final(self).name == old(self).name,
            final(self).edges@ == old(self).edges@.push(Edge { name, from, to, alive: true }),
            live_edge_ids(final(self).edges@) == live_edge_ids(old(self).edges@).push(r),
            final(self).vertices@.len() == old(self).vertices@.len(),
            forall|i: int|
                0 <= i < old(self).vertices@.len() && i != from.idx as int && i != to.idx as int
                    ==> final(self).vertices@[i] == old(self).vertices@[i],
            forall|i: int|
                0 <= i < old(self).vertices@.len() ==> {
                    &&& (#[trigger] final(self).vertices@[i]).name == old(self).vertices@[i].name
                    &&& final(self).vertices@[i].properties == old(self).vertices@[i].properties
                    &&& final(self).vertices@[i].alive == old(self).vertices@[i].alive
                },
            final(self).vertices@[from.idx as int].outgoing@ == old(self).vertices@[from.idx as int].outgoing@.push(
                r,
            ),
            final(self).vertices@[to.idx as int].incoming@ == old(self).vertices@[to.idx as int].incoming@.push(
                r,
            ),
            from.idx != to.idx ==> final(self).vertices@[from.idx as int].incoming@ == old(self).vertices@[from.idx as int].incoming@ && final(self).vertices@[to.idx as int].outgoing@
                == old(self).vertices@[to.idx as int].outgoing@,
            live_vertex_ids(final(self).vertices@) == live_vertex_ids(old(self).vertices@),
            final(self).wf(),
    {
        let eid = EdgeId { idx: self.edges.len() };
        self.edges.push(Edge::new(name, from, to));
        self.vertices[from.idx].outgoing.push(eid);
        self.vertices[to.idx].incoming.push(eid);
        proof {
            lemma_live_edge_ids_push(old(self).edges@, self.edges@.last());
            lemma_live_vertex_ids_alive_eq(old(self).vertices@, self.vertices@);
            lemma_wf_insert_edge(*old(self), *self, from, to, eid);
        }
        eid
    }

    /// All live vertex ids, in insertion order.
    pub fn V(&self) -> (r: Vec<VertexId>)
        ensures
            r@ == live_vertex_ids(self.vertices@),
            forall|k: int| 0 <= k < r@.len() ==> self.vertex_live(#[trigger] r@[k]),
    {
        let mut r: Vec<VertexId> = Vec::new();
        let mut i: usize = 0;
        while i < self.vertices.len()
            invariant
                i <= self.vertices@.len(),
                r@ == live_vertex_ids(self.vertices@.take(i as int)),
            decreases self.vertices@.len() - i,
        {
            proof {
                lemma_live_vertex_ids_take_step(self.vertices@, i as int);
            }
            if self.vertices[i].alive {
                r.push(VertexId { idx: i });
            }
            i += 1;
        }
        proof {
            assert(self.vertices@.take(self.vertices@.len() as int) =~= self.vertices@);
            lemma_live_vertex_ids_elems(self.vertices@);
        }
        r
    }

    /// All live edge ids, in insertion order.
    pub fn E(&self) -> (r: Vec<EdgeId>)
        ensures
            r@ == live_edge_ids(self.edges@),
            forall|k: int| 0 <= k < r@.len() ==> self.edge_live(#[trigger] r@[k]),
    {
        let mut r: Vec<EdgeId> = Vec::new();
        let mut i: usize = 0;
        while i < self.edges.len()
            invariant
                i <= self.edges@.len(),
                r@ == live_edge_ids(self.edges@.take(i as int)),
            decreases self.edges@.len() - i,
        {
            proof {
                lemma_live_edge_ids_take_step(self.edges@, i as int);
            }
            if self.edges[i].alive {
                r.push(EdgeId { idx: i });
            }
            i += 1;
        }
        proof {
            assert(self.edges@.take(self.edges@.len() as int) =~= self.edges@);
            lemma_live_edge_ids_elems(self.edges@);
        }
        r
    }
}

/// Appending a vertex moves the live-id list by one push exactly when the
/// vertex is alive.
pub proof fn lemma_live_vertex_ids_push(s: Seq<Vertex>, v: Vertex)
    ensures
        live_vertex_ids(s.push(v)) == if v.alive {
            live_vertex_ids(s).push(VertexId { idx: s.len() as usize })
        } else {
            live_vertex_ids(s)
        },
{
    assert(s.push(v).drop_last() =~= s);
    assert(s.push(v).last() == v);
}

/// Appending an edge moves the live-id list by one push exactly when the edge
/// is alive.
pub proof fn lemma_live_edge_ids_push(s: Seq<Edge>, e: Edge)
    ensures
        live_edge_ids(s.push(e)) == if e.alive {
            live_edge_ids(s).push(EdgeId { idx: s.len() as usize })
        } else {
            live_edge_ids(s)
        },
{
    assert(s.push(e).drop_last() =~= s);
    assert(s.push(e).last() == e);
}

/// One scan step of the live-vertex-id list over a prefix.
pub proof fn lemma_live_vertex_ids_take_step(s: Seq<Vertex>, i: int)
    requires
        0 <= i < s.len(),
    ensures
        live_vertex_ids(s.take(i + 1)) == if s[i].alive {
            live_vertex_ids(s.take(i)).push(VertexId { idx: i as usize })
        } else {
            live_vertex_ids(s.take(i))
        },
{
    assert(s.take(i + 1).drop_last() =~= s.take(i));
    assert(s.take(i + 1).last() == s[i]);
}

/// One scan step of the live-edge-id list over a prefix.
pub proof fn lemma_live_edge_ids_take_step(s: Seq<Edge>, i: int)
    requires
        0 <= i < s.len(),
    ensures
        live_edge_ids(s.take(i + 1)) == if s[i].alive {
            live_edge_ids(s.take(i)).push(EdgeId { idx: i as usize })
        } else {
            live_edge_ids(s.take(i))
        },
{
    assert(s.take(i + 1).drop_last() =~= s.take(i));
    assert(s.take(i + 1).last() == s[i]);
}

/// Every id in the live-vertex-id list points at a live slot.
pub proof fn lemma_live_vertex_ids_elems(s: Seq<Vertex>)
    requires
        s.len() <= usize::MAX,
    ensures
        forall|k: int|
            0 <= k < live_vertex_ids(s).len() ==> (#[trigger] live_vertex_ids(s)[k]).idx < s.len()
                && s[live_vertex_ids(s)[k].idx as int].alive,
    decreases s.len(),
{
    if s.len() > 0 {
        lemma_live_vertex_ids_elems(s.drop_last());
        let pre = live_vertex_ids(s.drop_last());
        assert forall|k: int|
            0 <= k < live_vertex_ids(s).len() implies (#[trigger] live_vertex_ids(s)[k]).idx
            < s.len() && s[live_vertex_ids(s)[k].idx as int].alive by {
            if k < pre.len() {
                assert(live_vertex_ids(s)[k] == pre[k]);
                assert(s.drop_last()[pre[k].idx as int] == s[pre[k].idx as int]);
            }
        }
    }
}

/// Every id in the live-edge-id list points at a live slot.
pub proof fn lemma_live_edge_ids_elems(s: Seq<Edge>)
    requires
        s.len() <= usize::MAX,
    ensures
        forall|k: int|
            0 <= k < live_edge_ids(s).len() ==> (#[trigger] live_edge_ids(s)[k]).idx < s.len()
                && s[live_edge_ids(s)[k].idx as int].alive,
    decreases s.len(),
{
    if s.len() > 0 {
        lemma_live_edge_ids_elems(s.drop_last());
        let pre = live_edge_ids(s.drop_last());
        assert forall|k: int|
            0 <= k < live_edge_ids(s).len() implies (#[trigger] live_edge_ids(s)[k]).idx < s.len()
            && s[live_edge_ids(s)[k].idx as int].alive by {
            if k < pre.len() {
                assert(live_edge_ids(s)[k] == pre[k]);
                assert(s.drop_last()[pre[k].idx as int] == s[pre[k].idx as int]);
            }
        }
    }
}

/// What a successful or failed name search means, slot by slot: a hit is the
/// first live vertex with that name at or after `i`; a miss means no slot at
/// or after `i` qualifies.
pub proof fn lemma_find_vertex_from_props(s: Seq<Vertex>, name: Seq<char>, i: int)
    requires
        0 <= i,
        s.len() <= usize::MAX,
    ensures
        match find_vertex_from(s, name, i) {
            Some(id) => {
                &&& i <= id.idx < s.len()
                &&& s[id.idx as int].alive
                &&& s[id.idx as int].name@ == name
                &&& forall|j: int|
                    0 <= j < id.idx && i <= j ==> !(s[j].alive && s[j].name@ == name)
            },
            None => forall|j: int|
                0 <= j < s.len() && i <= j ==> !(s[j].alive && s[j].name@ == name),
        },
    decreases s.len() - i,
{
    if 0 <= i < s.len() && !(s[i].alive && s[i].name@ == name) {
        lemma_find_vertex_from_props(s, name, i + 1);
    }
}

/// What [`find_vertex`] means: a hit is the first live vertex with that name
/// in insertion order; a miss means no live vertex carries the name.
pub proof fn lemma_find_vertex_props(s: Seq<Vertex>, name: Seq<char>)
    requires
        s.len() <= usize::MAX,
    ensures
        match find_vertex(s, name) {
            Some(id) => {
                &&& id.idx < s.len()
                &&& s[id.idx as int].alive
                &&& s[id.idx as int].name@ == name
                &&& forall|j: int| 0 <= j < id.idx ==> !(s[j].alive && s[j].name@ == name)
            },
            None => forall|j: int| 0 <= j < s.len() ==> !(s[j].alive && s[j].name@ == name),
        },
{
    lemma_find_vertex_from_props(s, name, 0);
}

/// The live-vertex-id list depends only on the `alive` flags.
pub proof fn lemma_live_vertex_ids_alive_eq(s1: Seq<Vertex>, s2: Seq<Vertex>)
    requires
        s1.len() == s2.len(),
        forall|i: int| 0 <= i < s1.len() ==> s1[i].alive == s2[i].alive,
    ensures
        live_vertex_ids(s1) == live_vertex_ids(s2),
    decreases s1.len(),
{
    if s1.len() > 0 {
        assert forall|i: int| 0 <= i < s1.drop_last().len() implies s1.drop_last()[i].alive == s2.drop_last()[i].alive by {
            assert(s1[i].alive == s2[i].alive);
        }
        lemma_live_vertex_ids_alive_eq(s1.drop_last(), s2.drop_last());
        assert(s1.last().alive == s2.last().alive);
    }
}

/// A sequence that contains `x` still contains it after a push.
pub proof fn lemma_contains_push<T>(s: Seq<T>, x: T, y: T)
    requires
        s.contains(x),
    ensures
        s.push(y).contains(x),
{
    let k = choose|k: int| 0 <= k < s.len() && s[k] == x;
    assert(s.push(y)[k] == x);
}

/// Pushing an element that is not yet present keeps a duplicate-free sequence
/// duplicate-free.
pub proof fn lemma_push_no_duplicates<T>(s: Seq<T>, x: T)
    requires
        s.no_duplicates(),
        !s.contains(x),
    ensures
        s.push(x).no_duplicates(),
{
    assert forall|i: int, j: int|
        0 <= i < s.push(x).len() && 0 <= j < s.push(x).len() && i != j implies s.push(x)[i]
        != s.push(x)[j] by {
        if i < s.len() && j < s.len() {
        } else if i < s.len() {
            assert(s.push(x)[i] == s[i]);
            assert(s[i] != x) by {
                if s[i] == x {
                    assert(s.contains(x));
                }
            }
        } else {
            assert(s.push(x)[j] == s[j]);
            assert(s[j] != x) by {
                if s[j] == x {
                    assert(s.contains(x));
                }
            }
        }
    }
}

/// Committing one live edge between live endpoints, registered once at each
/// endpoint, preserves store consistency.
proof fn lemma_wf_insert_edge(pre: Graph, post: Graph, from: VertexId, to: VertexId, eid: EdgeId)
    requires
        pre.wf(),
        pre.vertex_live(from),
        pre.vertex_live(to),
        eid.idx == pre.edges@.len(),
        post.edges@.len() == pre.edges@.len() + 1,
        forall|i: int| 0 <= i < pre.edges@.len() ==> post.edges@[i] == pre.edges@[i],
        post.edges@.last().alive,
        post.edges@.last().from == from,
        post.edges@.last().to == to,
        post.vertices@.len() == pre.vertices@.len(),
        forall|i: int|
            0 <= i < pre.vertices@.len() && i != from.idx as int && i != to.idx as int
                ==> post.vertices@[i] == pre.vertices@[i],
        forall|i: int|
            0 <= i < pre.vertices@.len() ==> (#[trigger] post.vertices@[i]).alive
                == pre.vertices@[i].alive,
        post.vertices@[from.idx as int].outgoing@ == pre.vertices@[from.idx as int].outgoing@.push(
            eid,
        ),
        post.vertices@[to.idx as int].incoming@ == pre.vertices@[to.idx as int].incoming@.push(eid),
        from.idx != to.idx ==> post.vertices@[from.idx as int].incoming@
            == pre.vertices@[from.idx as int].incoming@ && post.vertices@[to.idx as int].outgoing@
            == pre.vertices@[to.idx as int].outgoing@,
    ensures
        post.wf(),
{
    assert forall|i: int| 0 <= i < post.vertices@.len() implies post.vertex_entry_ok(i) by {
        assert(pre.vertex_entry_ok(i));
        let vo_out = pre.vertices@[i].outgoing@;
        let vn_out = post.vertices@[i].outgoing@;
        let vo_in = pre.vertices@[i].incoming@;
        let vn_in = post.vertices@[i].incoming@;
        // Each list is either unchanged or the old list plus `eid` at the end.
        assert(vn_out == vo_out || vn_out == vo_out.push(eid));
        assert(vn_in == vo_in || vn_in == vo_in.push(eid));
        assert(!vo_out.contains(eid)) by {
            if vo_out.contains(eid) {
                let k = choose|k: int| 0 <= k < vo_out.len() && vo_out[k] == eid;
                assert(pre.out_entry_ok(vo_out[k], i));
            }
        }
        assert(!vo_in.contains(eid)) by {
            if vo_in.contains(eid) {
                let k = choose|k: int| 0 <= k < vo_in.len() && vo_in[k] == eid;
                assert(pre.in_entry_ok(vo_in[k], i));
            }
        }
        if vn_out == vo_out.push(eid) {
            lemma_push_no_duplicates(vo_out, eid);
        }
        if vn_in == vo_in.push(eid) {
            lemma_push_no_duplicates(vo_in, eid);
        }
        assert forall|k: int| 0 <= k < vn_out.len() implies post.out_entry_ok(
            #[trigger] vn_out[k],
            i,
        ) by {
            if k < vo_out.len() {
                assert(vn_out[k] == vo_out[k]);
                assert(pre.out_entry_ok(vo_out[k], i));
            } else {
                assert(vn_out[k] == eid);
                assert(i == from.idx as int);
            }
        }
        assert forall|k: int| 0 <= k < vn_in.len() implies post.in_entry_ok(
            #[trigger] vn_in[k],
            i,
        ) by {
            if k < vo_in.len() {
                assert(vn_in[k] == vo_in[k]);
                assert(pre.in_entry_ok(vo_in[k], i));
            } else {
                assert(vn_in[k] == eid);
                assert(i == to.idx as int);
            }
        }
        // A dead vertex is neither endpoint, so its (empty) lists are unchanged.
        if !post.vertices@[i].alive {
            assert(vn_out == vo_out && vn_in == vo_in);
        }
    }
    assert forall|i: int| 0 <= i < post.edges@.len() implies post.edge_entry_ok(i) by {
        let e = post.edges@[i];
        if i < pre.edges@.len() {
            assert(pre.edge_entry_ok(i));
            if e.alive {
                let old_out = pre.vertices@[e.from.idx as int].outgoing@;
                let old_in = pre.vertices@[e.to.idx as int].incoming@;
                assert(old_out.contains(EdgeId { idx: i as usize }));
                assert(old_in.contains(EdgeId { idx: i as usize }));
                if post.vertices@[e.from.idx as int].outgoing@ == old_out.push(eid) {
                    lemma_contains_push(old_out, EdgeId { idx: i as usize }, eid);
                }
                if post.vertices@[e.to.idx as int].incoming@ == old_in.push(eid) {
                    lemma_contains_push(old_in, EdgeId { idx: i as usize }, eid);
                }
                assert(post.vertices@[e.from.idx as int].outgoing@ == old_out
                    || post.vertices@[e.from.idx as int].outgoing@ == old_out.push(eid));
                assert(post.vertices@[e.to.idx as int].incoming@ == old_in || post.vertices@[e.to.idx as int].incoming@
                    == old_in.push(eid));
            }
        } else {
            assert(e == post.edges@.last());
            assert(post.vertices@[from.idx as int].outgoing@.last() == eid);
            assert(post.vertices@[from.idx as int].outgoing@.contains(eid));
            assert(post.vertices@[to.idx as int].incoming@.last() == eid);
            assert(post.vertices@[to.idx as int].incoming@.contains(eid));
            assert(eid == (EdgeId { idx: i as usize }));
        }
    }
}

/// Appending a fresh vertex with empty adjacency lists preserves store
/// consistency: no existing entry can mention it, and it mentions no edge.
proof fn lemma_wf_push_vertex(pre: Graph, post: Graph)
    requires
        pre.wf(),
        post.edges@ == pre.edges@,
        post.vertices@.len() == pre.vertices@.len() + 1,
        forall|i: int| 0 <= i < pre.vertices@.len() ==> post.vertices@[i] == pre.vertices@[i],
        post.vertices@.last().outgoing@ == Seq::<EdgeId>::empty(),
        post.vertices@.last().incoming@ == Seq::<EdgeId>::empty(),
    ensures
        post.wf(),
{
    assert forall|i: int| 0 <= i < post.vertices@.len() implies post.vertex_entry_ok(i) by {
        if i < pre.vertices@.len() {
            assert(pre.vertex_entry_ok(i));
            assert(post.vertices@[i] == pre.vertices@[i]);
        } else {
            assert(post.vertices@[i] == post.vertices@.last());
        }
    }
    assert forall|i: int| 0 <= i < post.edges@.len() implies post.edge_entry_ok(i) by {
        assert(pre.edge_entry_ok(i));
        let e = post.edges@[i];
        if e.alive {
            assert(post.vertices@[e.from.idx as int] == pre.vertices@[e.from.idx as int]);
            assert(post.vertices@[e.to.idx as int] == pre.vertices@[e.to.idx as int]);
        }
    }
}

} // verus!
