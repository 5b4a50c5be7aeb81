//! Vertices and their properties.

use vstd::prelude::*;

use crate::EdgeId;

verus! {

/// A name/value pair attached to a vertex. Pure data: a vertex may carry
/// several properties with the same name, and property order is insertion
/// order.
pub struct Property {
    pub name: String,
    pub value: String,
}

/// A named node. It owns its properties and two adjacency lists: the ids of
/// the edges leaving it and of the edges arriving at it. A removed vertex
/// stays in its arena slot with `alive` cleared and both adjacency lists
/// empty, so its id is never handed to another vertex.
pub struct Vertex {
    pub name: String,
    pub properties: Vec<Property>,
    pub outgoing: Vec<EdgeId>,
    pub incoming: Vec<EdgeId>,
    pub alive: bool,
}

impl Vertex {
    /// A live vertex with no properties and empty adjacency lists.
    pub fn new(name: String) -> (r: Vertex)
        ensures
            r.name == name,
            r.properties@ == Seq::<Property>::empty(),
            r.outgoing@ == Seq::<EdgeId>::empty(),
            r.incoming@ == Seq::<EdgeId>::empty(),
            r.alive,
    {
        Vertex { name, properties: Vec::new(), outgoing: Vec::new(), incoming: Vec::new(), alive: true }
    }
}

/// Whether `v` owns at least one property whose name and value are exactly
/// `name` and `value`.
pub open spec fn vertex_has_property(v: Vertex, name: Seq<char>, value: Seq<char>) -> bool {
    exists|i: int|
        0 <= i < v.properties@.len() && v.properties@[i].name@ == name && v.properties@[i].value@
            == value
}

impl Vertex {
    /// Whether this vertex owns a property with exactly this name and value.
    pub fn has_property(&self, name: &String, value: &String) -> (r: bool)
        ensures
            r == vertex_has_property(*self, name@, value@),
    {
        let mut i: usize = 0;
        while i < self.properties.len()
            invariant
                i <= self.properties@.len(),
                forall|j: int|
                    0 <= j < i ==> !((#[trigger] self.properties@[j]).name@ == name@
                        && self.properties@[j].value@ == value@),
            decreases self.properties@.len() - i,
        {
            if self.properties[i].name == *name && self.properties[i].value == *value {
                return true;
            }
            i += 1;
        }
        false
    }
}

} // verus!
