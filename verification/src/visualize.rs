//! The graph that a diagram draws: its nodes and edges, which edges are
//! drawn, and how it is laid out.

use vstd::prelude::*;
use crate::model::edge::EdgeKind;
use crate::model::entity::EntityKind;
use crate::text::{lowercase, owned, push_str, str_eq, to_lowercase};

verus! {

/// What can go wrong while drawing a diagram.
#[derive(Debug, Clone, PartialEq, Eq)]
pub enum VisualizeError {
    /// Reading or writing failed (the message of the I/O error).
    Io(String),
    /// The graph is not usable.
    Graph(String),
    /// The layout could not be computed.
    Layout(String),
}

/// How the nodes of a diagram are placed.
#[derive(Debug, Clone, Copy, PartialEq, Eq, Structural)]
pub enum LayoutType {
    Hierarchical,
    ForceDirected,
    Radial,
}

/// The layout a lowercased name selects.
pub open spec fn layout_named(lower: Seq<char>) -> Option<LayoutType> {
    if lower == "hierarchical"@ {
        Some(LayoutType::Hierarchical)
    } else if lower == "force-directed"@ || lower == "force_directed"@ || lower == "force"@ {
        Some(LayoutType::ForceDirected)
    } else if lower == "radial"@ {
        Some(LayoutType::Radial)
    } else {
        None
    }
}

impl LayoutType {
    /// The layout named `s`, in any case: `hierarchical`, `radial`, or
    /// `force-directed` (also `force_directed` or `force`). Any other name
    /// is refused with `Unknown layout type: {s}`.
    pub fn parse(s: &str) -> (res: Result<LayoutType, String>)
        ensures
            match layout_named(lowercase(s@)) {
                Some(l) => res == Ok::<LayoutType, String>(l),
                None => res matches Err(m) && m@ == "Unknown layout type: "@ + s@,
            },
    {
        let lower = to_lowercase(s);
        let l = lower.as_str();
        if str_eq(l, "hierarchical") {
            Ok(LayoutType::Hierarchical)
        } else if str_eq(l, "force-directed") || str_eq(l, "force_directed") || str_eq(l, "force") {
            Ok(LayoutType::ForceDirected)
        } else if str_eq(l, "radial") {
            Ok(LayoutType::Radial)
        } else {
            let mut m = owned("Unknown layout type: ");
            push_str(&mut m, s);
            Err(m)
        }
    }
}

impl std::str::FromStr for LayoutType {
    type Err = String;

    fn from_str(s: &str) -> (res: Result<LayoutType, String>)
        ensures
            match layout_named(lowercase(s@)) {
                Some(l) => res == Ok::<LayoutType, String>(l),
                None => res matches Err(m) && m@ == "Unknown layout type: "@ + s@,
            },
    {
        LayoutType::parse(s)
    }
}

/// A node of a diagram.
#[derive(Debug, Clone, PartialEq, Eq)]
pub struct VizNode {
    pub id: String,
    pub name: String,
    pub kind: EntityKind,
    pub component: Option<String>,
}

/// An edge of a diagram.
#[derive(Debug, Clone, PartialEq, Eq)]
pub struct VizEdge {
    pub source: String,
    pub target: String,
    pub kind: EdgeKind,
}

/// Whether some node has the id.
pub open spec fn has_node(nodes: Seq<VizNode>, id: Seq<char>) -> bool {
    exists|k: int| 0 <= k < nodes.len() && (#[trigger] nodes[k]).id@ == id
}

/// The indices of the edges whose two ends are nodes of the diagram, in
/// order: only those are drawn.
pub open spec fn drawn_edges(nodes: Seq<VizNode>, edges: Seq<VizEdge>) -> Seq<int>
    decreases edges.len(),
{
    if edges.len() == 0 {
        Seq::empty()
    } else {
        let init = drawn_edges(nodes, edges.drop_last());
        let e = edges.last();
        if has_node(nodes, e.source@) && has_node(nodes, e.target@) {
            init.push(edges.len() - 1)
        } else {
            init
        }
    }
}

fn node_present(nodes: &Vec<VizNode>, id: &str) -> (res: bool)
    ensures
        res == has_node(nodes@, id@),
{
    let mut k: usize = 0;
    while k < nodes.len()
        invariant
            k <= nodes@.len(),
            forall|j: int| 0 <= j < k ==> (#[trigger] nodes@[j]).id@ != id@,
        decreases nodes.len() - k,
    {
        if str_eq(nodes[k].id.as_str(), id) {
            return true;
        }
        k += 1;
    }
    false
}

/// The indices of the edges that a diagram draws (see `drawn_edges`).
pub fn edges_to_draw(nodes: &Vec<VizNode>, edges: &Vec<VizEdge>) -> (res: Vec<usize>)
    ensures
        res@.map_values(|i: usize| i as int) == drawn_edges(nodes@, edges@),
{
    let mut res: Vec<usize> = Vec::new();
    let mut i: usize = 0;
    assert(edges@.take(0) == Seq::<VizEdge>::empty());
    while i < edges.len()
        invariant
            i <= edges@.len(),
            res@.map_values(|i: usize| i as int) == drawn_edges(nodes@, edges@.take(i as int)),
        decreases edges.len() - i,
    {
        assert(edges@.take(i + 1).drop_last() == edges@.take(i as int));
        assert(edges@.take(i + 1).last() == edges@[i as int]);
        let e = &edges[i];
        if node_present(nodes, e.source.as_str()) && node_present(nodes, e.target.as_str()) {
            let ghost before = res@.map_values(|i: usize| i as int);
            res.push(i);
            assert(res@.map_values(|i: usize| i as int) == before.push(i as int));
        }
        i += 1;
    }
    assert(edges@.take(edges@.len() as int) == edges@);
    res
}

} // verus!
