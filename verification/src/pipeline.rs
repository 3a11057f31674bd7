//! Batch expansion and the closed set of shading pipelines.
//!
//! The renderer holds one compiled pipeline per primitive kind and cap
//! style. The expansion half of each draw call is pure and lives here: a
//! batch of primitive records becomes the concatenation of the per-record
//! covering polygons, in order. The host uploads the result and issues one
//! draw per batch.

use vstd::prelude::*;
use crate::edge::{expand_edge_flat, expand_edge_flat_spec, expand_edge_round, expand_edge_round_spec};
use crate::node::{Node, expand_node, expand_node_spec};
use crate::qbezier::{QBezier, expand_qbezier, expand_qbezier_spec};
use crate::vertex::Vertex;

verus! {

/// The closed set of shading pipelines: one per primitive kind and cap
/// style. The host compiles one program per variant at construction and
/// selects by this tag per draw call.
#[derive(Clone, Copy, Debug, PartialEq, Eq, Structural)]
pub enum PipelineKind {
    Nodes,
    RoundEdges,
    FlatEdges,
    RoundQBeziers,
    FlatQBeziers,
}

impl PipelineKind {
    /// How many input points make up one primitive of this pipeline:
    /// nodes and curves are submitted one record per primitive, edges as
    /// endpoint pairs.
    pub open spec fn points_per_primitive_spec(self) -> int {
        match self {
            PipelineKind::Nodes => 1,
            PipelineKind::RoundEdges => 2,
            PipelineKind::FlatEdges => 2,
            PipelineKind::RoundQBeziers => 1,
            PipelineKind::FlatQBeziers => 1,
        }
    }

    /// How many covering-polygon vertices one primitive expands to.
    pub open spec fn vertices_per_primitive_spec(self) -> int {
        match self {
            PipelineKind::Nodes => 3,
            PipelineKind::RoundEdges => 12,
            PipelineKind::FlatEdges => 4,
            PipelineKind::RoundQBeziers => 4,
            PipelineKind::FlatQBeziers => 4,
        }
    }

    pub fn points_per_primitive(self) -> (n: u32)
        ensures
            n == self.points_per_primitive_spec(),
    {
        match self {
            PipelineKind::Nodes => 1,
            PipelineKind::RoundEdges => 2,
            PipelineKind::FlatEdges => 2,
            PipelineKind::RoundQBeziers => 1,
            PipelineKind::FlatQBeziers => 1,
        }
    }

    pub fn vertices_per_primitive(self) -> (n: u32)
        ensures
            n == self.vertices_per_primitive_spec(),
    {
        match self {
            PipelineKind::Nodes => 3,
            PipelineKind::RoundEdges => 12,
            PipelineKind::FlatEdges => 4,
            PipelineKind::RoundQBeziers => 4,
            PipelineKind::FlatQBeziers => 4,
        }
    }
}

/// The covering triangles of every node from position `i` on, concatenated
/// in order.
pub open spec fn node_batch_from(s: Seq<Node>, i: int) -> Seq<Vertex>
    decreases s.len() - i,
{
    if i < 0 || i >= s.len() {
        Seq::empty()
    } else {
        expand_node_spec(s[i]) + node_batch_from(s, i + 1)
    }
}

/// The expansion of a whole node batch.
pub open spec fn expand_nodes_spec(s: Seq<Node>) -> Seq<Vertex> {
    node_batch_from(s, 0)
}

/// The expansion of every endpoint pair from position `i` on. An unpaired
/// trailing endpoint makes no primitive and expands to nothing, as a
/// line-list draw would drop it.
pub open spec fn edge_batch_from(s: Seq<Node>, i: int, round: bool) -> Seq<Vertex>
    decreases s.len() - i,
{
    if i < 0 || i + 1 >= s.len() {
        Seq::empty()
    } else {
        (if round {
            expand_edge_round_spec(s[i], s[i + 1])
        } else {
            expand_edge_flat_spec(s[i], s[i + 1])
        }) + edge_batch_from(s, i + 2, round)
    }
}

/// The expansion of every curve record from position `i` on.
pub open spec fn qbez_batch_from(s: Seq<QBezier>, i: int) -> Seq<Vertex>
    decreases s.len() - i,
{
    if i < 0 || i >= s.len() {
        Seq::empty()
    } else {
        expand_qbezier_spec(s[i]) + qbez_batch_from(s, i + 1)
    }
}

/// Expand a batch of nodes: the covering triangles of all records,
/// concatenated in order.
pub fn expand_nodes(nodes: &Vec<Node>) -> (vs: Vec<Vertex>)
    requires
        forall|i: int| 0 <= i < nodes@.len() ==> (#[trigger] nodes@[i]).wf(),
    ensures
        vs@ == expand_nodes_spec(nodes@),
        vs@.len() == 3 * nodes@.len(),
{
    let mut vs: Vec<Vertex> = Vec::new();
    let mut i: usize = 0;
    while i < nodes.len()
        invariant
            forall|k: int| 0 <= k < nodes@.len() ==> (#[trigger] nodes@[k]).wf(),
            i <= nodes@.len(),
            vs@ + node_batch_from(nodes@, i as int) == expand_nodes_spec(nodes@),
            vs@.len() == 3 * i,
        decreases nodes@.len() - i,
    {
        let mut tri = expand_node(&nodes[i]);
        proof {
            assert((vs@ + tri@) + node_batch_from(nodes@, i + 1)
                =~= vs@ + node_batch_from(nodes@, i as int));
        }
        vs.append(&mut tri);
        i = i + 1;
    }
    proof {
        assert(vs@ + node_batch_from(nodes@, nodes@.len() as int) =~= vs@);
    }
    vs
}

/// Expand a batch of edges with round caps: each consecutive endpoint pair
/// becomes a cap triangle, the strip, and another cap.
pub fn expand_edges_round(edges: &Vec<Node>) -> (vs: Vec<Vertex>)
    requires
        forall|i: int| 0 <= i < edges@.len() ==> (#[trigger] edges@[i]).wf(),
    ensures
        vs@ == edge_batch_from(edges@, 0, true),
{
    let mut vs: Vec<Vertex> = Vec::new();
    let mut i: usize = 0;
    while i + 1 < edges.len()
        invariant
            forall|k: int| 0 <= k < edges@.len() ==> (#[trigger] edges@[k]).wf(),
            i % 2 == 0,
            i <= edges@.len(),
            vs@ + edge_batch_from(edges@, i as int, true) == edge_batch_from(edges@, 0, true),
        decreases edges@.len() - i,
    {
        let mut part = expand_edge_round(&edges[i], &edges[i + 1]);
        proof {
            assert((vs@ + part@) + edge_batch_from(edges@, i + 2, true)
                =~= vs@ + edge_batch_from(edges@, i as int, true));
        }
        vs.append(&mut part);
        i = i + 2;
    }
    proof {
        assert(vs@ + edge_batch_from(edges@, i as int, true) =~= vs@);
    }
    vs
}

/// Expand a batch of edges with flat caps: each consecutive endpoint pair
/// becomes the covering quad alone.
pub fn expand_edges_flat(edges: &Vec<Node>) -> (vs: Vec<Vertex>)
    requires
        forall|i: int| 0 <= i < edges@.len() ==> (#[trigger] edges@[i]).wf(),
    ensures
        vs@ == edge_batch_from(edges@, 0, false),
{
    let mut vs: Vec<Vertex> = Vec::new();
    let mut i: usize = 0;
    while i + 1 < edges.len()
        invariant
            forall|k: int| 0 <= k < edges@.len() ==> (#[trigger] edges@[k]).wf(),
            i % 2 == 0,
            i <= edges@.len(),
            vs@ + edge_batch_from(edges@, i as int, false) == edge_batch_from(edges@, 0, false),
        decreases edges@.len() - i,
    {
        let mut part = expand_edge_flat(&edges[i], &edges[i + 1]);
        proof {
            assert((vs@ + part@) + edge_batch_from(edges@, i + 2, false)
                =~= vs@ + edge_batch_from(edges@, i as int, false));
        }
        vs.append(&mut part);
        i = i + 2;
    }
    proof {
        assert(vs@ + edge_batch_from(edges@, i as int, false) =~= vs@);
    }
    vs
}

/// Expand a batch of curves: the covering box of every record,
/// concatenated in order. Round and flat cap styles share the covering
/// geometry (the box contains the flat corridor as a subset); the cap
/// style picks the shading rule, `shade_qbezier` or `shade_qbezier_flat`.
pub fn expand_qbeziers(qbeziers: &Vec<QBezier>) -> (vs: Vec<Vertex>)
    requires
        forall|i: int| 0 <= i < qbeziers@.len() ==> (#[trigger] qbeziers@[i]).wf(),
    ensures
        vs@ == qbez_batch_from(qbeziers@, 0),
        vs@.len() == 4 * qbeziers@.len(),
{
    let mut vs: Vec<Vertex> = Vec::new();
    let mut i: usize = 0;
    while i < qbeziers.len()
        invariant
            forall|k: int| 0 <= k < qbeziers@.len() ==> (#[trigger] qbeziers@[k]).wf(),
            i <= qbeziers@.len(),
            vs@ + qbez_batch_from(qbeziers@, i as int) == qbez_batch_from(qbeziers@, 0),
            vs@.len() == 4 * i,
        decreases qbeziers@.len() - i,
    {
        let mut part = expand_qbezier(&qbeziers[i]);
        proof {
            assert((vs@ + part@) + qbez_batch_from(qbeziers@, i + 1)
                =~= vs@ + qbez_batch_from(qbeziers@, i as int));
        }
        vs.append(&mut part);
        i = i + 1;
    }
    proof {
        assert(vs@ + qbez_batch_from(qbeziers@, qbeziers@.len() as int) =~= vs@);
    }
    vs
}

} // verus!
