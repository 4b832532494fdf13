//! The directed graph that holds the catalogue: `petgraph`'s adjacency
//! list graph, with the one contract per method that the rest of the crate
//! relies on. Nothing in this file is proved; each contract restates what
//! `petgraph::graph::Graph` does.

use vstd::prelude::*;
use petgraph::graph::{Graph, NodeIndex};
use petgraph::visit::EdgeRef;
use petgraph::Directed;
use crate::course::{Node, Relation};

verus! {

#[verifier::external_type_specification]
#[verifier::external_body]
#[verifier::reject_recursive_types(N)]
#[verifier::reject_recursive_types(E)]
#[verifier::reject_recursive_types(Ty)]
#[verifier::reject_recursive_types(Ix)]
pub struct ExGraph<N, E, Ty, Ix>(Graph<N, E, Ty, Ix>);

#[verifier::external_type_specification]
#[verifier::external_body]
pub struct ExDirected(Directed);

/// An edge of the graph: from a dependent node to one that it requires.
pub struct Edge {
    pub source: int,
    pub target: int,
    pub relation: Relation,
}

/// The nodes that a graph holds, by index: the order in which they were
/// added.
pub uninterp spec fn graph_nodes(g: Graph<Node, Relation, Directed, u32>) -> Seq<Node>;

/// The edges that a graph holds, in the order in which they were added.
pub uninterp spec fn graph_edges(g: Graph<Node, Relation, Directed, u32>) -> Seq<Edge>;

/// The most nodes, and the most edges, that a graph indexed by `u32` takes.
pub open spec fn graph_limit() -> int {
    0xffff_ffff
}

/// The edges that leave `a`, as target and relation, last added first.
pub open spec fn outgoing(edges: Seq<Edge>, a: int) -> Seq<(int, Relation)>
    decreases edges.len(),
{
    if edges.len() == 0 {
        Seq::empty()
    } else {
        let rest = outgoing(edges.drop_last(), a);
        let last = edges.last();
        if last.source == a {
            seq![(last.target, last.relation)] + rest
        } else {
            rest
        }
    }
}

/// `Graph::new`: a graph without nodes or edges.
#[verifier::external_body]
pub(crate) fn graph_new() -> (g: Graph<Node, Relation, Directed, u32>)
    ensures
        graph_nodes(g) == Seq::<Node>::empty(),
        graph_edges(g) == Seq::<Edge>::empty(),
{
    Graph::new()
}

/// `Graph::node_count`: the number of nodes.
#[verifier::external_body]
pub(crate) fn graph_node_count(g: &Graph<Node, Relation, Directed, u32>) -> (n: usize)
    ensures
        n == graph_nodes(*g).len(),
{
    g.node_count()
}

/// `Graph::edge_count`: the number of edges.
#[verifier::external_body]
pub(crate) fn graph_edge_count(g: &Graph<Node, Relation, Directed, u32>) -> (n: usize)
    ensures
        n == graph_edges(*g).len(),
{
    g.edge_count()
}

/// `Graph::add_node`: appends a node and returns its index; the edges stay.
/// It panics on a graph that already holds `u32::MAX` nodes.
#[verifier::external_body]
pub(crate) fn graph_add_node(g: &mut Graph<Node, Relation, Directed, u32>, node: Node) -> (index:
    usize)
    requires
        graph_nodes(*old(g)).len() < graph_limit(),
    ensures
        graph_nodes(*final(g)) == graph_nodes(*old(g)).push(node),
        graph_edges(*final(g)) == graph_edges(*old(g)),
        index == graph_nodes(*old(g)).len(),
{
    g.add_node(node).index()
}

/// `Graph::add_edge`: appends an edge from `a` to `b`; the nodes stay. It
/// panics where a node is missing, or on a graph that already holds
/// `u32::MAX` edges.
#[verifier::external_body]
pub(crate) fn graph_add_edge(
    g: &mut Graph<Node, Relation, Directed, u32>,
    a: usize,
    b: usize,
    relation: Relation,
)
    requires
        a < graph_nodes(*old(g)).len(),
        b < graph_nodes(*old(g)).len(),
        graph_edges(*old(g)).len() < graph_limit(),
    ensures
        graph_nodes(*final(g)) == graph_nodes(*old(g)),
        graph_edges(*final(g)) == graph_edges(*old(g)).push(
            Edge { source: a as int, target: b as int, relation },
        ),
{
    g.add_edge(NodeIndex::new(a), NodeIndex::new(b), relation);
}

/// Indexing a graph by a node index: the node at `a`. It panics where the
/// node is missing.
#[verifier::external_body]
pub(crate) fn graph_node(g: &Graph<Node, Relation, Directed, u32>, a: usize) -> (node: &Node)
    requires
        a < graph_nodes(*g).len(),
    ensures
        *node == graph_nodes(*g)[a as int],
{
    &g[NodeIndex::new(a)]
}

/// Indexing a graph mutably by a node index, to store the weight `val` in
/// the node at `a`. It panics where the node is missing.
#[verifier::external_body]
pub(crate) fn graph_set_val(g: &mut Graph<Node, Relation, Directed, u32>, a: usize, val: u16)
    requires
        a < graph_nodes(*old(g)).len(),
    ensures
        graph_nodes(*final(g)) == graph_nodes(*old(g)).update(
            a as int,
            Node { ntype: graph_nodes(*old(g))[a as int].ntype, val },
        ),
        graph_edges(*final(g)) == graph_edges(*old(g)),
{
    g[NodeIndex::new(a)].val = val;
}

/// `Graph::edges`: the edges that leave `a`, each as its target and its
/// relation. A directed graph walks them from the last added to the first,
/// and every edge that a graph holds ends at one of its nodes.
#[verifier::external_body]
pub(crate) fn graph_out_edges(g: &Graph<Node, Relation, Directed, u32>, a: usize) -> (out: Vec<
    (usize, Relation),
>)
    requires
        a < graph_nodes(*g).len(),
    ensures
        out@.len() == outgoing(graph_edges(*g), a as int).len(),
        forall|i: int|
            0 <= i < out@.len() ==> {
                &&& (#[trigger] out@[i]).0 as int == outgoing(graph_edges(*g), a as int)[i].0
                &&& out@[i].1 == outgoing(graph_edges(*g), a as int)[i].1
                &&& out@[i].0 < graph_nodes(*g).len()
            },
{
    g.edges(NodeIndex::new(a)).map(|e| (e.target().index(), *e.weight())).collect()
}

} // verus!
