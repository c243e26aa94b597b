//! The class-relation graph: class nodes, one `Literal` sink, and directed
//! edges that carry a predicate, a usage count and two probabilities.
//!
//! Storage is a `petgraph` graph. Verified code reaches it through the small
//! set of accessors below and reasons about it through [`GraphModel`].

use vstd::prelude::*;
use petgraph::graph::{EdgeIndex, Graph, NodeIndex};
use petgraph::Directed;
use crate::text::{chars_of, same_chars};

verus! {

/// `petgraph::graph::Graph`, the graph type that holds the class graph.
/// Nothing is known of what is inside a value but through the functions
/// below.
#[verifier::external_type_specification]
#[verifier::external_body]
#[verifier::reject_recursive_types(N)]
#[verifier::reject_recursive_types(E)]
#[verifier::reject_recursive_types(Ty)]
#[verifier::reject_recursive_types(Ix)]
pub struct ExGraph<N, E, Ty, Ix>(Graph<N, E, Ty, Ix>);

/// `petgraph::Directed`, the marker of graphs with directed edges.
#[verifier::external_type_specification]
#[verifier::external_body]
pub struct ExDirected(Directed);

/// An exact fraction `num / den`.
#[derive(Clone, Copy, Debug, PartialEq, Eq, Structural)]
pub struct Ratio {
    pub num: u64,
    pub den: u128,
}

/// What an edge of the class graph carries.
#[derive(Debug)]
pub struct EdgeData {
    pub predicate: String,
    pub count: u64,
    pub forward: Option<Ratio>,
    pub backward: Option<Ratio>,
}

/// An edge as contracts see it.
pub struct EdgeModel {
    pub source: int,
    pub target: int,
    pub predicate: Seq<char>,
    pub count: u64,
    pub forward: Option<Ratio>,
    pub backward: Option<Ratio>,
}

/// A class graph as contracts see it.
pub struct GraphModel {
    pub nodes: Seq<Seq<char>>,
    pub edges: Seq<EdgeModel>,
    pub literal: int,
}

/// The name of the sink node.
pub open spec fn literal_name() -> Seq<char> {
    "Literal"@
}

impl GraphModel {
    /// Every edge joins two nodes of the graph, the sink exists under its
    /// name, and no edge leaves the sink.
    pub open spec fn wf(self) -> bool {
        &&& 0 <= self.literal < self.nodes.len()
        &&& self.nodes[self.literal] == literal_name()
        &&& forall|e: int|
            0 <= e < self.edges.len() ==> {
                &&& 0 <= (#[trigger] self.edges[e]).source < self.nodes.len()
                &&& 0 <= self.edges[e].target < self.nodes.len()
                &&& self.edges[e].source != self.literal
            }
    }

    /// The node that a walk leaves when it takes edge `e` along its
    /// direction (`outgoing`) or against it.
    pub open spec fn leaves(self, e: int, outgoing: bool) -> int {
        if outgoing {
            self.edges[e].source
        } else {
            self.edges[e].target
        }
    }

    /// The node that a walk enters when it takes edge `e` along its
    /// direction (`outgoing`) or against it.
    pub open spec fn enters(self, e: int, outgoing: bool) -> int {
        if outgoing {
            self.edges[e].target
        } else {
            self.edges[e].source
        }
    }
}

/// The node weights that a petgraph graph holds, by node index.
pub uninterp spec fn graph_nodes(g: Graph<String, EdgeData, Directed, u32>) -> Seq<Seq<char>>;

/// The edges that a petgraph graph holds, by edge index.
pub uninterp spec fn graph_edges(g: Graph<String, EdgeData, Directed, u32>) -> Seq<EdgeModel>;

/// The model of an edge from `a` to `b` with weight `d`.
pub open spec fn edge_model(a: int, b: int, d: EdgeData) -> EdgeModel {
    EdgeModel {
        source: a,
        target: b,
        predicate: d.predicate@,
        count: d.count,
        forward: d.forward,
        backward: d.backward,
    }
}

/// `Graph::new`: a directed graph that holds no node and no edge.
#[verifier::external_body]
fn graph_new() -> (g: Graph<String, EdgeData, Directed, u32>)
    ensures
        graph_nodes(g) == Seq::<Seq<char>>::empty(),
        graph_edges(g) == Seq::<EdgeModel>::empty(),
{
    Graph::new()
}

/// `Graph::node_count`: the number of nodes held.
#[verifier::external_body]
fn graph_node_count(g: &Graph<String, EdgeData, Directed, u32>) -> (n: usize)
    ensures
        n == graph_nodes(*g).len(),
{
    g.node_count()
}

/// `Graph::edge_count`: the number of edges held.
#[verifier::external_body]
fn graph_edge_count(g: &Graph<String, EdgeData, Directed, u32>) -> (n: usize)
    ensures
        n == graph_edges(*g).len(),
{
    g.edge_count()
}

/// `Graph::add_node`: the new node takes the next index and the edges stay.
/// With 32-bit indices the call panics once `u32::MAX` nodes are held.
#[verifier::external_body]
fn graph_add_node(g: &mut Graph<String, EdgeData, Directed, u32>, name: String) -> (n: usize)
    requires
        graph_nodes(*old(g)).len() < u32::MAX,
    ensures
        n == graph_nodes(*old(g)).len(),
        graph_nodes(*final(g)) == graph_nodes(*old(g)).push(name@),
        graph_edges(*final(g)) == graph_edges(*old(g)),
{
    g.add_node(name).index()
}

/// `Graph::add_edge`: the new edge takes the next index and the nodes stay.
/// The call panics if an endpoint is no node of the graph or once
/// `u32::MAX` edges are held.
#[verifier::external_body]
fn graph_add_edge(
    g: &mut Graph<String, EdgeData, Directed, u32>,
    a: usize,
    b: usize,
    data: EdgeData,
) -> (e: usize)
    requires
        a < graph_nodes(*old(g)).len(),
        b < graph_nodes(*old(g)).len(),
        a <= u32::MAX,
        b <= u32::MAX,
        graph_edges(*old(g)).len() < u32::MAX,
    ensures
        e == graph_edges(*old(g)).len(),
        graph_nodes(*final(g)) == graph_nodes(*old(g)),
        graph_edges(*final(g)) == graph_edges(*old(g)).push(edge_model(a as int, b as int, data)),
{
    g.add_edge(NodeIndex::new(a), NodeIndex::new(b), data).index()
}

/// `Graph::node_weight` on a node of the graph: its weight.
#[verifier::external_body]
fn graph_node_weight(g: &Graph<String, EdgeData, Directed, u32>, a: usize) -> (name: &String)
    requires
        a < graph_nodes(*g).len(),
        a <= u32::MAX,
    ensures
        name@ == graph_nodes(*g)[a as int],
{
    g.node_weight(NodeIndex::new(a)).unwrap()
}

/// `Graph::edge_endpoints` on an edge of the graph: its source and target.
#[verifier::external_body]
fn graph_edge_endpoints(g: &Graph<String, EdgeData, Directed, u32>, e: usize) -> (ends: (
    usize,
    usize,
))
    requires
        e < graph_edges(*g).len(),
        e <= u32::MAX,
    ensures
        ends.0 == graph_edges(*g)[e as int].source,
        ends.1 == graph_edges(*g)[e as int].target,
{
    let (a, b) = g.edge_endpoints(EdgeIndex::new(e)).unwrap();
    (a.index(), b.index())
}

/// `Graph::edge_weight` on an edge of the graph: its weight.
#[verifier::external_body]
fn graph_edge_weight(g: &Graph<String, EdgeData, Directed, u32>, e: usize) -> (data: &EdgeData)
    requires
        e < graph_edges(*g).len(),
        e <= u32::MAX,
    ensures
        edge_model(
            graph_edges(*g)[e as int].source,
            graph_edges(*g)[e as int].target,
            *data,
        ) == graph_edges(*g)[e as int],
{
    g.edge_weight(EdgeIndex::new(e)).unwrap()
}

/// `Graph::edge_weight_mut` on an edge of the graph, used to store the two
/// probabilities: the predicate, the count, the endpoints, the other edges
/// and the nodes stay.
#[verifier::external_body]
fn graph_set_probabilities(
    g: &mut Graph<String, EdgeData, Directed, u32>,
    e: usize,
    forward: Option<Ratio>,
    backward: Option<Ratio>,
)
    requires
        e < graph_edges(*old(g)).len(),
        e <= u32::MAX,
    ensures
        graph_nodes(*final(g)) == graph_nodes(*old(g)),
        graph_edges(*final(g)) == graph_edges(*old(g)).update(
            e as int,
            EdgeModel { forward: forward, backward: backward, ..graph_edges(*old(g))[e as int] },
        ),
{
    let w = g.edge_weight_mut(EdgeIndex::new(e)).unwrap();
    w.forward = forward;
    w.backward = backward;
}

/// The class-relation graph.
pub struct ClassGraph {
    inner: Graph<String, EdgeData, Directed, u32>,
    literal: usize,
}

impl View for ClassGraph {
    type V = GraphModel;

    closed spec fn view(&self) -> GraphModel {
        GraphModel {
            nodes: graph_nodes(self.inner),
            edges: graph_edges(self.inner),
            literal: self.literal as int,
        }
    }
}

impl ClassGraph {
    /// The graph's invariant: the model's, the sink as the first node, and
    /// sizes that 32-bit indices hold.
    pub open spec fn wf(&self) -> bool {
        &&& self@.wf()
        &&& self@.literal == 0
        &&& self@.nodes.len() <= u32::MAX
        &&& self@.edges.len() <= u32::MAX
    }

    /// A graph that holds the sink and nothing else.
    pub fn new() -> (g: ClassGraph)
        ensures
            g.wf(),
            g@.nodes == seq![literal_name()],
            g@.edges == Seq::<EdgeModel>::empty(),
            g@.literal == 0,
    {
        let mut inner = graph_new();
        let literal = graph_add_node(&mut inner, "Literal".to_string());
        let g = ClassGraph { inner, literal };
        assert(g@.nodes =~= seq![literal_name()]);
        g
    }

    /// The number of nodes, the sink included.
    pub fn node_count(&self) -> (n: usize)
        ensures
            n == self@.nodes.len(),
    {
        graph_node_count(&self.inner)
    }

    /// The number of edges.
    pub fn edge_count(&self) -> (n: usize)
        ensures
            n == self@.edges.len(),
    {
        graph_edge_count(&self.inner)
    }

    /// The index of the sink.
    pub fn literal(&self) -> (n: usize)
        ensures
            n == self@.literal,
    {
        self.literal
    }

    /// The name of node `n`.
    pub fn node_name(&self, n: usize) -> (name: &String)
        requires
            self.wf(),
            n < self@.nodes.len(),
        ensures
            name@ == self@.nodes[n as int],
    {
        graph_node_weight(&self.inner, n)
    }

    /// The node that edge `e` starts from.
    pub fn edge_source(&self, e: usize) -> (n: usize)
        requires
            self.wf(),
            e < self@.edges.len(),
        ensures
            n == self@.edges[e as int].source,
            n < self@.nodes.len(),
    {
        graph_edge_endpoints(&self.inner, e).0
    }

    /// The node that edge `e` ends in.
    pub fn edge_target(&self, e: usize) -> (n: usize)
        requires
            self.wf(),
            e < self@.edges.len(),
        ensures
            n == self@.edges[e as int].target,
            n < self@.nodes.len(),
    {
        graph_edge_endpoints(&self.inner, e).1
    }

    /// The usage count of edge `e`.
    pub fn edge_weight(&self, e: usize) -> (c: u64)
        requires
            self.wf(),
            e < self@.edges.len(),
        ensures
            c == self@.edges[e as int].count,
    {
        graph_edge_weight(&self.inner, e).count
    }

    /// The predicate of edge `e`.
    pub fn edge_predicate(&self, e: usize) -> (p: &String)
        requires
            self.wf(),
            e < self@.edges.len(),
        ensures
            p@ == self@.edges[e as int].predicate,
    {
        &graph_edge_weight(&self.inner, e).predicate
    }

    /// The forward probability of edge `e`, if set.
    pub fn edge_forward(&self, e: usize) -> (p: Option<Ratio>)
        requires
            self.wf(),
            e < self@.edges.len(),
        ensures
            p == self@.edges[e as int].forward,
    {
        graph_edge_weight(&self.inner, e).forward
    }

    /// The backward probability of edge `e`, if set.
    pub fn edge_backward(&self, e: usize) -> (p: Option<Ratio>)
        requires
            self.wf(),
            e < self@.edges.len(),
        ensures
            p == self@.edges[e as int].backward,
    {
        graph_edge_weight(&self.inner, e).backward
    }

    /// Stores the two probabilities of edge `e`.
    pub fn set_probabilities(&mut self, e: usize, forward: Option<Ratio>, backward: Option<Ratio>)
        requires
            old(self).wf(),
            e < old(self)@.edges.len(),
        ensures
            final(self).wf(),
            final(self)@.nodes == old(self)@.nodes,
            final(self)@.literal == old(self)@.literal,
            final(self)@.edges == old(self)@.edges.update(
                e as int,
                EdgeModel { forward: forward, backward: backward, ..old(self)@.edges[e as int] },
            ),
    {
        graph_set_probabilities(&mut self.inner, e, forward, backward);
    }

    /// The first node named `name`.
    pub fn find_node(&self, name: &str) -> (r: Option<usize>)
        requires
            self.wf(),
        ensures
            match r {
                Some(n) => n < self@.nodes.len() && self@.nodes[n as int] == name@ && forall|
                    k: int,
                | 0 <= k < n ==> self@.nodes[k] != name@,
                None => forall|k: int| 0 <= k < self@.nodes.len() ==> self@.nodes[k] != name@,
            },
    {
        let wanted = chars_of(name);
        let count = self.node_count();
        let mut n: usize = 0;
        while n < count
            invariant
                self.wf(),
                count == self@.nodes.len(),
                n <= count,
                wanted@ == name@,
                forall|k: int| 0 <= k < n ==> self@.nodes[k] != name@,
            decreases count - n,
        {
            let here = chars_of(self.node_name(n).as_str());
            if same_chars(&here, &wanted) {
                return Some(n);
            }
            n += 1;
        }
        None
    }

    /// Adds a class node named `name` and returns its index.
    pub fn add_class(&mut self, name: String) -> (n: usize)
        requires
            old(self).wf(),
            old(self)@.nodes.len() < u32::MAX,
        ensures
            final(self).wf(),
            n == old(self)@.nodes.len(),
            final(self)@.nodes == old(self)@.nodes.push(name@),
            final(self)@.edges == old(self)@.edges,
            final(self)@.literal == old(self)@.literal,
    {
        graph_add_node(&mut self.inner, name)
    }

    /// Adds an edge from `source` to `target` and returns its index. The
    /// probabilities of the new edge are unset.
    pub fn add_relation(&mut self, source: usize, target: usize, predicate: String, count: u64) -> (e:
        usize)
        requires
            old(self).wf(),
            source < old(self)@.nodes.len(),
            target < old(self)@.nodes.len(),
            source != old(self)@.literal,
            old(self)@.edges.len() < u32::MAX,
        ensures
            final(self).wf(),
            e == old(self)@.edges.len(),
            final(self)@.nodes == old(self)@.nodes,
            final(self)@.literal == old(self)@.literal,
            final(self)@.edges == old(self)@.edges.push(
                EdgeModel {
                    source: source as int,
                    target: target as int,
                    predicate: predicate@,
                    count: count,
                    forward: None,
                    backward: None,
                },
            ),
    {
        let data = EdgeData { predicate, count, forward: None, backward: None };
        graph_add_edge(&mut self.inner, source, target, data)
    }
}

} // verus!
