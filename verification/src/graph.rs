//! The dependency graph: an arena of sources with directed edges between
//! them, kept by `petgraph`.

use vstd::prelude::*;

verus! {

/// How a file entered the graph.
#[derive(Debug, Clone, Copy, PartialEq, Eq, Structural)]
pub enum SourceKind {
    /// Reached through a bundled include.
    Declaration,
    /// Reached through an `impl` directive, or the entry file.
    Implementation,
}

/// A node of the graph: one file.
#[derive(Debug, Clone)]
pub struct Source {
    pub kind: SourceKind,
    /// The path under which the file was opened.
    pub path: String,
    /// The file's text without its bundling lines.
    pub content: String,
}

/// A source as a mathematical value.
pub struct SourceView {
    pub kind: SourceKind,
    pub path: Seq<char>,
    pub content: Seq<char>,
}

impl View for Source {
    type V = SourceView;

    open spec fn view(&self) -> SourceView {
        SourceView { kind: self.kind, path: self.path@, content: self.content@ }
    }
}

/// `petgraph::graph::Graph`, taken as it is. What a graph of sources holds
/// is named by `graph_nodes` and `graph_edges`.
#[verifier::external_type_specification]
#[verifier::external_body]
#[verifier::reject_recursive_types(N)]
#[verifier::reject_recursive_types(E)]
#[verifier::reject_recursive_types(Ty)]
#[verifier::reject_recursive_types(Ix)]
pub struct ExGraph<N, E, Ty, Ix>(petgraph::graph::Graph<N, E, Ty, Ix>);

/// `petgraph::Directed`, the mark of a graph whose edges have a direction.
#[verifier::external_type_specification]
#[verifier::external_body]
pub struct ExDirected(petgraph::Directed);

/// The graph of sources.
pub type SourceGraph = petgraph::graph::Graph<Source, (), petgraph::Directed, u32>;

/// The nodes of a graph, by index.
pub uninterp spec fn graph_nodes(g: SourceGraph) -> Seq<Source>;

/// The edges of a graph, each as (from, to), in the order in which they were
/// added.
pub uninterp spec fn graph_edges(g: SourceGraph) -> Seq<(usize, usize)>;

/// The order in which `petgraph::algo::toposort` lists the nodes of a graph
/// with `nodes` nodes and the given edges, or `None` where it reports a
/// cycle.
pub uninterp spec fn toposort_of(nodes: nat, edges: Seq<(usize, usize)>) -> Option<Seq<usize>>;

/// The nodes of a graph as mathematical values.
pub open spec fn node_views(g: SourceGraph) -> Seq<SourceView> {
    Seq::new(graph_nodes(g).len(), |i: int| graph_nodes(g)[i]@)
}

/// The kind of each node of a graph.
pub open spec fn node_kinds(g: SourceGraph) -> Seq<SourceKind> {
    Seq::new(graph_nodes(g).len(), |i: int| graph_nodes(g)[i].kind)
}

/// `x` stands somewhere before `y` in `order`.
pub open spec fn precedes(order: Seq<usize>, x: usize, y: usize) -> bool {
    exists|i: int, j: int| 0 <= i < j < order.len() && order[i] == x && order[j] == y
}

/// `order` lists each of the nodes `0..n` exactly once.
pub open spec fn is_permutation(order: Seq<usize>, n: nat) -> bool {
    &&& order.len() == n
    &&& order.no_duplicates()
    &&& forall|x: usize| order.contains(x) <==> x < n
}

/// `order` lists each node once, and the source of every edge before its
/// target.
pub open spec fn is_topological(order: Seq<usize>, n: nat, edges: Seq<(usize, usize)>) -> bool {
    &&& is_permutation(order, n)
    &&& forall|k: int| 0 <= k < edges.len() ==> precedes(order, (#[trigger] edges[k]).0, edges[k].1)
}

/// `walk` follows edges from node to node, over at least one edge.
pub open spec fn is_walk(edges: Seq<(usize, usize)>, walk: Seq<usize>) -> bool {
    &&& walk.len() >= 2
    &&& forall|i: int| 0 <= i < walk.len() - 1 ==> edges.contains((#[trigger] walk[i], walk[i + 1]))
}

/// Some walk along the edges returns to the node it started from.
pub open spec fn has_cycle(edges: Seq<(usize, usize)>) -> bool {
    exists|walk: Seq<usize>| #[trigger] is_walk(edges, walk) && walk.first() == walk.last()
}

/// `Graph::new` makes a graph without nodes and without edges.
#[verifier::external_body]
pub(crate) fn graph_new() -> (g: SourceGraph)
    ensures
        graph_nodes(g) == Seq::<Source>::empty(),
        graph_edges(g) == Seq::<(usize, usize)>::empty(),
{
    petgraph::graph::Graph::new()
}

/// `Graph::node_count` is the number of nodes.
#[verifier::external_body]
pub(crate) fn graph_node_count(g: &SourceGraph) -> (n: usize)
    ensures
        n == graph_nodes(*g).len(),
{
    g.node_count()
}

/// `Graph::edge_count` is the number of edges.
#[verifier::external_body]
pub(crate) fn graph_edge_count(g: &SourceGraph) -> (n: usize)
    ensures
        n == graph_edges(*g).len(),
{
    g.edge_count()
}

/// `Graph::add_node` appends a node, whose index is the number of nodes
/// before the call, and leaves the edges alone. It panics once the indices
/// of a `u32` are used up, which `requires` rules out.
#[verifier::external_body]
pub(crate) fn graph_add_node(g: &mut SourceGraph, source: Source) -> (index: usize)
    requires
        graph_nodes(*old(g)).len() < u32::MAX,
    ensures
        graph_nodes(*final(g)) == graph_nodes(*old(g)).push(source),
        graph_edges(*final(g)) == graph_edges(*old(g)),
        index == graph_nodes(*old(g)).len(),
{
    g.add_node(source).index()
}

/// `Graph::add_edge` appends an edge from `from` to `to` and leaves the nodes
/// alone. An edge may repeat an earlier one. It panics if a node does not
/// exist or once the indices of a `u32` are used up, which `requires` rules
/// out.
#[verifier::external_body]
pub(crate) fn graph_add_edge(g: &mut SourceGraph, from: usize, to: usize)
    requires
        from < graph_nodes(*old(g)).len(),
        to < graph_nodes(*old(g)).len(),
        graph_edges(*old(g)).len() < u32::MAX,
    ensures
        graph_nodes(*final(g)) == graph_nodes(*old(g)),
        graph_edges(*final(g)) == graph_edges(*old(g)).push((from, to)),
{
    g.add_edge(petgraph::graph::NodeIndex::new(from), petgraph::graph::NodeIndex::new(to), ());
}

/// Indexing a `Graph` by a node index gives that node. It panics if the node
/// does not exist, which `requires` rules out.
#[verifier::external_body]
pub(crate) fn graph_node(g: &SourceGraph, index: usize) -> (source: &Source)
    requires
        index < graph_nodes(*g).len(),
    ensures
        *source == graph_nodes(*g)[index as int],
{
    &g[petgraph::graph::NodeIndex::new(index)]
}

/// `petgraph::algo::toposort` reports a cycle only where the edges hold one;
/// a loop from a node to itself counts as one. Otherwise it lists every node
/// once, each before the nodes that its edges lead to. Which of the orders
/// that fit it picks depends on the number of nodes and on the edges alone.
#[verifier::external_body]
pub(crate) fn graph_toposort(g: &SourceGraph) -> (order: Option<Vec<usize>>)
    ensures
        order.is_none() ==> has_cycle(graph_edges(*g)),
        order matches Some(o) ==> is_topological(o@, graph_nodes(*g).len(), graph_edges(*g)),
        match order {
            Some(o) => Some(o@),
            None => None,
        } == toposort_of(graph_nodes(*g).len(), graph_edges(*g)),
{
    match petgraph::algo::toposort(g, None) {
        Ok(order) => Some(order.into_iter().map(|node| node.index()).collect()),
        Err(_) => None,
    }
}

/// Two nodes with an edge each way lie on a cycle; so does a node with an
/// edge to itself, which is the case of `a == b`.
pub proof fn lemma_mutual_edges_are_a_cycle(edges: Seq<(usize, usize)>, a: usize, b: usize)
    requires
        edges.contains((a, b)),
        edges.contains((b, a)),
    ensures
        has_cycle(edges),
{
    let walk = seq![a, b, a];
    assert(is_walk(edges, walk));
    assert(walk.first() == walk.last());
}

/// A graph with a topological order has no cycle.
pub proof fn lemma_topological_order_excludes_cycles(
    order: Seq<usize>,
    n: nat,
    edges: Seq<(usize, usize)>,
)
    requires
        is_topological(order, n, edges),
    ensures
        !has_cycle(edges),
{
    if has_cycle(edges) {
        let walk = choose|walk: Seq<usize>| #[trigger]
            is_walk(edges, walk) && walk.first() == walk.last();
        lemma_walk_goes_forward(order, n, edges, walk, walk.len() - 1);
        let (i, j) = choose|i: int, j: int|
            0 <= i < j < order.len() && order[i] == walk[0] && order[j] == walk[walk.len() - 1];
        assert(order[i] == order[j]);
    }
}

/// Along a walk, every node stands after the first one in a topological
/// order.
proof fn lemma_walk_goes_forward(
    order: Seq<usize>,
    n: nat,
    edges: Seq<(usize, usize)>,
    walk: Seq<usize>,
    k: int,
)
    requires
        is_topological(order, n, edges),
        is_walk(edges, walk),
        1 <= k < walk.len(),
    ensures
        precedes(order, walk[0], walk[k]),
    decreases k,
{
    assert(edges.contains((walk[k - 1], walk[k])));
    let e = choose|e: int| 0 <= e < edges.len() && edges[e] == (walk[k - 1], walk[k]);
    assert(precedes(order, edges[e].0, edges[e].1));
    let (i, j) = choose|i: int, j: int|
        0 <= i < j < order.len() && order[i] == walk[k - 1] && order[j] == walk[k];
    if k > 1 {
        lemma_walk_goes_forward(order, n, edges, walk, k - 1);
        let (a, b) = choose|a: int, b: int|
            0 <= a < b < order.len() && order[a] == walk[0] && order[b] == walk[k - 1];
        assert(b == i);
        assert(order[a] == walk[0] && order[j] == walk[k]);
    }
}

} // verus!
