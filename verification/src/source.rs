//! The finished artifact: the dependency graph together with the order in
//! which its files are emitted.

use crate::graph::{
    graph_edges, graph_node, graph_nodes, graph_toposort, has_cycle, is_permutation,
    is_topological, lemma_topological_order_excludes_cycles, node_kinds, node_views, precedes,
    toposort_of, Source, SourceGraph, SourceKind, SourceView,
};
use crate::order::{
    arrange, dependency_order, edges_join_declarations, lemma_dependency_order, of_rank, rank,
};
use crate::parse::source_file::{ParseSourceError, ParseSourceErrorView};
use vstd::prelude::*;

verus! {

/// Why the sources of a bundle cannot be resolved.
#[derive(Debug, Clone, PartialEq, Eq)]
pub enum SourcesError {
    /// The file at `path` cannot be read.
    Unreadable { path: String },
    /// The file at `path` does not parse.
    Malformed { path: String, error: ParseSourceError },
    /// The path `path` cannot be resolved to a canonical one.
    Unresolvable { path: String },
    /// The graph has more nodes or edges than it can number.
    TooLarge,
    /// The declarations depend on one another in a circle.
    CircularDependency,
}

/// An error as a mathematical value.
pub enum SourcesErrorView {
    Unreadable { path: Seq<char> },
    Malformed { path: Seq<char>, error: ParseSourceErrorView },
    Unresolvable { path: Seq<char> },
    TooLarge,
    CircularDependency,
}

impl View for SourcesError {
    type V = SourcesErrorView;

    open spec fn view(&self) -> SourcesErrorView {
        match self {
            SourcesError::Unreadable { path } => SourcesErrorView::Unreadable { path: path@ },
            SourcesError::Malformed { path, error } => SourcesErrorView::Malformed {
                path: path@,
                error: error@,
            },
            SourcesError::Unresolvable { path } => SourcesErrorView::Unresolvable { path: path@ },
            SourcesError::TooLarge => SourcesErrorView::TooLarge,
            SourcesError::CircularDependency => SourcesErrorView::CircularDependency,
        }
    }
}

/// A graph as a mathematical value: its nodes by index, and its edges as
/// (from, to) in the order in which they were added.
pub struct GraphView {
    pub nodes: Seq<SourceView>,
    pub edges: Seq<(usize, usize)>,
}

impl GraphView {
    /// The kind of each node.
    pub open spec fn kinds(self) -> Seq<SourceKind> {
        Seq::new(self.nodes.len(), |i: int| self.nodes[i].kind)
    }

    /// The entry file is node 0 and an implementation, and every edge joins
    /// two declarations.
    pub open spec fn wf(self) -> bool {
        &&& self.nodes.len() > 0
        &&& self.nodes[0].kind == SourceKind::Implementation
        &&& edges_join_declarations(self.edges, self.kinds())
    }
}

/// The view of a graph.
pub open spec fn graph_view(g: SourceGraph) -> GraphView {
    GraphView { nodes: node_views(g), edges: graph_edges(g) }
}

/// A dependency graph whose files have all been loaded. Node 0 is the entry
/// file.
pub struct DependencyGraph {
    graph: SourceGraph,
}

impl View for DependencyGraph {
    type V = GraphView;

    closed spec fn view(&self) -> GraphView {
        graph_view(self.graph)
    }
}

impl DependencyGraph {
    /// The graph is well formed.
    #[verifier::type_invariant]
    pub open spec fn wf(&self) -> bool {
        self@.wf()
    }

    /// Takes over a graph whose files have all been loaded.
    pub(crate) fn from_graph(graph: SourceGraph) -> (g: Self)
        requires
            graph_view(graph).wf(),
        ensures
            g@ == graph_view(graph),
    {
        DependencyGraph { graph }
    }
}

/// The sources of a bundle, in dependency order.
pub struct Sources {
    graph: SourceGraph,
    dependencies: Vec<usize>,
}

impl Sources {
    /// The graph that the sources came from.
    pub closed spec fn graph(&self) -> GraphView {
        graph_view(self.graph)
    }

    /// The nodes of the graph in emission order.
    pub closed spec fn order(&self) -> Seq<usize> {
        self.dependencies@
    }

    /// The sources in emission order.
    pub open spec fn view(&self) -> Seq<SourceView> {
        Seq::new(self.order().len(), |i: int| self.graph().nodes[self.order()[i] as int])
    }

    /// The graph is well formed and free of cycles, and the order is the
    /// emission order that belongs to its topological order.
    #[verifier::type_invariant]
    pub open spec fn wf(&self) -> bool {
        let g = self.graph();
        &&& g.wf()
        &&& toposort_of(g.nodes.len(), g.edges) matches Some(topo)
        &&& is_topological(topo, g.nodes.len(), g.edges)
        &&& self.order() == dependency_order(topo, g.kinds(), 0)
    }

    /// Orders the files of a graph for emission. Fails exactly where the
    /// edges hold a cycle. Otherwise the order lists every file once:
    /// first the declarations, each after all that it depends on, then the
    /// entry file, then the other implementations.
    pub fn new(graph: DependencyGraph) -> (r: Result<Self, SourcesError>)
        ensures
            r.is_err() <==> has_cycle(graph@.edges),
            r matches Err(e) ==> e@ == SourcesErrorView::CircularDependency,
            r matches Ok(s) ==> {
                &&& s.wf()
                &&& s.graph() == graph@
                &&& toposort_of(graph@.nodes.len(), graph@.edges) matches Some(topo)
                &&& s.order() == dependency_order(topo, graph@.kinds(), 0)
                &&& is_permutation(s.order(), graph@.nodes.len())
                &&& forall|k: int|
                    0 <= k < graph@.edges.len() ==> precedes(
                        s.order(),
                        (#[trigger] graph@.edges[k]).1,
                        graph@.edges[k].0,
                    )
            },
    {
        proof {
            use_type_invariant(&graph);
        }
        let DependencyGraph { graph } = graph;
        let topo = match graph_toposort(&graph) {
            Some(topo) => topo,
            None => {
                return Err(SourcesError::CircularDependency);
            },
        };
        proof {
            lemma_topological_order_excludes_cycles(
                topo@,
                graph_nodes(graph).len(),
                graph_edges(graph),
            );
            assert forall|i: int| 0 <= i < topo.len() implies topo[i] < graph_nodes(
                graph,
            ).len() by {
                assert(topo@.contains(topo@[i]));
            }
            assert(node_kinds(graph) == graph_view(graph).kinds());
        }
        let dependencies = arrange(&topo, &graph, 0);
        proof {
            lemma_dependency_order(topo@, node_kinds(graph), 0, graph_edges(graph));
        }
        Ok(Sources { graph, dependencies })
    }

    /// The number of sources.
    pub fn len(&self) -> (n: usize)
        ensures
            n == self@.len(),
    {
        self.dependencies.len()
    }

    /// The sources in dependency order, by reference.
    pub fn dependency_order(&self) -> (it: DependencyOrder<'_>)
        ensures
            it.wf(),
            it@ == self@,
    {
        proof {
            use_type_invariant(self);
            let g = self.graph();
            let topo = toposort_of(g.nodes.len(), g.edges).unwrap();
            lemma_dependency_order(topo, g.kinds(), 0, g.edges);
            assert forall|i: int| 0 <= i < self.dependencies@.len() implies self.dependencies@[i]
                < graph_nodes(self.graph).len() by {
                assert(self.order().contains(self.order()[i]));
            }
        }
        let it = DependencyOrder { graph: &self.graph, order: &self.dependencies, pos: 0 };
        assert(it@ == self@);
        it
    }

    /// Every file is listed exactly once.
    pub proof fn lemma_each_file_once(self)
        requires
            self.wf(),
        ensures
            is_permutation(self.order(), self.graph().nodes.len()),
    {
        let g = self.graph();
        let topo = toposort_of(g.nodes.len(), g.edges).unwrap();
        lemma_dependency_order(topo, g.kinds(), 0, g.edges);
    }

    /// For every edge of the graph, from a declaration to one that it
    /// depends on, the dependency stands before the dependent.
    pub proof fn lemma_dependencies_come_first(self, k: int)
        requires
            self.wf(),
            0 <= k < self.graph().edges.len(),
        ensures
            precedes(self.order(), self.graph().edges[k].1, self.graph().edges[k].0),
    {
        let g = self.graph();
        let topo = toposort_of(g.nodes.len(), g.edges).unwrap();
        lemma_dependency_order(topo, g.kinds(), 0, g.edges);
    }

    /// The order falls into three parts: the declarations, then the entry
    /// file, then the other implementations.
    pub proof fn lemma_entry_follows_declarations(self) -> (d: int)
        requires
            self.wf(),
        ensures
            0 <= d < self.order().len(),
            self.order()[d] == 0,
            forall|i: int|
                0 <= i < d ==> self.graph().nodes[#[trigger] self.order()[i] as int].kind
                    == SourceKind::Declaration,
            forall|i: int|
                d < i < self.order().len() ==> self.graph().nodes[#[trigger] self.order()[i] as int].kind
                    == SourceKind::Implementation,
    {
        let g = self.graph();
        let topo = toposort_of(g.nodes.len(), g.edges).unwrap();
        lemma_dependency_order(topo, g.kinds(), 0, g.edges);
        let d = of_rank(topo, g.kinds(), 0, 2).len() as int;
        assert forall|i: int| 0 <= i < self.order().len() implies self.order()[i]
            < g.nodes.len() by {
            assert(self.order().contains(self.order()[i]));
        }
        assert forall|i: int| 0 <= i < d implies g.nodes[#[trigger] self.order()[i] as int].kind
            == SourceKind::Declaration by {
            assert(rank(g.kinds(), 0, self.order()[i]) == 2);
        }
        assert forall|i: int| d < i < self.order().len() implies g.nodes[#[trigger] self.order()[i] as int].kind
            == SourceKind::Implementation by {
            assert(rank(g.kinds(), 0, self.order()[i]) == 0);
        }
        d
    }

    /// Where the entry file is the only implementation, it is the last file
    /// of the order.
    pub proof fn lemma_entry_last(self)
        requires
            self.wf(),
            forall|x: int|
                0 < x < self.graph().nodes.len() ==> (#[trigger] self.graph().nodes[x]).kind
                    == SourceKind::Declaration,
        ensures
            self.order().len() > 0,
            self.order().last() == 0,
    {
        let g = self.graph();
        let topo = toposort_of(g.nodes.len(), g.edges).unwrap();
        lemma_dependency_order(topo, g.kinds(), 0, g.edges);
        let d = of_rank(topo, g.kinds(), 0, 2).len() as int;
        let last = self.order().len() - 1;
        if d < last {
            let x = self.order()[last];
            assert(self.order().contains(x));
            assert(rank(g.kinds(), 0, x) == 0);
            assert(g.nodes[x as int].kind == SourceKind::Declaration);
        }
    }
}

/// A pass over the sources in dependency order.
pub struct DependencyOrder<'a> {
    graph: &'a SourceGraph,
    order: &'a Vec<usize>,
    pos: usize,
}

impl<'a> DependencyOrder<'a> {
    /// The position lies within the order, which names nodes of the graph.
    #[verifier::type_invariant]
    pub closed spec fn wf(&self) -> bool {
        &&& self.pos <= self.order.len()
        &&& forall|i: int| 0 <= i < self.order.len() ==> self.order[i] < graph_nodes(*self.graph).len()
    }

    /// The sources that are still to come.
    pub closed spec fn view(&self) -> Seq<SourceView> {
        Seq::new(
            (self.order.len() - self.pos) as nat,
            |i: int| node_views(*self.graph)[self.order[self.pos + i] as int],
        )
    }

    /// The next source, if one is left.
    pub fn next(&mut self) -> (r: Option<&'a Source>)
        ensures
            final(self).wf(),
            match r {
                Some(source) => old(self)@.len() > 0 && source@ == old(self)@[0] && final(self)@
                    == old(self)@.drop_first(),
                None => old(self)@.len() == 0 && final(self)@ == old(self)@,
            },
    {
        proof {
            use_type_invariant(&*self);
        }
        if self.pos < self.order.len() {
            let source = graph_node(self.graph, self.order[self.pos]);
            self.pos += 1;
            Some(source)
        } else {
            None
        }
    }

    /// The number of sources that are still to come.
    pub fn len(&self) -> (n: usize)
        ensures
            n == self@.len(),
    {
        proof {
            use_type_invariant(self);
        }
        self.order.len() - self.pos
    }

    /// The bounds on the number of sources that are still to come: both are
    /// that number.
    pub fn size_hint(&self) -> (r: (usize, Option<usize>))
        ensures
            r.0 == self@.len(),
            r.1 == Some(r.0),
    {
        let n = self.len();
        (n, Some(n))
    }
}

} // verus!
