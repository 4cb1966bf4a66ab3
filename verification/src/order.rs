//! The emission order: a topological order of the graph, regrouped by kind
//! and reversed, so that every declaration follows the declarations that it
//! depends on.

use crate::graph::{
    graph_node, graph_nodes, is_permutation, is_topological, node_kinds, precedes, SourceGraph,
    SourceKind,
};
use vstd::prelude::*;

verus! {

/// The group of a node in the emission order: implementations other than
/// the entry file are 0, the entry file is 1 and declarations are 2.
pub open spec fn rank(kinds: Seq<SourceKind>, entry: usize, x: usize) -> int {
    if kinds[x as int] == SourceKind::Declaration {
        2
    } else if x == entry {
        1
    } else {
        0
    }
}

/// The nodes of `topo` whose rank is `r`, in the order of `topo`.
pub open spec fn of_rank(topo: Seq<usize>, kinds: Seq<SourceKind>, entry: usize, r: int) -> Seq<
    usize,
> {
    topo.filter(|x: usize| rank(kinds, entry, x) == r)
}

/// `topo` sorted by rank, nodes of one rank staying in the order of `topo`.
pub open spec fn sorted_by_rank(topo: Seq<usize>, kinds: Seq<SourceKind>, entry: usize) -> Seq<
    usize,
> {
    of_rank(topo, kinds, entry, 0) + of_rank(topo, kinds, entry, 1) + of_rank(
        topo,
        kinds,
        entry,
        2,
    )
}

/// The emission order that belongs to the topological order `topo`: `topo`
/// sorted by rank, then reversed. Declarations come first, each after those
/// that it depends on; the entry file follows them; the other
/// implementations come last.
pub open spec fn dependency_order(topo: Seq<usize>, kinds: Seq<SourceKind>, entry: usize) -> Seq<
    usize,
> {
    sorted_by_rank(topo, kinds, entry).reverse()
}

/// Every edge joins two declarations of a graph with `kinds.len()` nodes.
pub open spec fn edges_join_declarations(edges: Seq<(usize, usize)>, kinds: Seq<SourceKind>) -> bool {
    forall|k: int|
        0 <= k < edges.len() ==> {
            &&& (#[trigger] edges[k]).0 < kinds.len()
            &&& edges[k].1 < kinds.len()
            &&& kinds[edges[k].0 as int] == SourceKind::Declaration
            &&& kinds[edges[k].1 as int] == SourceKind::Declaration
        }
}

/// A filter keeps exactly the members that pass, and adds no duplicates.
proof fn lemma_filter_members(s: Seq<usize>, p: spec_fn(usize) -> bool)
    ensures
        forall|x: usize| #[trigger] s.filter(p).contains(x) <==> s.contains(x) && p(x),
        s.no_duplicates() ==> s.filter(p).no_duplicates(),
        s.filter(p).len() <= s.len(),
    decreases s.len(),
{
    reveal(Seq::filter);
    if s.len() > 0 {
        let t = s.drop_last();
        let last = s.last();
        lemma_filter_members(t, p);
        let f = s.filter(p);
        let g = t.filter(p);
        assert(f == if p(last) {
            g.push(last)
        } else {
            g
        });
        assert forall|x: usize| #[trigger] f.contains(x) <==> s.contains(x) && p(x) by {
            if f.contains(x) {
                let i = choose|i: int| 0 <= i < f.len() && f[i] == x;
                if i < g.len() {
                    assert(g[i] == x);
                    assert(g.contains(x));
                    assert(t.contains(x) && p(x));
                    let j = choose|j: int| 0 <= j < t.len() && t[j] == x;
                    assert(s[j] == x);
                } else {
                    assert(x == last);
                    assert(s[s.len() - 1] == x);
                }
            }
            if s.contains(x) && p(x) {
                let j = choose|j: int| 0 <= j < s.len() && s[j] == x;
                if j < t.len() {
                    assert(t[j] == x);
                    assert(t.contains(x));
                    assert(g.contains(x));
                    let i = choose|i: int| 0 <= i < g.len() && g[i] == x;
                    assert(f[i] == x);
                } else {
                    assert(f[f.len() - 1] == x);
                }
            }
        }
        if s.no_duplicates() {
            assert(t.no_duplicates());
            if p(last) {
                assert forall|i: int, j: int| 0 <= i < j < f.len() implies f[i] != f[j] by {
                    if j == g.len() {
                        if f[i] == last {
                            assert(g[i] == last);
                            assert(g.contains(last));
                            assert(t.contains(last));
                            let k = choose|k: int| 0 <= k < t.len() && t[k] == last;
                            assert(s[k] == s[s.len() - 1]);
                        }
                    } else {
                        assert(g[i] != g[j]);
                    }
                }
            }
        }
    }
}

/// A filter keeps the order of the members that pass.
proof fn lemma_filter_keeps_order(s: Seq<usize>, p: spec_fn(usize) -> bool, x: usize, y: usize)
    requires
        precedes(s, x, y),
        p(x),
        p(y),
    ensures
        precedes(s.filter(p), x, y),
    decreases s.len(),
{
    reveal(Seq::filter);
    let (i, j) = choose|i: int, j: int| 0 <= i < j < s.len() && s[i] == x && s[j] == y;
    let t = s.drop_last();
    let f = s.filter(p);
    let g = t.filter(p);
    if j < t.len() {
        assert(t[i] == x && t[j] == y);
        lemma_filter_keeps_order(t, p, x, y);
        let (a, b) = choose|a: int, b: int| 0 <= a < b < g.len() && g[a] == x && g[b] == y;
        assert(f[a] == x && f[b] == y);
    } else {
        lemma_filter_members(t, p);
        assert(t[i] == x);
        assert(t.contains(x));
        assert(g.contains(x));
        let a = choose|a: int| 0 <= a < g.len() && g[a] == x;
        assert(f[a] == x && f[g.len() as int] == y);
    }
}

/// The three ranks split a sequence of nodes.
proof fn lemma_ranks_split(topo: Seq<usize>, kinds: Seq<SourceKind>, entry: usize)
    ensures
        sorted_by_rank(topo, kinds, entry).len() == topo.len(),
    decreases topo.len(),
{
    reveal(Seq::filter);
    if topo.len() > 0 {
        lemma_ranks_split(topo.drop_last(), kinds, entry);
    }
}

/// What the emission order owes to a topological order of a graph whose
/// edges join declarations and whose entry file is an implementation: it
/// lists each node once; for every edge, the target comes before the source;
/// the declarations come first, then the entry file, then the other
/// implementations.
pub proof fn lemma_dependency_order(
    topo: Seq<usize>,
    kinds: Seq<SourceKind>,
    entry: usize,
    edges: Seq<(usize, usize)>,
)
    requires
        is_topological(topo, kinds.len(), edges),
        edges_join_declarations(edges, kinds),
        entry < kinds.len(),
        kinds[entry as int] == SourceKind::Implementation,
    ensures
        is_permutation(dependency_order(topo, kinds, entry), kinds.len()),
        forall|k: int|
            0 <= k < edges.len() ==> precedes(
                dependency_order(topo, kinds, entry),
                (#[trigger] edges[k]).1,
                edges[k].0,
            ),
        of_rank(topo, kinds, entry, 2).len() < kinds.len(),
        dependency_order(topo, kinds, entry)[of_rank(topo, kinds, entry, 2).len() as int] == entry,
        forall|i: int|
            0 <= i < kinds.len() ==> rank(
                kinds,
                entry,
                #[trigger] dependency_order(topo, kinds, entry)[i],
            ) == if i < of_rank(topo, kinds, entry, 2).len() {
                2int
            } else if i == of_rank(topo, kinds, entry, 2).len() {
                1int
            } else {
                0int
            },
{
    let n = kinds.len();
    let is_other = |x: usize| rank(kinds, entry, x) == 0;
    let is_entry = |x: usize| rank(kinds, entry, x) == 1;
    let is_declaration = |x: usize| rank(kinds, entry, x) == 2;
    let a = of_rank(topo, kinds, entry, 0);
    let b = of_rank(topo, kinds, entry, 1);
    let c = of_rank(topo, kinds, entry, 2);
    let sorted = sorted_by_rank(topo, kinds, entry);
    let order = dependency_order(topo, kinds, entry);
    assert(a == topo.filter(is_other));
    assert(b == topo.filter(is_entry));
    assert(c == topo.filter(is_declaration));
    lemma_filter_members(topo, is_other);
    lemma_filter_members(topo, is_entry);
    lemma_filter_members(topo, is_declaration);
    lemma_ranks_split(topo, kinds, entry);
    assert forall|i: int| 0 <= i < a.len() implies is_other(#[trigger] a[i]) by {
        assert(a.contains(a[i]));
    }
    assert forall|i: int| 0 <= i < b.len() implies is_entry(#[trigger] b[i]) by {
        assert(b.contains(b[i]));
    }
    assert forall|i: int| 0 <= i < c.len() implies is_declaration(#[trigger] c[i]) by {
        assert(c.contains(c[i]));
    }
    assert(sorted.len() == n);
    assert(order.len() == n);

    // The entry file is the one node of rank 1.
    assert(topo.contains(entry));
    assert(b.contains(entry));
    assert(b.len() == 1) by {
        if b.len() > 1 {
            assert(is_entry(b[0]) && is_entry(b[1]));
            assert(b[0] == entry && b[1] == entry);
        }
    }
    assert(b[0] == entry) by {
        assert(is_entry(b[0]));
    }

    // Sorted by rank, the nodes are still each there once.
    assert forall|i: int, j: int| 0 <= i < a.len() && 0 <= j < b.len() implies a[i] != b[j] by {
        assert(is_other(a[i]) && is_entry(b[j]));
    }
    vstd::seq_lib::lemma_no_dup_in_concat(a, b);
    assert forall|i: int, j: int| 0 <= i < (a + b).len() && 0 <= j < c.len() implies (a + b)[i]
        != c[j] by {
        assert(is_declaration(c[j]));
        if i < a.len() {
            assert(is_other(a[i]));
        } else {
            assert(is_entry(b[i - a.len()]));
        }
    }
    vstd::seq_lib::lemma_no_dup_in_concat(a + b, c);
    assert(sorted.no_duplicates());
    assert forall|x: usize| sorted.contains(x) <==> x < n by {
        if sorted.contains(x) {
            let i = choose|i: int| 0 <= i < sorted.len() && sorted[i] == x;
            if i < a.len() {
                assert(a.contains(x));
            } else if i < a.len() + b.len() {
                assert(b.contains(b[i - a.len()]));
            } else {
                assert(c.contains(c[i - a.len() - b.len()]));
            }
            assert(topo.contains(x));
        }
        if x < n {
            assert(topo.contains(x));
            if is_other(x) {
                assert(a.contains(x));
                let i = choose|i: int| 0 <= i < a.len() && a[i] == x;
                assert(sorted[i] == x);
            } else if is_entry(x) {
                assert(sorted[a.len() as int] == x);
            } else {
                assert(is_declaration(x));
                assert(c.contains(x));
                let i = choose|i: int| 0 <= i < c.len() && c[i] == x;
                assert(sorted[a.len() + b.len() + i] == x);
            }
        }
    }

    // Reversing keeps the members and turns the order round.
    assert forall|i: int| 0 <= i < n implies #[trigger] order[i] == sorted[n - 1 - i] by {}
    assert(order.no_duplicates()) by {
        assert forall|i: int, j: int| 0 <= i < j < order.len() implies order[i] != order[j] by {
            assert(sorted[n - 1 - i] != sorted[n - 1 - j]);
        }
    }
    assert forall|x: usize| order.contains(x) <==> x < n by {
        if order.contains(x) {
            let i = choose|i: int| 0 <= i < order.len() && order[i] == x;
            assert(sorted[n - 1 - i] == x);
            assert(sorted.contains(x));
        }
        if x < n {
            assert(sorted.contains(x));
            let i = choose|i: int| 0 <= i < sorted.len() && sorted[i] == x;
            assert(order[n - 1 - i] == x);
        }
    }

    assert forall|k: int| 0 <= k < edges.len() implies precedes(
        order,
        (#[trigger] edges[k]).1,
        edges[k].0,
    ) by {
        let from = edges[k].0;
        let to = edges[k].1;
        assert(precedes(topo, from, to));
        assert(is_declaration(from) && is_declaration(to));
        lemma_filter_keeps_order(topo, is_declaration, from, to);
        let (i, j) = choose|i: int, j: int|
            0 <= i < j < c.len() && c[i] == from && c[j] == to;
        let off = a.len() + b.len();
        assert(sorted[off + i] == from && sorted[off + j] == to);
        assert(order[n - 1 - (off + j)] == to && order[n - 1 - (off + i)] == from);
    }

    assert(order[c.len() as int] == entry) by {
        assert(sorted[a.len() as int] == b[0]);
    }
    assert forall|i: int| 0 <= i < n implies rank(kinds, entry, #[trigger] order[i]) == if i
        < c.len() {
        2int
    } else if i == c.len() {
        1int
    } else {
        0int
    } by {
        let j = n - 1 - i;
        assert(order[i] == sorted[j]);
        if j < a.len() {
            assert(is_other(a[j]));
        } else if j < a.len() + b.len() {
            assert(is_entry(b[j - a.len()]));
        } else {
            assert(is_declaration(c[j - a.len() - b.len()]));
        }
    }
}

/// The rank of node `x`.
fn rank_of(graph: &SourceGraph, entry: usize, x: usize) -> (r: u8)
    requires
        x < graph_nodes(*graph).len(),
    ensures
        r == rank(node_kinds(*graph), entry, x),
{
    match graph_node(graph, x).kind {
        SourceKind::Declaration => 2,
        SourceKind::Implementation => if x == entry {
            1
        } else {
            0
        },
    }
}

/// Appends to `out` the nodes of `topo` whose rank is `r`.
fn push_rank(topo: &Vec<usize>, graph: &SourceGraph, entry: usize, r: u8, out: &mut Vec<usize>)
    requires
        forall|i: int| 0 <= i < topo.len() ==> topo[i] < graph_nodes(*graph).len(),
    ensures
        final(out)@ == old(out)@ + of_rank(topo@, node_kinds(*graph), entry, r as int),
{
    let ghost kinds = node_kinds(*graph);
    let ghost pred = |x: usize| rank(kinds, entry, x) == r as int;
    let mut i: usize = 0;
    proof {
        reveal(Seq::filter);
        assert(topo@.take(0).filter(pred) == Seq::<usize>::empty());
    }
    while i < topo.len()
        invariant
            i <= topo.len(),
            kinds == node_kinds(*graph),
            pred == |x: usize| rank(kinds, entry, x) == r as int,
            forall|i: int| 0 <= i < topo.len() ==> topo[i] < graph_nodes(*graph).len(),
            out@ == old(out)@ + topo@.take(i as int).filter(pred),
        decreases topo.len() - i,
    {
        let x = topo[i];
        proof {
            assert(topo@.take(i + 1) == topo@.take(i as int).push(x));
            topo@.take(i as int).lemma_filter_push(x, pred);
        }
        if rank_of(graph, entry, x) == r {
            out.push(x);
        }
        i += 1;
    }
    proof {
        assert(topo@.take(topo@.len() as int) == topo@);
    }
}

/// The emission order that belongs to the topological order `topo`.
pub fn arrange(topo: &Vec<usize>, graph: &SourceGraph, entry: usize) -> (order: Vec<usize>)
    requires
        forall|i: int| 0 <= i < topo.len() ==> topo[i] < graph_nodes(*graph).len(),
    ensures
        order@ == dependency_order(topo@, node_kinds(*graph), entry),
{
    let mut sorted: Vec<usize> = Vec::new();
    push_rank(topo, graph, entry, 0, &mut sorted);
    push_rank(topo, graph, entry, 1, &mut sorted);
    push_rank(topo, graph, entry, 2, &mut sorted);
    assert(sorted@ == sorted_by_rank(topo@, node_kinds(*graph), entry));
    let mut order: Vec<usize> = Vec::new();
    let mut i: usize = sorted.len();
    while i > 0
        invariant
            i <= sorted.len(),
            order@.len() == sorted.len() - i,
            forall|k: int| 0 <= k < order@.len() ==> order@[k] == sorted@[sorted.len() - 1 - k],
        decreases i,
    {
        i -= 1;
        order.push(sorted[i]);
    }
    assert(order@ == sorted@.reverse());
    order
}

} // verus!
