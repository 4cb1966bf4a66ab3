//! What holds of every step of the builder: the state stays consistent, no
//! file is loaded twice, and every step brings the end nearer.

use crate::builder::model::{link_spec, BuilderView, FrameView, PhaseView, ProgressView, RequestView};
use crate::graph::{SourceKind, SourceView};
use crate::order::edges_join_declarations;
use crate::parse::source_file::SourceFileView;
use crate::source::{GraphView, SourcesErrorView};
use vstd::prelude::*;

verus! {

/// A step from a consistent builder leads to a consistent builder or to a
/// well-formed graph.
pub proof fn lemma_step_wf(b: BuilderView, reply: Option<Seq<char>>)
    requires
        b.wf(),
    ensures
        match b.step(reply) {
            ProgressView::Pending(next) => next.wf(),
            ProgressView::Finished(graph) => graph.wf(),
            ProgressView::Failed(error) => true,
        },
{
    match b.phase {
        PhaseView::Reading { path, kind } => {},
        PhaseView::Locating { path, kind, file } => {
            if reply.is_some() && b.graph.nodes.len() < u32::MAX {
                let next = b.loaded(path, kind, file, reply.unwrap());
                lemma_loaded_ok(b, path, kind, file, reply.unwrap());
                lemma_advance_wf(next);
            }
        },
        PhaseView::Resolving => {
            if let Some(canonical) = reply {
                if b.files.contains_key(canonical) {
                    let top = b.stack.last();
                    lemma_link(b.graph, top.node, b.files[canonical]);
                    if let Some(graph) = link_spec(b.graph, top.node, b.files[canonical]) {
                        let next = BuilderView { graph, ..b }.bump();
                        lemma_bump_ok(BuilderView { graph, ..b });
                        lemma_advance_wf(next);
                    }
                }
            }
        },
    }
}

/// No file is loaded twice: where a reference resolves to a canonical path
/// that is registered, the step adds no node and asks for no file to be read.
pub proof fn lemma_known_file_is_reused(b: BuilderView, canonical: Seq<char>)
    requires
        b.wf(),
        b.phase == PhaseView::Resolving,
        b.files.contains_key(canonical),
    ensures
        match b.step(Some(canonical)) {
            ProgressView::Pending(next) => next.graph.nodes == b.graph.nodes && next.request()
                == RequestView::Resolve(next.target()),
            ProgressView::Finished(graph) => graph.nodes == b.graph.nodes,
            ProgressView::Failed(error) => error == SourcesErrorView::TooLarge,
        },
{
    let top = b.stack.last();
    lemma_link(b.graph, top.node, b.files[canonical]);
    if let Some(graph) = link_spec(b.graph, top.node, b.files[canonical]) {
        lemma_bump_ok(BuilderView { graph, ..b });
        lemma_advance_wf(BuilderView { graph, ..b }.bump());
    }
}

/// A file is loaded only under a canonical path that is not registered:
/// where a reference resolves to such a path, the step asks for that file to
/// be read, and changes neither the graph nor the registry.
pub proof fn lemma_new_file_is_read(b: BuilderView, canonical: Seq<char>)
    requires
        b.wf(),
        b.phase == PhaseView::Resolving,
        !b.files.contains_key(canonical),
    ensures
        b.step(Some(canonical)) matches ProgressView::Pending(next) && next.graph == b.graph
            && next.files == b.files && next.request() == RequestView::Read(canonical),
{
}

/// A file that is loaded gets one node, the next free one, with the kind
/// that it was asked for, the path under which it was read and the content
/// that its text parses to; and its canonical path is registered.
pub proof fn lemma_loaded_file_is_one_node(b: BuilderView, canonical: Seq<char>)
    requires
        b.wf(),
        b.phase is Locating,
        b.graph.nodes.len() < u32::MAX,
    ensures
        b.phase matches PhaseView::Locating { path, kind, file } && match b.step(
            Some(canonical),
        ) {
            ProgressView::Pending(next) => next.graph.nodes == b.graph.nodes.push(
                SourceView { kind, path, content: file.content },
            ) && next.files.contains_key(canonical),
            ProgressView::Finished(graph) => graph.nodes == b.graph.nodes.push(
                SourceView { kind, path, content: file.content },
            ),
            ProgressView::Failed(error) => error == SourcesErrorView::TooLarge,
        },
{
    match b.phase {
        PhaseView::Locating { path, kind, file } => {
            lemma_loaded_ok(b, path, kind, file, canonical);
            lemma_advance_wf(b.loaded(path, kind, file, canonical));
            lemma_advance_keeps_registry(b.loaded(path, kind, file, canonical), canonical);
        },
        _ => {},
    }
}

/// A canonical path that is registered stays registered: with
/// `lemma_known_file_is_reused`, a file that was loaded once is never read
/// again, under whatever spelling it is referred to.
pub proof fn lemma_registry_grows(b: BuilderView, reply: Option<Seq<char>>, known: Seq<char>)
    requires
        b.wf(),
        b.files.contains_key(known),
    ensures
        b.step(reply) matches ProgressView::Pending(next) ==> next.files.contains_key(known),
{
    match b.phase {
        PhaseView::Reading { path, kind } => {},
        PhaseView::Locating { path, kind, file } => {
            if reply.is_some() && b.graph.nodes.len() < u32::MAX {
                lemma_loaded_ok(b, path, kind, file, reply.unwrap());
                lemma_advance_keeps_registry(b.loaded(path, kind, file, reply.unwrap()), known);
            }
        },
        PhaseView::Resolving => {
            if let Some(canonical) = reply {
                if b.files.contains_key(canonical) {
                    let top = b.stack.last();
                    lemma_link(b.graph, top.node, b.files[canonical]);
                    if let Some(graph) = link_spec(b.graph, top.node, b.files[canonical]) {
                        lemma_bump_ok(BuilderView { graph, ..b });
                        lemma_advance_keeps_registry(BuilderView { graph, ..b }.bump(), known);
                    }
                }
            }
        },
    }
}

/// The number of references that the frames of a stack have yet to finish.
pub open spec fn unfinished(stack: Seq<FrameView>) -> int
    decreases stack.len(),
{
    if stack.len() == 0 {
        0
    } else {
        unfinished(stack.drop_last()) + stack.last().related.len() - stack.last().next
    }
}

/// How far a phase is from the next change of the graph or the stack.
pub open spec fn phase_rank(phase: PhaseView) -> int {
    match phase {
        PhaseView::Resolving => 2,
        PhaseView::Reading { path, kind } => 1,
        PhaseView::Locating { path, kind, file } => 0,
    }
}

/// Whether the builder `next` is nearer to its end than the builder `b`:
/// it has more nodes; or as many nodes and fewer unfinished references; or
/// as many of both and a lower phase.
pub open spec fn nearer(next: BuilderView, b: BuilderView) -> bool {
    ||| next.graph.nodes.len() > b.graph.nodes.len()
    ||| next.graph.nodes.len() == b.graph.nodes.len() && unfinished(next.stack) < unfinished(
        b.stack,
    )
    ||| next.graph.nodes.len() == b.graph.nodes.len() && unfinished(next.stack) == unfinished(
        b.stack,
    ) && phase_rank(next.phase) < phase_rank(b.phase)
}

/// Every step brings the builder nearer to its end. The graph takes no more
/// than `u32::MAX` nodes, a stack has no fewer than no unfinished
/// references, and there are three phases: so no sequence of steps goes on
/// for ever, whatever the answers are.
pub proof fn lemma_step_makes_progress(b: BuilderView, reply: Option<Seq<char>>)
    requires
        b.wf(),
    ensures
        b.step(reply) matches ProgressView::Pending(next) ==> nearer(next, b)
            && next.graph.nodes.len() <= u32::MAX && unfinished(next.stack) >= 0,
{
    lemma_step_wf(b, reply);
    match b.phase {
        PhaseView::Reading { path, kind } => {
            lemma_unfinished_is_natural(b.stack);
        },
        PhaseView::Locating { path, kind, file } => {
            if reply.is_some() && b.graph.nodes.len() < u32::MAX {
                let loaded = b.loaded(path, kind, file, reply.unwrap());
                lemma_loaded_ok(b, path, kind, file, reply.unwrap());
                lemma_advance_wf(loaded);
                lemma_advance_finishes(loaded);
                if let ProgressView::Pending(next) = loaded.advance() {
                    lemma_unfinished_is_natural(next.stack);
                }
            }
        },
        PhaseView::Resolving => {
            lemma_unfinished_is_natural(b.stack);
            if let Some(canonical) = reply {
                if b.files.contains_key(canonical) {
                    let top = b.stack.last();
                    lemma_link(b.graph, top.node, b.files[canonical]);
                    if let Some(graph) = link_spec(b.graph, top.node, b.files[canonical]) {
                        let linked = BuilderView { graph, ..b };
                        lemma_bump_ok(linked);
                        lemma_bump_finishes_one(linked);
                        lemma_advance_wf(linked.bump());
                        lemma_advance_finishes(linked.bump());
                        if let ProgressView::Pending(next) = linked.bump().advance() {
                            lemma_unfinished_is_natural(next.stack);
                        }
                    }
                }
            }
        },
    }
}

/// Linking keeps the nodes, and keeps every edge between declarations.
pub proof fn lemma_link(g: GraphView, from: usize, to: usize)
    requires
        edges_join_declarations(g.edges, g.kinds()),
        from < g.nodes.len(),
        to < g.nodes.len(),
    ensures
        link_spec(g, from, to) matches Some(linked) ==> linked.nodes == g.nodes
            && edges_join_declarations(linked.edges, linked.kinds()),
{
    if let Some(linked) = link_spec(g, from, to) {
        assert(linked.kinds() == g.kinds());
        assert forall|k: int| 0 <= k < linked.edges.len() implies {
            &&& (#[trigger] linked.edges[k]).0 < linked.kinds().len()
            &&& linked.edges[k].1 < linked.kinds().len()
            &&& linked.kinds()[linked.edges[k].0 as int] == SourceKind::Declaration
            &&& linked.kinds()[linked.edges[k].1 as int] == SourceKind::Declaration
        } by {
            if k < g.edges.len() {
                assert(linked.edges[k] == g.edges[k]);
            }
        }
    }
}

/// Moving the top frame on keeps the state consistent, when that frame was
/// at a reference.
pub proof fn lemma_bump_ok(b: BuilderView)
    requires
        b.frames_ok(),
        b.top_is_busy(),
    ensures
        b.bump().frames_ok(),
        b.bump().stack.len() == b.stack.len(),
{
    let next = b.bump();
    assert forall|i: int| 0 <= i < next.stack.len() implies (#[trigger] next.stack[i]).node
        < next.graph.nodes.len() && next.stack[i].next <= next.stack[i].related.len() by {
        assert(b.stack[i].node < b.graph.nodes.len());
    }
    assert forall|i: int| 0 <= i < next.stack.len() - 1 implies (#[trigger] next.stack[i]).next
        < next.stack[i].related.len() by {
        assert(next.stack[i] == b.stack[i]);
    }
}

/// Entering a loaded file keeps the state consistent.
pub proof fn lemma_loaded_ok(
    b: BuilderView,
    path: Seq<char>,
    kind: SourceKind,
    file: SourceFileView,
    canonical: Seq<char>,
)
    requires
        b.frames_ok(),
        b.load_ok(path, kind),
        b.graph.nodes.len() < u32::MAX,
    ensures
        b.loaded(path, kind, file, canonical).frames_ok(),
        b.loaded(path, kind, file, canonical).stack.len() > 0,
{
    let next = b.loaded(path, kind, file, canonical);
    let n = b.graph.nodes.len();
    assert forall|k: int| 0 <= k < next.graph.edges.len() implies {
        &&& (#[trigger] next.graph.edges[k]).0 < next.graph.kinds().len()
        &&& next.graph.edges[k].1 < next.graph.kinds().len()
        &&& next.graph.kinds()[next.graph.edges[k].0 as int] == SourceKind::Declaration
        &&& next.graph.kinds()[next.graph.edges[k].1 as int] == SourceKind::Declaration
    } by {
        let e = b.graph.edges[k];
        assert(b.graph.kinds()[e.0 as int] == SourceKind::Declaration);
        assert(b.graph.kinds()[e.1 as int] == SourceKind::Declaration);
        assert(next.graph.nodes[e.0 as int] == b.graph.nodes[e.0 as int]);
        assert(next.graph.nodes[e.1 as int] == b.graph.nodes[e.1 as int]);
    }
    assert forall|p: Seq<char>| next.files.contains_key(p) implies #[trigger] next.files[p] < n
        + 1 by {
        if p != canonical {
            assert(b.files.contains_key(p));
        }
    }
    assert forall|i: int| 0 <= i < next.stack.len() implies (#[trigger] next.stack[i]).node < n
        + 1 && next.stack[i].next <= next.stack[i].related.len() by {
        if i < b.stack.len() {
            assert(b.stack[i].node < n);
        }
    }
    assert forall|i: int| 0 <= i < next.stack.len() - 1 implies (#[trigger] next.stack[i]).next
        < next.stack[i].related.len() by {
        assert(next.stack[i] == b.stack[i]);
    }
}

/// Taking a finished frame off the stack keeps the state consistent.
pub proof fn lemma_popped_ok(b: BuilderView)
    requires
        b.frames_ok(),
        b.stack.len() > 1,
        b.stack.last().next >= b.stack.last().related.len(),
        link_spec(b.graph, b.stack[b.stack.len() - 2].node, b.stack.last().node).is_some(),
    ensures
        (BuilderView {
            graph: link_spec(b.graph, b.stack[b.stack.len() - 2].node, b.stack.last().node).unwrap(),
            files: b.files.insert(b.graph.nodes[b.stack.last().node as int].path, b.stack.last().node),
            stack: b.stack.drop_last(),
            phase: b.phase,
        }).bump().frames_ok(),
{
    let child = b.stack.last().node;
    let below = b.stack.drop_last();
    assert(below.last() == b.stack[b.stack.len() - 2]);
    lemma_link(b.graph, below.last().node, child);
    let graph = link_spec(b.graph, below.last().node, child).unwrap();
    let next = BuilderView {
        graph,
        files: b.files.insert(b.graph.nodes[child as int].path, child),
        stack: below,
        phase: b.phase,
    }.bump();
    assert forall|i: int| 0 <= i < next.stack.len() implies (#[trigger] next.stack[i]).node
        < next.graph.nodes.len() && next.stack[i].next <= next.stack[i].related.len() by {
        assert(b.stack[i].node < b.graph.nodes.len());
    }
    assert forall|i: int| 0 <= i < next.stack.len() - 1 implies (#[trigger] next.stack[i]).next
        < next.stack[i].related.len() by {
        assert(next.stack[i] == b.stack[i]);
    }
}

/// Going on from a consistent state leads to a consistent builder or to a
/// well-formed graph, or fails for want of room.
pub proof fn lemma_advance_wf(b: BuilderView)
    requires
        b.frames_ok(),
        b.stack.len() > 0,
    ensures
        match b.advance() {
            ProgressView::Pending(next) => next.wf() && next.phase == PhaseView::Resolving
                && next.graph.nodes == b.graph.nodes,
            ProgressView::Finished(graph) => graph.wf() && graph.nodes == b.graph.nodes,
            ProgressView::Failed(error) => error == SourcesErrorView::TooLarge,
        },
    decreases b.stack.len(),
{
    if b.stack.last().next < b.stack.last().related.len() {
    } else if b.stack.len() == 1 {
    } else {
        let child = b.stack.last().node;
        let below = b.stack.drop_last();
        assert(below.last() == b.stack[b.stack.len() - 2]);
        lemma_link(b.graph, below.last().node, child);
        if let Some(graph) = link_spec(b.graph, below.last().node, child) {
            let next = BuilderView {
                graph,
                files: b.files.insert(b.graph.nodes[child as int].path, child),
                stack: below,
                phase: b.phase,
            }.bump();
            assert forall|i: int| 0 <= i < next.stack.len() implies (#[trigger] next.stack[i]).node
                < next.graph.nodes.len() && next.stack[i].next <= next.stack[i].related.len() by {
                assert(b.stack[i].node < b.graph.nodes.len());
            }
            assert forall|i: int| 0 <= i < next.stack.len() - 1 implies (#[trigger] next.stack[i]).next
                < next.stack[i].related.len() by {
                assert(next.stack[i] == b.stack[i]);
            }
            assert(next.frames_ok());
            lemma_advance_wf(next);
        }
    }
}

/// Moving the top frame on finishes one reference.
pub proof fn lemma_bump_finishes_one(b: BuilderView)
    requires
        b.stack.len() > 0,
    ensures
        unfinished(b.bump().stack) == unfinished(b.stack) - 1,
{
    assert(b.bump().stack.drop_last() == b.stack.drop_last());
}

/// No stack of frames that are within their references has a negative
/// number of unfinished references.
pub proof fn lemma_unfinished_is_natural(stack: Seq<FrameView>)
    requires
        forall|i: int| 0 <= i < stack.len() ==> (#[trigger] stack[i]).next <= stack[i].related.len(),
    ensures
        unfinished(stack) >= 0,
    decreases stack.len(),
{
    if stack.len() > 0 {
        assert forall|i: int| 0 <= i < stack.drop_last().len() implies (#[trigger] stack.drop_last()[i]).next
            <= stack.drop_last()[i].related.len() by {
            assert(stack.drop_last()[i] == stack[i]);
        }
        lemma_unfinished_is_natural(stack.drop_last());
    }
}

/// Going on from a consistent state leaves no more references unfinished
/// than there were.
pub proof fn lemma_advance_finishes(b: BuilderView)
    requires
        b.frames_ok(),
        b.stack.len() > 0,
    ensures
        b.advance() matches ProgressView::Pending(next) ==> unfinished(next.stack) <= unfinished(
            b.stack,
        ),
        unfinished(b.stack) >= 0,
    decreases b.stack.len(),
{
    lemma_unfinished_is_natural(b.stack);
    if b.stack.last().next < b.stack.last().related.len() {
    } else if b.stack.len() == 1 {
    } else {
        let child = b.stack.last().node;
        let below = b.stack.drop_last();
        assert(below.last() == b.stack[b.stack.len() - 2]);
        lemma_link(b.graph, below.last().node, child);
        if let Some(graph) = link_spec(b.graph, below.last().node, child) {
            let popped = BuilderView {
                graph,
                files: b.files.insert(b.graph.nodes[child as int].path, child),
                stack: below,
                phase: b.phase,
            };
            lemma_popped_ok(b);
            lemma_bump_finishes_one(popped);
            assert(unfinished(below) <= unfinished(b.stack));
            lemma_advance_finishes(popped.bump());
        }
    }
}

/// Going on keeps every registered path registered.
pub proof fn lemma_advance_keeps_registry(b: BuilderView, known: Seq<char>)
    requires
        b.frames_ok(),
        b.stack.len() > 0,
        b.files.contains_key(known),
    ensures
        b.advance() matches ProgressView::Pending(next) ==> next.files.contains_key(known),
    decreases b.stack.len(),
{
    if b.stack.last().next < b.stack.last().related.len() {
    } else if b.stack.len() == 1 {
    } else {
        let child = b.stack.last().node;
        let below = b.stack.drop_last();
        assert(below.last() == b.stack[b.stack.len() - 2]);
        lemma_link(b.graph, below.last().node, child);
        if let Some(graph) = link_spec(b.graph, below.last().node, child) {
            let popped = BuilderView {
                graph,
                files: b.files.insert(b.graph.nodes[child as int].path, child),
                stack: below,
                phase: b.phase,
            };
            lemma_popped_ok(b);
            lemma_advance_keeps_registry(popped.bump(), known);
        }
    }
}

} // verus!
