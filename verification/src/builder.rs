//! Builds the dependency graph file by file. The builder reads no file
//! itself: it says which file it needs read or which path it needs resolved,
//! and takes the answer in its next step.

pub mod laws;
pub mod model;

use crate::builder::laws::{
    lemma_advance_wf, lemma_bump_ok, lemma_link, lemma_loaded_ok, lemma_popped_ok, lemma_step_wf,
};
use crate::builder::model::{
    initial, link_spec, references_of, BuilderView, FrameView, PhaseView, ProgressView,
    ReferenceView, RequestView,
};
use crate::graph::{
    graph_add_edge, graph_add_node, graph_edge_count, graph_new, graph_node, graph_node_count,
    graph_nodes, Source, SourceGraph, SourceKind,
};
use crate::parse::source_file::SourceFile;
use crate::paths::{path_join, path_parent};
use crate::source::{graph_view, DependencyGraph, SourcesError};
use crate::text::{text_of, texts};
use vstd::hash_map::StringHashMap;
use vstd::prelude::*;
use vstd::string::StringExecFns;

verus! {

/// A path that a file names, and the kind that the named file gets if it is
/// new to the graph.
pub struct Reference {
    pub kind: SourceKind,
    pub path: String,
}

impl View for Reference {
    type V = ReferenceView;

    open spec fn view(&self) -> ReferenceView {
        ReferenceView { kind: self.kind, path: self.path@ }
    }
}

/// A file whose references are being followed.
pub struct Frame {
    /// The file's node.
    pub node: usize,
    /// The directory against which the file's references are resolved.
    pub base: String,
    /// The file's references: first its includes, then its implementations.
    pub related: Vec<Reference>,
    /// How many of the references have been followed.
    pub next: usize,
}

/// The views of a sequence of references.
pub open spec fn reference_views(s: Seq<Reference>) -> Seq<ReferenceView> {
    Seq::new(s.len(), |i: int| s[i]@)
}

impl View for Frame {
    type V = FrameView;

    open spec fn view(&self) -> FrameView {
        FrameView {
            node: self.node,
            base: self.base@,
            related: reference_views(self.related@),
            next: self.next as nat,
        }
    }
}

/// The views of a stack of frames.
pub open spec fn frame_views(s: Seq<Frame>) -> Seq<FrameView> {
    Seq::new(s.len(), |i: int| s[i]@)
}

/// What the builder waits for.
pub enum Phase {
    /// The text of the file at `path`.
    Reading { path: String, kind: SourceKind },
    /// The canonical path of the file at `path`, whose text is `file`.
    Locating { path: String, kind: SourceKind, file: SourceFile },
    /// The canonical path of the reference that the top frame is at.
    Resolving,
}

impl View for Phase {
    type V = PhaseView;

    open spec fn view(&self) -> PhaseView {
        match self {
            Phase::Reading { path, kind } => PhaseView::Reading { path: path@, kind: *kind },
            Phase::Locating { path, kind, file } => PhaseView::Locating {
                path: path@,
                kind: *kind,
                file: file@,
            },
            Phase::Resolving => PhaseView::Resolving,
        }
    }
}

/// What the caller is asked to do before the next step.
#[derive(Debug, Clone, PartialEq, Eq)]
pub enum Request {
    /// Read the file at this path, and answer with its text.
    Read(String),
    /// Resolve this path to its canonical form, and answer with that.
    Resolve(String),
}

impl View for Request {
    type V = RequestView;

    open spec fn view(&self) -> RequestView {
        match self {
            Request::Read(path) => RequestView::Read(path@),
            Request::Resolve(path) => RequestView::Resolve(path@),
        }
    }
}

/// Builds the dependency graph of an entry file, one answer at a time.
pub struct SourceGraphBuilder {
    graph: SourceGraph,
    files: StringHashMap<usize>,
    stack: Vec<Frame>,
    phase: Phase,
}

impl View for SourceGraphBuilder {
    type V = BuilderView;

    closed spec fn view(&self) -> BuilderView {
        BuilderView {
            graph: graph_view(self.graph),
            files: self.files@,
            stack: frame_views(self.stack@),
            phase: self.phase@,
        }
    }
}

/// Where a step leads.
pub enum Progress {
    /// The builder has a new request.
    Pending(SourceGraphBuilder),
    /// Every file is loaded.
    Finished(DependencyGraph),
    /// The graph cannot be built.
    Failed(SourcesError),
}

impl View for Progress {
    type V = ProgressView;

    open spec fn view(&self) -> ProgressView {
        match self {
            Progress::Pending(builder) => ProgressView::Pending(builder@),
            Progress::Finished(graph) => ProgressView::Finished(graph@),
            Progress::Failed(error) => ProgressView::Failed(error@),
        }
    }
}

impl SourceGraphBuilder {
    /// The builder is consistent.
    #[verifier::type_invariant]
    pub open spec fn wf(&self) -> bool {
        self@.wf()
    }

    /// A builder for the graph of the file at `entry`.
    pub fn new(entry: String) -> (builder: Self)
        ensures
            builder@ == initial(entry@),
            builder.wf(),
    {
        let builder = SourceGraphBuilder {
            graph: graph_new(),
            files: StringHashMap::new(),
            stack: Vec::new(),
            phase: Phase::Reading { path: entry, kind: SourceKind::Implementation },
        };
        proof {
            assert(graph_view(builder.graph).nodes =~= Seq::empty());
            assert(frame_views(builder.stack@) =~= Seq::empty());
        }
        builder
    }

    /// What the caller is to do before the next step.
    pub fn request(&self) -> (request: Request)
        ensures
            request@ == self@.request(),
    {
        proof {
            use_type_invariant(self);
        }
        match &self.phase {
            Phase::Reading { path, kind } => Request::Read(path.clone()),
            Phase::Locating { path, kind, file } => Request::Resolve(path.clone()),
            Phase::Resolving => {
                let top = &self.stack[self.stack.len() - 1];
                Request::Resolve(
                    path_join(top.base.as_str(), top.related[top.next].path.as_str()),
                )
            },
        }
    }

    /// Takes the answer to the builder's request: the text of the file that
    /// was to be read or the canonical form of the path that was to be
    /// resolved, or `None` where that failed.
    pub fn step(self, reply: Option<String>) -> (progress: Progress)
        ensures
            progress@ == self@.step(text_of(reply)),
            progress matches Progress::Pending(next) ==> next.wf(),
            progress matches Progress::Finished(graph) ==> graph.wf(),
    {
        proof {
            use_type_invariant(&self);
            lemma_step_wf(self@, text_of(reply));
        }
        let SourceGraphBuilder { mut graph, mut files, mut stack, phase } = self;
        match phase {
            Phase::Reading { path, kind } => match reply {
                None => Progress::Failed(SourcesError::Unreadable { path }),
                Some(text) => match SourceFile::try_parse(text.as_str()) {
                    Err(error) => Progress::Failed(SourcesError::Malformed { path, error }),
                    Ok(file) => Progress::Pending(
                        SourceGraphBuilder {
                            graph,
                            files,
                            stack,
                            phase: Phase::Locating { path, kind, file },
                        },
                    ),
                },
            },
            Phase::Locating { path, kind, file } => match reply {
                None => Progress::Failed(SourcesError::Unresolvable { path }),
                Some(canonical) => {
                    if graph_node_count(&graph) >= u32::MAX as usize {
                        return Progress::Failed(SourcesError::TooLarge);
                    }
                    let ghost before = self@;
                    let base = match path_parent(path.as_str()) {
                        Some(dir) => dir,
                        None => String::from_str("."),
                    };
                    let related = references(&file.includes, &file.impl_files);
                    let node = graph_add_node(
                        &mut graph,
                        Source { kind, path, content: file.content },
                    );
                    files.insert(canonical, node);
                    stack.push(Frame { node, base, related, next: 0 });
                    proof {
                        let next = before.loaded(path@, kind, file@, canonical@);
                        lemma_loaded_ok(before, path@, kind, file@, canonical@);
                        assert(graph_view(graph).nodes == next.graph.nodes);
                        assert(frame_views(stack@) == next.stack);
                    }
                    advance(graph, files, stack)
                },
            },
            Phase::Resolving => {
                let top = stack.pop().unwrap();
                assert(top@ == self@.stack.last());
                assert(top.next < top.related.len());
                match reply {
                    None => Progress::Failed(
                        SourcesError::Unresolvable {
                            path: path_join(
                                top.base.as_str(),
                                top.related[top.next].path.as_str(),
                            ),
                        },
                    ),
                    Some(canonical) => match files.get(canonical.as_str()) {
                        Some(found) => {
                            let ghost before = graph_view(graph);
                            proof {
                                lemma_link(before, top.node, *found);
                            }
                            if !link(&mut graph, top.node, *found) {
                                return Progress::Failed(SourcesError::TooLarge);
                            }
                            stack.push(Frame { next: top.next + 1, ..top });
                            proof {
                                let linked = BuilderView { graph: graph_view(graph), ..self@ };
                                lemma_bump_ok(linked);
                                assert(frame_views(stack@) == linked.bump().stack);
                            }
                            advance(graph, files, stack)
                        },
                        None => {
                            let kind = top.related[top.next].kind;
                            stack.push(top);
                            assert(frame_views(stack@) == self@.stack);
                            Progress::Pending(
                                SourceGraphBuilder {
                                    graph,
                                    files,
                                    stack,
                                    phase: Phase::Reading { path: canonical, kind },
                                },
                            )
                        },
                    },
                }
            },
        }
    }
}

/// The references of a file with the given includes and implementation
/// files.
fn references(includes: &Vec<String>, impl_files: &Vec<String>) -> (related: Vec<Reference>)
    ensures
        reference_views(related@) == references_of(texts(includes@), texts(impl_files@)),
{
    let mut related: Vec<Reference> = Vec::new();
    let mut i: usize = 0;
    while i < includes.len()
        invariant
            i <= includes.len(),
            related.len() == i,
            forall|k: int|
                0 <= k < i ==> (#[trigger] related[k])@ == (ReferenceView {
                    kind: SourceKind::Declaration,
                    path: includes[k]@,
                }),
        decreases includes.len() - i,
    {
        related.push(Reference { kind: SourceKind::Declaration, path: includes[i].clone() });
        i += 1;
    }
    let mut j: usize = 0;
    while j < impl_files.len()
        invariant
            j <= impl_files.len(),
            related.len() == includes.len() + j,
            forall|k: int|
                0 <= k < includes.len() ==> (#[trigger] related[k])@ == (ReferenceView {
                    kind: SourceKind::Declaration,
                    path: includes[k]@,
                }),
            forall|k: int|
                0 <= k < j ==> (#[trigger] related[includes.len() + k])@ == (ReferenceView {
                    kind: SourceKind::Implementation,
                    path: impl_files[k]@,
                }),
        decreases impl_files.len() - j,
    {
        related.push(Reference { kind: SourceKind::Implementation, path: impl_files[j].clone() });
        j += 1;
    }
    proof {
        let want = references_of(texts(includes@), texts(impl_files@));
        assert(reference_views(related@).len() == want.len());
        assert forall|k: int| 0 <= k < want.len() implies reference_views(related@)[k]
            == want[k] by {
            if k >= includes.len() {
                assert(related[includes.len() + (k - includes.len())]@ == want[k]);
            }
        }
    }
    related
}

/// Records that node `from` met its reference `to`. Returns whether the
/// graph had room for the edge that this may take.
fn link(graph: &mut SourceGraph, from: usize, to: usize) -> (done: bool)
    requires
        from < graph_nodes(*old(graph)).len(),
        to < graph_nodes(*old(graph)).len(),
    ensures
        match link_spec(graph_view(*old(graph)), from, to) {
            Some(linked) => done && graph_view(*final(graph)) == linked,
            None => !done && *final(graph) == *old(graph),
        },
{
    let both = match (graph_node(graph, from).kind, graph_node(graph, to).kind) {
        (SourceKind::Declaration, SourceKind::Declaration) => true,
        _ => false,
    };
    if both {
        if graph_edge_count(graph) >= u32::MAX as usize {
            return false;
        }
        graph_add_edge(graph, from, to);
    }
    true
}

/// Goes on after a reference of the top frame is finished.
#[verifier::loop_isolation(false)]
fn advance(graph: SourceGraph, files: StringHashMap<usize>, stack: Vec<Frame>) -> (progress:
    Progress)
    requires
        stack.len() > 0,
        (BuilderView {
            graph: graph_view(graph),
            files: files@,
            stack: frame_views(stack@),
            phase: PhaseView::Resolving,
        }).frames_ok(),
    ensures
        progress@ == (BuilderView {
            graph: graph_view(graph),
            files: files@,
            stack: frame_views(stack@),
            phase: PhaseView::Resolving,
        }).advance(),
{
    let ghost start = BuilderView {
        graph: graph_view(graph),
        files: files@,
        stack: frame_views(stack@),
        phase: PhaseView::Resolving,
    };
    let mut graph = graph;
    let mut files = files;
    let mut stack = stack;
    loop
        invariant
            stack.len() > 0,
            (BuilderView {
                graph: graph_view(graph),
                files: files@,
                stack: frame_views(stack@),
                phase: PhaseView::Resolving,
            }).frames_ok(),
            (BuilderView {
                graph: graph_view(graph),
                files: files@,
                stack: frame_views(stack@),
                phase: PhaseView::Resolving,
            }).advance() == start.advance(),
        decreases stack.len(),
    {
        let ghost here = BuilderView {
            graph: graph_view(graph),
            files: files@,
            stack: frame_views(stack@),
            phase: PhaseView::Resolving,
        };
        proof {
            lemma_advance_wf(here);
        }
        let top = stack.pop().unwrap();
        assert(top@ == here.stack.last());
        if top.next < top.related.len() {
            stack.push(top);
            assert(frame_views(stack@) == here.stack);
            return Progress::Pending(
                SourceGraphBuilder { graph, files, stack, phase: Phase::Resolving },
            );
        }
        if stack.len() == 0 {
            return Progress::Finished(DependencyGraph::from_graph(graph));
        }
        let child = top.node;
        let path = graph_node(&graph, child).path.clone();
        let parent = stack.pop().unwrap();
        assert(parent@ == here.stack[here.stack.len() - 2]);
        assert(parent.next < parent.related.len());
        proof {
            lemma_link(here.graph, parent.node, child);
        }
        if !link(&mut graph, parent.node, child) {
            return Progress::Failed(SourcesError::TooLarge);
        }
        files.insert(path, child);
        stack.push(Frame { next: parent.next + 1, ..parent });
        proof {
            let next = BuilderView {
                graph: graph_view(graph),
                files: here.files.insert(here.graph.nodes[child as int].path, child),
                stack: here.stack.drop_last(),
                phase: here.phase,
            };
            assert(next.stack.drop_last() == here.stack.drop_last().drop_last());
            assert(frame_views(stack@) == next.bump().stack);
            assert(here.advance() == next.bump().advance());
            lemma_popped_ok(here);
        }
    }
}

} // verus!
