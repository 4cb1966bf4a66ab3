//! The builder as a mathematical value, and what a step makes of it.

use crate::graph::{SourceKind, SourceView};
use crate::order::edges_join_declarations;
use crate::parse::source_file;
use crate::parse::source_file::SourceFileView;
use crate::paths::{joined, parent_of};
use crate::source::{GraphView, SourcesErrorView};
use vstd::prelude::*;

verus! {

/// A reference as a mathematical value.
pub struct ReferenceView {
    pub kind: SourceKind,
    pub path: Seq<char>,
}

/// A frame as a mathematical value.
pub struct FrameView {
    pub node: usize,
    pub base: Seq<char>,
    pub related: Seq<ReferenceView>,
    pub next: nat,
}

/// A phase as a mathematical value.
pub enum PhaseView {
    Reading { path: Seq<char>, kind: SourceKind },
    Locating { path: Seq<char>, kind: SourceKind, file: SourceFileView },
    Resolving,
}

/// A request as a mathematical value.
pub enum RequestView {
    Read(Seq<char>),
    Resolve(Seq<char>),
}

/// The builder as a mathematical value.
pub struct BuilderView {
    /// The graph so far.
    pub graph: GraphView,
    /// The node of every canonical path met so far.
    pub files: Map<Seq<char>, usize>,
    /// The files whose references are being followed, the entry file first.
    pub stack: Seq<FrameView>,
    pub phase: PhaseView,
}

/// The directory against which the references of the file at `path` are
/// resolved: the path's parent, or `.` where it has none.
pub open spec fn base_of(path: Seq<char>) -> Seq<char> {
    match parent_of(path) {
        Some(dir) => dir,
        None => "."@,
    }
}

/// The references of a file: its includes as declarations, then its
/// implementation files as implementations.
pub open spec fn references_of(includes: Seq<Seq<char>>, impl_files: Seq<Seq<char>>) -> Seq<
    ReferenceView,
> {
    Seq::new(
        includes.len(),
        |i: int| ReferenceView { kind: SourceKind::Declaration, path: includes[i] },
    ) + Seq::new(
        impl_files.len(),
        |i: int| ReferenceView { kind: SourceKind::Implementation, path: impl_files[i] },
    )
}

/// The graph after node `from` has met its reference `to`. The reference
/// becomes an edge only where both are declarations. `None` where the graph
/// has no room for the edge.
pub open spec fn link_spec(g: GraphView, from: usize, to: usize) -> Option<GraphView> {
    if g.nodes[from as int].kind == SourceKind::Declaration && g.nodes[to as int].kind
        == SourceKind::Declaration {
        if g.edges.len() >= u32::MAX {
            None
        } else {
            Some(GraphView { edges: g.edges.push((from, to)), ..g })
        }
    } else {
        Some(g)
    }
}

impl BuilderView {
    /// The graph, the registry and the stack fit together: the entry file is
    /// node 0 and an implementation, every edge joins two declarations,
    /// every registered path and every frame names a node, and every frame
    /// but the top one is at a reference that it has yet to finish.
    pub open spec fn frames_ok(self) -> bool {
        let n = self.graph.nodes.len();
        &&& n <= u32::MAX
        &&& edges_join_declarations(self.graph.edges, self.graph.kinds())
        &&& n > 0 ==> self.graph.nodes[0].kind == SourceKind::Implementation
        &&& n == 0 <==> self.stack.len() == 0
        &&& forall|p: Seq<char>| self.files.contains_key(p) ==> #[trigger] self.files[p] < n
        &&& forall|i: int|
            0 <= i < self.stack.len() ==> (#[trigger] self.stack[i]).node < n && self.stack[i].next
                <= self.stack[i].related.len()
        &&& forall|i: int|
            0 <= i < self.stack.len() - 1 ==> (#[trigger] self.stack[i]).next
                < self.stack[i].related.len()
    }

    /// The top frame is at a reference that it has yet to finish.
    pub open spec fn top_is_busy(self) -> bool {
        self.stack.len() > 0 && self.stack.last().next < self.stack.last().related.len()
    }

    /// The builder is consistent. On top of `frames_ok`: while a reference
    /// is resolved, the top frame is at it; while a file is loaded, it is
    /// the entry file, as an implementation and into an empty graph, or a
    /// file that the top frame refers to and whose path is not registered.
    pub open spec fn wf(self) -> bool {
        &&& self.frames_ok()
        &&& match self.phase {
            PhaseView::Resolving => self.top_is_busy(),
            PhaseView::Reading { path, kind } => self.load_ok(path, kind),
            PhaseView::Locating { path, kind, file } => self.load_ok(path, kind),
        }
    }

    /// The conditions under which the file at `path` is loaded.
    pub open spec fn load_ok(self, path: Seq<char>, kind: SourceKind) -> bool {
        if self.stack.len() == 0 {
            kind == SourceKind::Implementation
        } else {
            self.top_is_busy() && !self.files.contains_key(path)
        }
    }

    /// The path that the top frame's current reference resolves from.
    pub open spec fn target(self) -> Seq<char> {
        let top = self.stack.last();
        joined(top.base, top.related[top.next as int].path)
    }

    /// What the builder waits for.
    pub open spec fn request(self) -> RequestView {
        match self.phase {
            PhaseView::Reading { path, kind } => RequestView::Read(path),
            PhaseView::Locating { path, kind, file } => RequestView::Resolve(path),
            PhaseView::Resolving => RequestView::Resolve(self.target()),
        }
    }

    /// The file at `path` entered the graph: it has a node, which is
    /// registered under the file's canonical path, and a frame on top of the
    /// stack, which is at the first of the file's references.
    pub open spec fn loaded(
        self,
        path: Seq<char>,
        kind: SourceKind,
        file: SourceFileView,
        canonical: Seq<char>,
    ) -> BuilderView {
        let node = self.graph.nodes.len() as usize;
        BuilderView {
            graph: GraphView {
                nodes: self.graph.nodes.push(SourceView { kind, path, content: file.content }),
                ..self.graph
            },
            files: self.files.insert(canonical, node),
            stack: self.stack.push(
                FrameView {
                    node,
                    base: base_of(path),
                    related: references_of(file.includes, file.impl_files),
                    next: 0,
                },
            ),
            phase: PhaseView::Resolving,
        }
    }

    /// The top frame moved on to its next reference.
    pub open spec fn bump(self) -> BuilderView {
        let top = self.stack.last();
        BuilderView {
            stack: self.stack.drop_last().push(FrameView { next: top.next + 1, ..top }),
            ..self
        }
    }

    /// Goes on after a reference of the top frame is finished. While the top
    /// frame has no reference left, it is taken off the stack; its node is
    /// registered under its own path and linked to the frame below, which
    /// moves on to its next reference. The graph is finished when the entry
    /// file's frame is taken off.
    pub open spec fn advance(self) -> ProgressView
        decreases self.stack.len(),
    {
        if self.stack.len() == 0 {
            ProgressView::Finished(self.graph)
        } else if self.stack.last().next < self.stack.last().related.len() {
            ProgressView::Pending(BuilderView { phase: PhaseView::Resolving, ..self })
        } else if self.stack.len() == 1 {
            ProgressView::Finished(self.graph)
        } else {
            let child = self.stack.last().node;
            let below = self.stack.drop_last();
            match link_spec(self.graph, below.last().node, child) {
                None => ProgressView::Failed(SourcesErrorView::TooLarge),
                Some(graph) => BuilderView {
                    graph,
                    files: self.files.insert(self.graph.nodes[child as int].path, child),
                    stack: below,
                    phase: self.phase,
                }.bump().advance(),
            }
        }
    }

    /// The step that answers the builder's request with `reply`: the text
    /// that was read or the canonical path, or `None` where the file system
    /// refused.
    pub open spec fn step(self, reply: Option<Seq<char>>) -> ProgressView {
        match self.phase {
            PhaseView::Reading { path, kind } => match reply {
                None => ProgressView::Failed(SourcesErrorView::Unreadable { path }),
                Some(text) => match source_file::parse_spec(text) {
                    Err(error) => ProgressView::Failed(SourcesErrorView::Malformed { path, error }),
                    Ok(file) => ProgressView::Pending(
                        BuilderView { phase: PhaseView::Locating { path, kind, file }, ..self },
                    ),
                },
            },
            PhaseView::Locating { path, kind, file } => match reply {
                None => ProgressView::Failed(SourcesErrorView::Unresolvable { path }),
                Some(canonical) => if self.graph.nodes.len() >= u32::MAX {
                    ProgressView::Failed(SourcesErrorView::TooLarge)
                } else {
                    self.loaded(path, kind, file, canonical).advance()
                },
            },
            PhaseView::Resolving => match reply {
                None => ProgressView::Failed(
                    SourcesErrorView::Unresolvable { path: self.target() },
                ),
                Some(canonical) => if self.files.contains_key(canonical) {
                    match link_spec(self.graph, self.stack.last().node, self.files[canonical]) {
                        None => ProgressView::Failed(SourcesErrorView::TooLarge),
                        Some(graph) => BuilderView { graph, ..self }.bump().advance(),
                    }
                } else {
                    let top = self.stack.last();
                    ProgressView::Pending(
                        BuilderView {
                            phase: PhaseView::Reading {
                                path: canonical,
                                kind: top.related[top.next as int].kind,
                            },
                            ..self
                        },
                    )
                },
            },
        }
    }
}

/// Where a step leads, as a mathematical value.
pub enum ProgressView {
    Pending(BuilderView),
    Finished(GraphView),
    Failed(SourcesErrorView),
}

/// The builder before its first step: it waits for the text of the entry
/// file, which will be an implementation.
pub open spec fn initial(entry: Seq<char>) -> BuilderView {
    BuilderView {
        graph: GraphView { nodes: Seq::empty(), edges: Seq::empty() },
        files: Map::empty(),
        stack: Seq::empty(),
        phase: PhaseView::Reading { path: entry, kind: SourceKind::Implementation },
    }
}

} // verus!
