use cbundl::builder::{Progress, Request, SourceGraphBuilder};
use cbundl::graph::SourceKind;
use cbundl::parse::directive::ParseDirectiveError;
use cbundl::parse::source_file::ParseSourceError;
use cbundl::source::{Sources, SourcesError};
use std::collections::HashMap;

/// Files held in memory, under absolute paths with `/` between components.
struct MemoryFiles {
    files: HashMap<String, String>,
    reads: Vec<String>,
}

impl MemoryFiles {
    fn new(files: &[(&str, &str)]) -> Self {
        MemoryFiles {
            files: files.iter().map(|(path, text)| (path.to_string(), text.to_string())).collect(),
            reads: Vec::new(),
        }
    }

    fn read(&mut self, path: &str) -> Option<String> {
        self.reads.push(path.to_string());
        let canonical = self.canonicalize(path)?;
        self.files.get(&canonical).cloned()
    }

    fn canonicalize(&self, path: &str) -> Option<String> {
        let mut parts: Vec<&str> = Vec::new();
        for part in path.split('/') {
            match part {
                "" | "." => {}
                ".." => {
                    parts.pop();
                }
                other => parts.push(other),
            }
        }
        let canonical = format!("/{}", parts.join("/"));
        if self.files.contains_key(&canonical) {
            Some(canonical)
        } else {
            None
        }
    }
}

fn resolve(files: &mut MemoryFiles, entry: &str) -> Result<Sources, SourcesError> {
    let mut builder = SourceGraphBuilder::new(entry.to_string());
    loop {
        let reply = match builder.request() {
            Request::Read(path) => files.read(&path),
            Request::Resolve(path) => files.canonicalize(&path),
        };
        match builder.step(reply) {
            Progress::Pending(next) => builder = next,
            Progress::Finished(graph) => return Sources::new(graph),
            Progress::Failed(error) => return Err(error),
        }
    }
}

fn order_of(sources: &Sources) -> Vec<(SourceKind, String)> {
    let mut out = Vec::new();
    let mut it = sources.dependency_order();
    while let Some(source) = it.next() {
        out.push((source.kind, source.path.clone()));
    }
    out
}

fn paths_of(sources: &Sources) -> Vec<String> {
    order_of(sources).into_iter().map(|(_, path)| path).collect()
}

#[test]
fn single_file_is_its_own_bundle_order() {
    let mut files = MemoryFiles::new(&[("/p/main.c", "int main(void) { return 0; }\n")]);
    let sources = resolve(&mut files, "/p/main.c").unwrap();
    assert_eq!(sources.len(), 1);
    assert_eq!(
        order_of(&sources),
        vec![(SourceKind::Implementation, "/p/main.c".to_string())]
    );
    let mut it = sources.dependency_order();
    assert_eq!(it.len(), 1);
    assert_eq!(it.size_hint(), (1, Some(1)));
    let first = it.next().unwrap();
    assert_eq!(first.content, "int main(void) { return 0; }\n");
    assert_eq!(it.len(), 0);
    assert!(it.next().is_none());
    assert!(it.next().is_none());
}

#[test]
fn entry_path_is_kept_as_given() {
    let mut files = MemoryFiles::new(&[("/p/main.c", "x\n")]);
    let sources = resolve(&mut files, "/p/./sub/../main.c").unwrap();
    assert_eq!(paths_of(&sources), vec!["/p/./sub/../main.c".to_string()]);
    assert_eq!(files.reads, vec!["/p/./sub/../main.c".to_string()]);
}

#[test]
fn same_file_under_two_spellings_is_one_node_and_one_read() {
    let mut files = MemoryFiles::new(&[
        (
            "/p/main.c",
            "// cbundl: bundle\n#include \"a.h\"\n// cbundl: bundle\n#include \"./sub/../a.h\"\nint main;\n",
        ),
        ("/p/a.h", "void a(void);\n"),
    ]);
    let sources = resolve(&mut files, "/p/main.c").unwrap();
    assert_eq!(sources.len(), 2);
    assert_eq!(
        paths_of(&sources),
        vec!["/p/a.h".to_string(), "/p/main.c".to_string()]
    );
    assert_eq!(files.reads, vec!["/p/main.c".to_string(), "/p/a.h".to_string()]);
}

#[test]
fn dependencies_come_before_dependents() {
    let mut files = MemoryFiles::new(&[
        ("/p/main.c", "// cbundl: bundle\n#include \"a.h\"\nint main;\n"),
        ("/p/a.h", "// cbundl: bundle\n#include \"b.h\"\nvoid a(void);\n"),
        ("/p/b.h", "// cbundl: bundle\n#include \"c.h\"\nvoid b(void);\n"),
        ("/p/c.h", "void c(void);\n"),
    ]);
    let sources = resolve(&mut files, "/p/main.c").unwrap();
    assert_eq!(
        order_of(&sources),
        vec![
            (SourceKind::Declaration, "/p/c.h".to_string()),
            (SourceKind::Declaration, "/p/b.h".to_string()),
            (SourceKind::Declaration, "/p/a.h".to_string()),
            (SourceKind::Implementation, "/p/main.c".to_string()),
        ]
    );
}

#[test]
fn entry_is_last_where_nothing_else_is_an_implementation() {
    let mut files = MemoryFiles::new(&[
        (
            "/p/main.c",
            "// cbundl: bundle\n#include \"a.h\"\n// cbundl: bundle\n#include \"b.h\"\n",
        ),
        ("/p/a.h", "void a(void);\n"),
        ("/p/b.h", "// cbundl: bundle\n#include \"a.h\"\n"),
    ]);
    let sources = resolve(&mut files, "/p/main.c").unwrap();
    let paths = paths_of(&sources);
    assert_eq!(paths.len(), 3);
    assert_eq!(paths.last().unwrap(), "/p/main.c");
    let a = paths.iter().position(|p| p == "/p/a.h").unwrap();
    let b = paths.iter().position(|p| p == "/p/b.h").unwrap();
    assert!(a < b);
}

#[test]
fn implementations_follow_the_entry_file() {
    let mut files = MemoryFiles::new(&[
        ("/p/main.c", "// cbundl: bundle\n#include \"a.h\"\nint main;\n"),
        ("/p/a.h", "void a(void);\n// cbundl: impl=a.c\n"),
        ("/p/a.c", "// cbundl: bundle\n#include \"a.h\"\nvoid a(void) {}\n"),
    ]);
    let sources = resolve(&mut files, "/p/main.c").unwrap();
    assert_eq!(
        order_of(&sources),
        vec![
            (SourceKind::Declaration, "/p/a.h".to_string()),
            (SourceKind::Implementation, "/p/main.c".to_string()),
            (SourceKind::Implementation, "/p/a.c".to_string()),
        ]
    );
}

#[test]
fn implementations_may_use_each_others_headers() {
    let mut files = MemoryFiles::new(&[
        (
            "/p/main.c",
            "// cbundl: bundle\n#include \"a.h\"\n// cbundl: bundle\n#include \"b.h\"\nint main;\n",
        ),
        ("/p/a.h", "void a(void);\n// cbundl: impl=a.c\n"),
        ("/p/a.c", "// cbundl: bundle\n#include \"b.h\"\nvoid a(void) { b(); }\n"),
        ("/p/b.h", "void b(void);\n// cbundl: impl=b.c\n"),
        ("/p/b.c", "// cbundl: bundle\n#include \"a.h\"\nvoid b(void) { a(); }\n"),
    ]);
    let sources = resolve(&mut files, "/p/main.c").unwrap();
    let mut paths = paths_of(&sources);
    assert_eq!(paths.len(), 5);
    assert_eq!(paths[2], "/p/main.c");
    paths.sort();
    assert_eq!(
        paths,
        vec![
            "/p/a.c".to_string(),
            "/p/a.h".to_string(),
            "/p/b.c".to_string(),
            "/p/b.h".to_string(),
            "/p/main.c".to_string(),
        ]
    );
    let mut reads = files.reads.clone();
    reads.sort();
    assert_eq!(reads, paths);
}

#[test]
fn headers_that_bundle_each_other_are_a_cycle_even_with_implementations() {
    let mut files = MemoryFiles::new(&[
        (
            "/p/main.c",
            "// cbundl: bundle\n#include \"a.h\"\n// cbundl: bundle\n#include \"b.h\"\nint main;\n",
        ),
        ("/p/a.h", "// cbundl: bundle\n#include \"b.h\"\nvoid a(void);\n// cbundl: impl=a.c\n"),
        ("/p/a.c", "// cbundl: bundle\n#include \"b.h\"\nvoid a(void) { b(); }\n"),
        ("/p/b.h", "// cbundl: bundle\n#include \"a.h\"\nvoid b(void);\n// cbundl: impl=b.c\n"),
        ("/p/b.c", "// cbundl: bundle\n#include \"a.h\"\nvoid b(void) { a(); }\n"),
    ]);
    assert_eq!(
        resolve(&mut files, "/p/main.c").err(),
        Some(SourcesError::CircularDependency)
    );
}

#[test]
fn headers_that_bundle_each_other_are_a_cycle() {
    let mut files = MemoryFiles::new(&[
        ("/p/main.c", "// cbundl: bundle\n#include \"x.h\"\n"),
        ("/p/x.h", "// cbundl: bundle\n#include \"y.h\"\n"),
        ("/p/y.h", "// cbundl: bundle\n#include \"x.h\"\n"),
    ]);
    assert_eq!(
        resolve(&mut files, "/p/main.c").err(),
        Some(SourcesError::CircularDependency)
    );
}

#[test]
fn header_that_bundles_itself_is_a_cycle() {
    let mut files = MemoryFiles::new(&[
        ("/p/main.c", "// cbundl: bundle\n#include \"x.h\"\n"),
        ("/p/x.h", "// cbundl: bundle\n#include \"x.h\"\n"),
    ]);
    assert_eq!(
        resolve(&mut files, "/p/main.c").err(),
        Some(SourcesError::CircularDependency)
    );
}

#[test]
fn header_that_bundles_the_entry_file_is_no_cycle() {
    let mut files = MemoryFiles::new(&[
        ("/p/main.c", "// cbundl: bundle\n#include \"x.h\"\n"),
        ("/p/x.h", "// cbundl: bundle\n#include \"main.c\"\n"),
    ]);
    let sources = resolve(&mut files, "/p/main.c").unwrap();
    assert_eq!(
        paths_of(&sources),
        vec!["/p/x.h".to_string(), "/p/main.c".to_string()]
    );
}

#[test]
fn unreadable_entry_is_reported() {
    let mut files = MemoryFiles::new(&[]);
    assert_eq!(
        resolve(&mut files, "/p/main.c").err(),
        Some(SourcesError::Unreadable { path: "/p/main.c".to_string() })
    );
}

#[test]
fn missing_reference_is_reported_with_its_joined_path() {
    let mut files = MemoryFiles::new(&[("/p/main.c", "// cbundl: impl=gone.c\n")]);
    assert_eq!(
        resolve(&mut files, "/p/main.c").err(),
        Some(SourcesError::Unresolvable { path: "/p/gone.c".to_string() })
    );
}

#[test]
fn parse_error_is_reported_with_its_file() {
    let mut files = MemoryFiles::new(&[
        ("/p/main.c", "// cbundl: bundle\n#include \"a.h\"\n"),
        ("/p/a.h", "void a(void);\n\n// cbundl: impl a.c\n"),
    ]);
    assert_eq!(
        resolve(&mut files, "/p/main.c").err(),
        Some(SourcesError::Malformed {
            path: "/p/a.h".to_string(),
            error: ParseSourceError::InvalidDirective {
                line: 3,
                error: ParseDirectiveError::InvalidSyntax("expected '=' after 'impl' keyword"),
            },
        })
    );
}

#[test]
fn references_resolve_against_the_referring_file() {
    let mut files = MemoryFiles::new(&[
        ("/p/main.c", "// cbundl: bundle\n#include \"lib/a.h\"\n"),
        ("/p/lib/a.h", "// cbundl: bundle\n#include \"b.h\"\n// cbundl: impl=../src/a.c\n"),
        ("/p/lib/b.h", "void b(void);\n"),
        ("/p/src/a.c", "void a(void) {}\n"),
    ]);
    let sources = resolve(&mut files, "/p/main.c").unwrap();
    assert_eq!(
        paths_of(&sources),
        vec![
            "/p/lib/b.h".to_string(),
            "/p/lib/a.h".to_string(),
            "/p/main.c".to_string(),
            "/p/src/a.c".to_string(),
        ]
    );
}

#[test]
fn first_request_is_to_read_the_entry_file() {
    let builder = SourceGraphBuilder::new("main.c".to_string());
    assert_eq!(builder.request(), Request::Read("main.c".to_string()));
    match builder.step(Some("int x;\n".to_string())) {
        Progress::Pending(next) => {
            assert_eq!(next.request(), Request::Resolve("main.c".to_string()))
        }
        _ => panic!("the builder should ask for the canonical path"),
    }
}

#[test]
fn file_without_a_parent_resolves_against_its_own_directory() {
    let builder = SourceGraphBuilder::new("main.c".to_string());
    let builder = match builder.step(Some("// cbundl: impl=a.c\n".to_string())) {
        Progress::Pending(next) => next,
        _ => panic!("pending expected"),
    };
    let builder = match builder.step(Some("/p/main.c".to_string())) {
        Progress::Pending(next) => next,
        _ => panic!("pending expected"),
    };
    assert_eq!(builder.request(), Request::Resolve("a.c".to_string()));
}

#[test]
fn entry_that_cannot_be_resolved_is_reported() {
    let builder = SourceGraphBuilder::new("main.c".to_string());
    let builder = match builder.step(Some("int x;\n".to_string())) {
        Progress::Pending(next) => next,
        _ => panic!("pending expected"),
    };
    match builder.step(None) {
        Progress::Failed(error) => {
            assert_eq!(error, SourcesError::Unresolvable { path: "main.c".to_string() })
        }
        _ => panic!("failure expected"),
    }
}

#[test]
fn file_that_vanishes_after_it_was_resolved_is_reported() {
    let builder = SourceGraphBuilder::new("/p/main.c".to_string());
    let builder = match builder.step(Some("// cbundl: bundle\n#include \"a.h\"\n".to_string())) {
        Progress::Pending(next) => next,
        _ => panic!("pending expected"),
    };
    let builder = match builder.step(Some("/p/main.c".to_string())) {
        Progress::Pending(next) => next,
        _ => panic!("pending expected"),
    };
    assert_eq!(builder.request(), Request::Resolve("/p/a.h".to_string()));
    let builder = match builder.step(Some("/real/a.h".to_string())) {
        Progress::Pending(next) => next,
        _ => panic!("pending expected"),
    };
    assert_eq!(builder.request(), Request::Read("/real/a.h".to_string()));
    match builder.step(None) {
        Progress::Failed(error) => {
            assert_eq!(error, SourcesError::Unreadable { path: "/real/a.h".to_string() })
        }
        _ => panic!("failure expected"),
    }
}

#[test]
fn repeated_reference_is_followed_once() {
    let mut files = MemoryFiles::new(&[
        (
            "/p/main.c",
            "// cbundl: bundle\n#include \"a.h\"\n// cbundl: impl=a.h\n// cbundl: bundle\n#include \"a.h\"\n",
        ),
        ("/p/a.h", "// cbundl: bundle\n#include \"b.h\"\n// cbundl: bundle\n#include \"b.h\"\n"),
        ("/p/b.h", ""),
    ]);
    let sources = resolve(&mut files, "/p/main.c").unwrap();
    assert_eq!(
        order_of(&sources),
        vec![
            (SourceKind::Declaration, "/p/b.h".to_string()),
            (SourceKind::Declaration, "/p/a.h".to_string()),
            (SourceKind::Implementation, "/p/main.c".to_string()),
        ]
    );
    assert_eq!(
        files.reads,
        vec!["/p/main.c".to_string(), "/p/a.h".to_string(), "/p/b.h".to_string()]
    );
}

#[test]
fn includes_are_followed_before_implementation_files() {
    let mut files = MemoryFiles::new(&[
        ("/p/main.c", "// cbundl: impl=a.h\n// cbundl: bundle\n#include \"b.h\"\n"),
        ("/p/a.h", ""),
        ("/p/b.h", "// cbundl: bundle\n#include \"a.h\"\n"),
    ]);
    let sources = resolve(&mut files, "/p/main.c").unwrap();
    assert_eq!(
        order_of(&sources),
        vec![
            (SourceKind::Declaration, "/p/a.h".to_string()),
            (SourceKind::Declaration, "/p/b.h".to_string()),
            (SourceKind::Implementation, "/p/main.c".to_string()),
        ]
    );
    assert_eq!(
        files.reads,
        vec!["/p/main.c".to_string(), "/p/b.h".to_string(), "/p/a.h".to_string()]
    );
}

#[test]
fn kind_is_that_of_the_reference_that_loaded_the_file() {
    let mut files = MemoryFiles::new(&[
        ("/p/main.c", "// cbundl: impl=a.h\n// cbundl: impl=b.c\n"),
        ("/p/a.h", ""),
        ("/p/b.c", "// cbundl: bundle\n#include \"a.h\"\n"),
    ]);
    let sources = resolve(&mut files, "/p/main.c").unwrap();
    assert_eq!(
        order_of(&sources),
        vec![
            (SourceKind::Implementation, "/p/main.c".to_string()),
            (SourceKind::Implementation, "/p/a.h".to_string()),
            (SourceKind::Implementation, "/p/b.c".to_string()),
        ]
    );
}

fn pending(progress: Progress) -> SourceGraphBuilder {
    match progress {
        Progress::Pending(next) => next,
        Progress::Finished(_) => panic!("the builder finished early"),
        Progress::Failed(error) => panic!("the builder failed: {:?}", error),
    }
}

#[test]
fn file_is_registered_under_the_path_it_was_asked_for_once_it_is_done() {
    let builder = SourceGraphBuilder::new("main.c".to_string());
    let text = "// cbundl: impl=a.c\n// cbundl: impl=b.c\n// cbundl: impl=c.c\n";
    let builder = pending(builder.step(Some(text.to_string())));
    let builder = pending(builder.step(Some("/main.c".to_string())));
    assert_eq!(builder.request(), Request::Resolve("a.c".to_string()));
    let builder = pending(builder.step(Some("/first".to_string())));
    assert_eq!(builder.request(), Request::Read("/first".to_string()));
    let builder = pending(builder.step(Some("int a;\n".to_string())));
    assert_eq!(builder.request(), Request::Resolve("/first".to_string()));
    let builder = pending(builder.step(Some("/second".to_string())));
    assert_eq!(builder.request(), Request::Resolve("b.c".to_string()));
    let builder = pending(builder.step(Some("/first".to_string())));
    assert_eq!(builder.request(), Request::Resolve("c.c".to_string()));
    let sources = match builder.step(Some("/second".to_string())) {
        Progress::Finished(graph) => Sources::new(graph).unwrap(),
        _ => panic!("finished expected"),
    };
    assert_eq!(paths_of(&sources), vec!["main.c".to_string(), "/first".to_string()]);
}

#[test]
fn entry_file_that_bundles_itself_is_alone() {
    let mut files =
        MemoryFiles::new(&[("/p/main.c", "// cbundl: bundle\n#include \"main.c\"\nint x;\n")]);
    let sources = resolve(&mut files, "/p/main.c").unwrap();
    assert_eq!(paths_of(&sources), vec!["/p/main.c".to_string()]);
    assert_eq!(files.reads, vec!["/p/main.c".to_string()]);
}

#[test]
fn diamond_of_headers_is_ordered_from_the_bottom() {
    let mut files = MemoryFiles::new(&[
        (
            "/p/main.c",
            "// cbundl: bundle\n#include \"top.h\"\n",
        ),
        (
            "/p/top.h",
            "// cbundl: bundle\n#include \"left.h\"\n// cbundl: bundle\n#include \"right.h\"\n",
        ),
        ("/p/left.h", "// cbundl: bundle\n#include \"base.h\"\n"),
        ("/p/right.h", "// cbundl: bundle\n#include \"base.h\"\n"),
        ("/p/base.h", "int base;\n"),
    ]);
    let sources = resolve(&mut files, "/p/main.c").unwrap();
    let paths = paths_of(&sources);
    let at = |name: &str| paths.iter().position(|p| p == name).unwrap();
    assert_eq!(paths.len(), 5);
    assert!(at("/p/base.h") < at("/p/left.h"));
    assert!(at("/p/base.h") < at("/p/right.h"));
    assert!(at("/p/left.h") < at("/p/top.h"));
    assert!(at("/p/right.h") < at("/p/top.h"));
    assert_eq!(at("/p/main.c"), 4);
    assert_eq!(files.reads.len(), 5);
}
