use cbundl::builder::{Progress, Request, SourceGraphBuilder};
use cbundl::bundler::Bundler;
use cbundl::source::Sources;

/// Resolves `entry` among `files`, whose paths are canonical as they stand.
fn sources_of(files: &[(&str, &str)], entry: &str) -> Sources {
    let mut builder = SourceGraphBuilder::new(entry.to_string());
    loop {
        let reply = match builder.request() {
            Request::Read(path) => files
                .iter()
                .find(|(name, _)| *name == path)
                .map(|(_, text)| text.to_string()),
            Request::Resolve(path) => files
                .iter()
                .find(|(name, _)| *name == path)
                .map(|(name, _)| name.to_string()),
        };
        match builder.step(reply) {
            Progress::Pending(next) => builder = next,
            Progress::Finished(graph) => return Sources::new(graph).unwrap(),
            Progress::Failed(error) => panic!("unexpected failure: {:?}", error),
        }
    }
}

#[test]
fn bundle_heads_each_source_with_its_file_name() {
    let sources = sources_of(
        &[
            ("/p/main.c", "// cbundl: bundle\n#include \"a.h\"\nint main;\n"),
            ("/p/a.h", "void a(void);\n"),
        ],
        "/p/main.c",
    );
    let expected = "/**\n * bundled from \"a.h\"\n */\n\nvoid a(void);\n\n/**\n * bundled from \"main.c\"\n */\n\nint main;\n\n";
    assert_eq!(Bundler {}.bundle(&sources), expected);
    assert_eq!(Bundler {}.try_bundle(&sources), Some(expected.to_string()));
}

#[test]
fn bundle_adds_no_line_after_an_empty_line() {
    let sources = sources_of(&[("/p/main.c", "int main;\n\n")], "/p/main.c");
    assert_eq!(
        Bundler {}.bundle(&sources),
        "/**\n * bundled from \"main.c\"\n */\n\nint main;\n\n"
    );
}

#[test]
fn bundle_of_an_empty_file_is_its_heading_and_a_line_feed() {
    let sources = sources_of(&[("main.c", "")], "main.c");
    assert_eq!(
        Bundler {}.bundle(&sources),
        "/**\n * bundled from \"main.c\"\n */\n\n\n"
    );
}

#[test]
fn bundle_is_refused_for_a_path_without_a_file_name() {
    let sources = sources_of(&[("/p/..", "int main;\n")], "/p/..");
    assert_eq!(Bundler {}.try_bundle(&sources), None);
}
