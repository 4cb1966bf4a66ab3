use cbundl::parse::directive::ParseDirectiveError;
use cbundl::parse::include_line::ParseIncludeError;
use cbundl::parse::source_file::{ParseSourceError, SourceFile};

#[test]
fn plain_text_passes_through() {
    let file = SourceFile::try_parse("int a;\nint b;\n").unwrap();
    assert_eq!(file.content, "int a;\nint b;\n");
    assert!(file.includes.is_empty());
    assert!(file.impl_files.is_empty());
}

#[test]
fn empty_text_is_an_empty_file() {
    let file = SourceFile::try_parse("").unwrap();
    assert_eq!(file.content, "");
    assert!(file.includes.is_empty());
    assert!(file.impl_files.is_empty());
}

#[test]
fn last_line_gets_its_line_feed() {
    let file = SourceFile::try_parse("int a;\nint b;").unwrap();
    assert_eq!(file.content, "int a;\nint b;\n");
}

#[test]
fn carriage_returns_before_line_feeds_are_dropped() {
    let file = SourceFile::try_parse("int a;\r\nint b;\r\n\r\nint c;\r").unwrap();
    assert_eq!(file.content, "int a;\nint b;\n\nint c;\r\n");
}

#[test]
fn bundled_include_is_taken_out_and_listed() {
    let file = SourceFile::try_parse(
        "#include <stdio.h>\n// cbundl: bundle\n#include \"a.h\"\nint main;\n  // cbundl: bundle\n  #include \"dir/b.h\"\n",
    )
    .unwrap();
    assert_eq!(file.content, "#include <stdio.h>\nint main;\n");
    assert_eq!(file.includes, vec!["a.h".to_string(), "dir/b.h".to_string()]);
    assert!(file.impl_files.is_empty());
}

#[test]
fn plain_include_stays_in_the_content() {
    let file = SourceFile::try_parse("#include \"a.h\"\n").unwrap();
    assert_eq!(file.content, "#include \"a.h\"\n");
    assert!(file.includes.is_empty());
}

#[test]
fn impl_directive_is_taken_out_and_listed() {
    let file = SourceFile::try_parse("void a(void);\n// cbundl: impl=a.c\n// cbundl: impl = b.c\n")
        .unwrap();
    assert_eq!(file.content, "void a(void);\n");
    assert_eq!(file.impl_files, vec!["a.c".to_string(), "b.c".to_string()]);
    assert!(file.includes.is_empty());
}

#[test]
fn system_include_after_bundle_is_unsupported() {
    assert_eq!(
        SourceFile::try_parse("// cbundl: bundle\n#include <stdio.h>\n").err(),
        Some(ParseSourceError::UnsupportedInclude)
    );
}

#[test]
fn bundle_at_the_end_misses_its_include() {
    assert_eq!(
        SourceFile::try_parse("int a;\n// cbundl: bundle").err(),
        Some(ParseSourceError::MissingInclude)
    );
}

#[test]
fn bundle_before_other_text_misses_its_include() {
    assert_eq!(
        SourceFile::try_parse("// cbundl: bundle\nint a;\n#include \"a.h\"\n").err(),
        Some(ParseSourceError::MissingInclude)
    );
    assert_eq!(
        SourceFile::try_parse("// cbundl: bundle\n\n#include \"a.h\"\n").err(),
        Some(ParseSourceError::MissingInclude)
    );
    assert_eq!(
        SourceFile::try_parse("// cbundl: bundle\n// cbundl: bundle\n#include \"a.h\"\n").err(),
        Some(ParseSourceError::MissingInclude)
    );
}

#[test]
fn malformed_include_is_reported_at_the_line_of_its_directive() {
    assert_eq!(
        SourceFile::try_parse("int a;\nint b;\n// cbundl: bundle\n#include \"a.h\n").err(),
        Some(ParseSourceError::InvalidInclude {
            line: 3,
            error: ParseIncludeError::MissingSeparator
        })
    );
    assert_eq!(
        SourceFile::try_parse("// cbundl: bundle\n#include a.h\n").err(),
        Some(ParseSourceError::InvalidInclude {
            line: 1,
            error: ParseIncludeError::InvalidSeparator
        })
    );
}

#[test]
fn malformed_impl_is_reported_at_its_line() {
    assert_eq!(
        SourceFile::try_parse("int a;\n\n// cbundl: bundle\n#include \"a.h\"\n// cbundl: impl foo\nint b;\n")
            .err(),
        Some(ParseSourceError::InvalidDirective {
            line: 5,
            error: ParseDirectiveError::InvalidSyntax("expected '=' after 'impl' keyword"),
        })
    );
    assert_eq!(
        SourceFile::try_parse("// cbundl: impl foo").err(),
        Some(ParseSourceError::InvalidDirective {
            line: 1,
            error: ParseDirectiveError::InvalidSyntax("expected '=' after 'impl' keyword"),
        })
    );
}

#[test]
fn unknown_directive_is_reported_at_its_line() {
    assert_eq!(
        SourceFile::try_parse("a\nb\nc\n// cbundl: nope\n").err(),
        Some(ParseSourceError::InvalidDirective {
            line: 4,
            error: ParseDirectiveError::InvalidKeyword
        })
    );
    assert_eq!(
        SourceFile::try_parse("a\n// cbundl:\n").err(),
        Some(ParseSourceError::InvalidDirective {
            line: 2,
            error: ParseDirectiveError::MissingKeyword
        })
    );
}

#[test]
fn first_fault_decides() {
    assert_eq!(
        SourceFile::try_parse("// cbundl: bundle\n#include <a.h>\n// cbundl: nope\n").err(),
        Some(ParseSourceError::UnsupportedInclude)
    );
    assert_eq!(
        SourceFile::try_parse("// cbundl: nope\n// cbundl: bundle\n#include <a.h>\n").err(),
        Some(ParseSourceError::InvalidDirective {
            line: 1,
            error: ParseDirectiveError::InvalidKeyword
        })
    );
}

#[test]
fn unicode_whitespace_before_a_directive_is_skipped() {
    let file = SourceFile::try_parse("\u{a0}\u{2003}// cbundl: impl=\u{3000}ä.c\u{2003}x\n").unwrap();
    assert_eq!(file.content, "");
    assert_eq!(file.impl_files, vec!["ä.c".to_string()]);
}
