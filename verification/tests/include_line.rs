use cbundl::parse::include_line::{Include, IncludeKind, ParseIncludeError};

fn local(path: &str) -> Option<Result<Include, ParseIncludeError>> {
    Some(Ok(Include { kind: IncludeKind::Local, path: path.to_string() }))
}

fn system(path: &str) -> Option<Result<Include, ParseIncludeError>> {
    Some(Ok(Include { kind: IncludeKind::System, path: path.to_string() }))
}

#[test]
fn plain_line_is_no_include() {
    assert_eq!(Include::try_parse("int x;"), None);
    assert_eq!(Include::try_parse(""), None);
    assert_eq!(Include::try_parse("# include \"a.h\""), None);
    assert_eq!(Include::try_parse("// #include \"a.h\""), None);
}

#[test]
fn local_include_parses() {
    assert_eq!(Include::try_parse("#include \"a.h\""), local("a.h"));
    assert_eq!(Include::try_parse("   #include\t\"dir/a.h\"  // trailing"), local("dir/a.h"));
    assert_eq!(Include::try_parse("#include\"a.h\""), local("a.h"));
}

#[test]
fn system_include_parses() {
    assert_eq!(Include::try_parse("#include <stdio.h>"), system("stdio.h"));
    assert_eq!(Include::try_parse("#include <sys/types.h> x"), system("sys/types.h"));
}

#[test]
fn include_path_is_kept_verbatim() {
    assert_eq!(Include::try_parse("#include \" ./a b/../c.h \""), local(" ./a b/../c.h "));
    assert_eq!(Include::try_parse("#include \"<a.h>\""), local("<a.h>"));
    assert_eq!(Include::try_parse("#include <\"a.h\">"), system("\"a.h\""));
}

#[test]
fn missing_opening_delimiter_is_reported() {
    assert_eq!(
        Include::try_parse("#include"),
        Some(Err(ParseIncludeError::MissingSeparator))
    );
    assert_eq!(
        Include::try_parse("#include    "),
        Some(Err(ParseIncludeError::MissingSeparator))
    );
}

#[test]
fn missing_closing_delimiter_is_reported() {
    assert_eq!(
        Include::try_parse("#include \"a.h"),
        Some(Err(ParseIncludeError::MissingSeparator))
    );
    assert_eq!(
        Include::try_parse("#include <a.h\""),
        Some(Err(ParseIncludeError::MissingSeparator))
    );
}

#[test]
fn other_delimiter_is_reported() {
    assert_eq!(
        Include::try_parse("#include a.h"),
        Some(Err(ParseIncludeError::InvalidSeparator))
    );
    assert_eq!(
        Include::try_parse("#included"),
        Some(Err(ParseIncludeError::InvalidSeparator))
    );
}

#[test]
fn empty_path_is_reported() {
    assert_eq!(
        Include::try_parse("#include \"\""),
        Some(Err(ParseIncludeError::MissingPath))
    );
    assert_eq!(
        Include::try_parse("#include <>"),
        Some(Err(ParseIncludeError::MissingPath))
    );
    assert_eq!(
        Include::try_parse("#include \""),
        Some(Err(ParseIncludeError::MissingPath))
    );
}
