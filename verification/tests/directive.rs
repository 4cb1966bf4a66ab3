use cbundl::parse::directive::{Directive, ParseDirectiveError};

#[test]
fn plain_line_is_no_directive() {
    assert_eq!(Directive::try_parse("int main(void) { return 0; }"), None);
    assert_eq!(Directive::try_parse(""), None);
    assert_eq!(Directive::try_parse("// a comment"), None);
    assert_eq!(Directive::try_parse("//cbundl: bundle"), None);
}

#[test]
fn bundle_directive_parses() {
    assert_eq!(Directive::try_parse("// cbundl: bundle"), Some(Ok(Directive::Bundle)));
    assert_eq!(Directive::try_parse("   \t// cbundl:bundle"), Some(Ok(Directive::Bundle)));
    assert_eq!(Directive::try_parse("// cbundl:    bundle trailing words"), Some(Ok(Directive::Bundle)));
}

#[test]
fn impl_directive_parses() {
    assert_eq!(
        Directive::try_parse("// cbundl: impl=foo.c"),
        Some(Ok(Directive::ImplFile("foo.c".to_string())))
    );
    assert_eq!(
        Directive::try_parse("// cbundl: impl  =   dir/foo.c   ignored"),
        Some(Ok(Directive::ImplFile("dir/foo.c".to_string())))
    );
}

#[test]
fn missing_keyword_is_reported() {
    assert_eq!(
        Directive::try_parse("// cbundl:"),
        Some(Err(ParseDirectiveError::MissingKeyword))
    );
    assert_eq!(
        Directive::try_parse("// cbundl:   =x"),
        Some(Err(ParseDirectiveError::MissingKeyword))
    );
}

#[test]
fn unknown_keyword_is_reported() {
    assert_eq!(
        Directive::try_parse("// cbundl: bundles"),
        Some(Err(ParseDirectiveError::InvalidKeyword))
    );
    assert_eq!(
        Directive::try_parse("// cbundl: include"),
        Some(Err(ParseDirectiveError::InvalidKeyword))
    );
}

#[test]
fn malformed_impl_is_reported() {
    assert_eq!(
        Directive::try_parse("// cbundl: impl"),
        Some(Err(ParseDirectiveError::InvalidSyntax("missing '=' for impl directive")))
    );
    assert_eq!(
        Directive::try_parse("// cbundl: impl foo"),
        Some(Err(ParseDirectiveError::InvalidSyntax("expected '=' after 'impl' keyword")))
    );
    assert_eq!(
        Directive::try_parse("// cbundl: impl=   "),
        Some(Err(ParseDirectiveError::InvalidSyntax("missing implementation file path")))
    );
}
