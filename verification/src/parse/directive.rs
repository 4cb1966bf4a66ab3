//! The bundling directives: `// cbundl: bundle` and `// cbundl: impl=<path>`.

use crate::text::{
    consume_until_whitespace, consume_whitespace, consume_word, run_len, same_text, starts_with,
    to_chars, trim_start, CharClass, Cursor,
};
use vstd::prelude::*;

verus! {

/// A directive found in a comment line.
#[derive(Debug, Clone, PartialEq, Eq, Hash)]
pub enum Directive {
    /// The next line is an include to be resolved.
    Bundle,
    /// The file's implementation lives at the given path.
    ImplFile(String),
}

/// Why a line that opens like a directive is none.
#[derive(Debug, Clone, Copy, PartialEq, Eq)]
pub enum ParseDirectiveError {
    /// No keyword follows the marker.
    MissingKeyword,
    /// The keyword is neither `bundle` nor `impl`.
    InvalidKeyword,
    /// The `impl=<path>` form is malformed; the text says how.
    InvalidSyntax(&'static str),
}

/// A directive as a mathematical value.
pub enum DirectiveView {
    Bundle,
    ImplFile(Seq<char>),
}

/// A directive error as a mathematical value.
pub enum ParseDirectiveErrorView {
    MissingKeyword,
    InvalidKeyword,
    InvalidSyntax(Seq<char>),
}

impl View for Directive {
    type V = DirectiveView;

    open spec fn view(&self) -> DirectiveView {
        match self {
            Directive::Bundle => DirectiveView::Bundle,
            Directive::ImplFile(path) => DirectiveView::ImplFile(path@),
        }
    }
}

impl View for ParseDirectiveError {
    type V = ParseDirectiveErrorView;

    open spec fn view(&self) -> ParseDirectiveErrorView {
        match self {
            ParseDirectiveError::MissingKeyword => ParseDirectiveErrorView::MissingKeyword,
            ParseDirectiveError::InvalidKeyword => ParseDirectiveErrorView::InvalidKeyword,
            ParseDirectiveError::InvalidSyntax(reason) => ParseDirectiveErrorView::InvalidSyntax(
                reason@,
            ),
        }
    }
}

/// What a line parses to: `None` for a line that is no directive.
pub type DirectiveOutcome = Option<Result<DirectiveView, ParseDirectiveErrorView>>;

/// The view of a parse result.
pub open spec fn outcome_view(r: Option<Result<Directive, ParseDirectiveError>>) -> DirectiveOutcome {
    match r {
        None => None,
        Some(Ok(d)) => Some(Ok(d@)),
        Some(Err(e)) => Some(Err(e@)),
    }
}

/// The text that opens every directive.
pub open spec fn marker() -> Seq<char> {
    "// cbundl:"@
}

/// What follows the marker: a keyword, and for `impl` an `=` and a path that
/// runs to the next whitespace. Whitespace may surround the `=`.
pub open spec fn parse_body_spec(s: Seq<char>) -> Result<DirectiveView, ParseDirectiveErrorView> {
    let s1 = trim_start(s);
    let n = run_len(s1, CharClass::Alphabetic) as int;
    let keyword = s1.take(n);
    if n == 0 {
        Err(ParseDirectiveErrorView::MissingKeyword)
    } else if keyword == "bundle"@ {
        Ok(DirectiveView::Bundle)
    } else if keyword == "impl"@ {
        let s2 = trim_start(s1.skip(n));
        if s2.len() == 0 {
            Err(ParseDirectiveErrorView::InvalidSyntax("missing '=' for impl directive"@))
        } else if s2[0] != '=' {
            Err(ParseDirectiveErrorView::InvalidSyntax("expected '=' after 'impl' keyword"@))
        } else {
            let s3 = trim_start(s2.drop_first());
            let m = run_len(s3, CharClass::NonWhitespace) as int;
            if m == 0 {
                Err(ParseDirectiveErrorView::InvalidSyntax("missing implementation file path"@))
            } else {
                Ok(DirectiveView::ImplFile(s3.take(m)))
            }
        }
    } else {
        Err(ParseDirectiveErrorView::InvalidKeyword)
    }
}

/// What a whole line parses to. A line is a directive when, after its leading
/// whitespace, it opens with the marker.
pub open spec fn parse_spec(line: Seq<char>) -> DirectiveOutcome {
    let t = trim_start(line);
    if starts_with(t, marker()) {
        Some(parse_body_spec(t.skip(marker().len() as int)))
    } else {
        None
    }
}

impl Directive {
    /// Parses one line. Returns `None` if the line is no directive, and the
    /// directive or the reason why it is malformed otherwise.
    pub fn try_parse(s: &str) -> (r: Option<Result<Self, ParseDirectiveError>>)
        ensures
            outcome_view(r) == parse_spec(s@),
    {
        let chars = to_chars(s);
        assert(chars@.subrange(0, chars@.len() as int) == s@);
        parse_line(&chars, 0, chars.len())
    }
}

/// Parses the line held in `chars[start..end]`.
pub fn parse_line(chars: &Vec<char>, start: usize, end: usize) -> (r: Option<
    Result<Directive, ParseDirectiveError>,
>)
    requires
        start <= end <= chars.len(),
    ensures
        outcome_view(r) == parse_spec(chars@.subrange(start as int, end as int)),
{
    let mut cur = Cursor::new(chars, start, end);
    let _ = consume_whitespace(&mut cur, false);
    if !cur.eat("// cbundl:") {
        return None;
    }
    Some(parse_body(&mut cur))
}

/// Parses what follows the marker.
fn parse_body(cur: &mut Cursor<'_>) -> (r: Result<Directive, ParseDirectiveError>)
    requires
        old(cur).wf(),
    ensures
        final(cur).wf(),
        match r {
            Ok(d) => Ok(d@),
            Err(e) => Err(e@),
        } == parse_body_spec(old(cur).rest()),
{
    let _ = consume_whitespace(cur, false);
    let keyword = match consume_word(cur) {
        Some(k) => k,
        None => {
            return Err(ParseDirectiveError::MissingKeyword);
        },
    };
    if same_text(keyword.as_str(), "bundle") {
        Ok(Directive::Bundle)
    } else if same_text(keyword.as_str(), "impl") {
        let _ = consume_whitespace(cur, false);
        match cur.next() {
            None => {
                return Err(
                    ParseDirectiveError::InvalidSyntax("missing '=' for impl directive"),
                );
            },
            Some(x) => {
                if x != '=' {
                    return Err(
                        ParseDirectiveError::InvalidSyntax("expected '=' after 'impl' keyword"),
                    );
                }
            },
        }
        let _ = consume_whitespace(cur, false);
        match consume_until_whitespace(cur) {
            Some(path) => Ok(Directive::ImplFile(path)),
            None => Err(ParseDirectiveError::InvalidSyntax("missing implementation file path")),
        }
    } else {
        Err(ParseDirectiveError::InvalidKeyword)
    }
}

} // verus!
