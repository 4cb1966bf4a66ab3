//! Preprocessor-style include lines: `#include "path"` and `#include <path>`.

use crate::text::{
    consume_while, consume_whitespace, lemma_run_len, run_len, starts_with, to_chars, trim_start,
    CharClass, Cursor,
};
use vstd::prelude::*;

verus! {

/// Where an included file is looked up.
#[derive(Debug, Clone, Copy, PartialEq, Eq, Hash)]
pub enum IncludeKind {
    /// Quoted: relative to the including file.
    Local,
    /// In angle brackets: from the system's search path.
    System,
}

/// An include line: the path as written, and how it was delimited.
#[derive(Debug, Clone, PartialEq, Eq, Hash)]
pub struct Include {
    pub kind: IncludeKind,
    pub path: String,
}

/// Why a line that opens like an include is none.
#[derive(Debug, Clone, Copy, PartialEq, Eq)]
pub enum ParseIncludeError {
    /// The opening or the closing delimiter is absent.
    MissingSeparator,
    /// The path opens with something else than `"` or `<`.
    InvalidSeparator,
    /// Nothing stands between the delimiters.
    MissingPath,
}

/// An include as a mathematical value.
pub struct IncludeView {
    pub kind: IncludeKind,
    pub path: Seq<char>,
}

impl View for Include {
    type V = IncludeView;

    open spec fn view(&self) -> IncludeView {
        IncludeView { kind: self.kind, path: self.path@ }
    }
}

/// What a line parses to: `None` for a line that is no include.
pub type IncludeOutcome = Option<Result<IncludeView, ParseIncludeError>>;

/// The view of a parse result.
pub open spec fn outcome_view(r: Option<Result<Include, ParseIncludeError>>) -> IncludeOutcome {
    match r {
        None => None,
        Some(Ok(i)) => Some(Ok(i@)),
        Some(Err(e)) => Some(Err(e)),
    }
}

/// The text that opens every include line.
pub open spec fn marker() -> Seq<char> {
    "#include"@
}

/// A path that opened with a delimiter and must end with `close`.
pub open spec fn delimited_spec(s: Seq<char>, close: char, kind: IncludeKind) -> Result<
    IncludeView,
    ParseIncludeError,
> {
    let n = run_len(s, CharClass::Except(close)) as int;
    if n == 0 {
        Err(ParseIncludeError::MissingPath)
    } else if n == s.len() {
        Err(ParseIncludeError::MissingSeparator)
    } else {
        Ok(IncludeView { kind, path: s.take(n) })
    }
}

/// What follows the marker: optional whitespace, then the path between `"`
/// and `"`, or between `<` and `>`. What follows the closing delimiter is
/// not looked at.
pub open spec fn parse_body_spec(s: Seq<char>) -> Result<IncludeView, ParseIncludeError> {
    let s1 = trim_start(s);
    if s1.len() == 0 {
        Err(ParseIncludeError::MissingSeparator)
    } else if s1[0] == '"' {
        delimited_spec(s1.drop_first(), '"', IncludeKind::Local)
    } else if s1[0] == '<' {
        delimited_spec(s1.drop_first(), '>', IncludeKind::System)
    } else {
        Err(ParseIncludeError::InvalidSeparator)
    }
}

/// What a whole line parses to. A line is an include when, after its leading
/// whitespace, it opens with the marker.
pub open spec fn parse_spec(line: Seq<char>) -> IncludeOutcome {
    let t = trim_start(line);
    if starts_with(t, marker()) {
        Some(parse_body_spec(t.skip(marker().len() as int)))
    } else {
        None
    }
}

impl Include {
    /// Parses one line. Returns `None` if the line is no include, and the
    /// include or the reason why it is malformed otherwise. The path is
    /// returned as written.
    pub fn try_parse(s: &str) -> (r: Option<Result<Self, ParseIncludeError>>)
        ensures
            outcome_view(r) == parse_spec(s@),
    {
        let chars = to_chars(s);
        assert(chars@.subrange(0, chars@.len() as int) == s@);
        parse_line(&chars, 0, chars.len())
    }
}

/// Parses the line held in `chars[start..end]`.
pub fn parse_line(chars: &Vec<char>, start: usize, end: usize) -> (r: Option<
    Result<Include, ParseIncludeError>,
>)
    requires
        start <= end <= chars.len(),
    ensures
        outcome_view(r) == parse_spec(chars@.subrange(start as int, end as int)),
{
    let mut cur = Cursor::new(chars, start, end);
    let _ = consume_whitespace(&mut cur, false);
    if !cur.eat("#include") {
        return None;
    }
    Some(parse_body(&mut cur))
}

/// Parses what follows the marker.
fn parse_body(cur: &mut Cursor<'_>) -> (r: Result<Include, ParseIncludeError>)
    requires
        old(cur).wf(),
    ensures
        final(cur).wf(),
        match r {
            Ok(i) => Ok(i@),
            Err(e) => Err(e),
        } == parse_body_spec(old(cur).rest()),
{
    let _ = consume_whitespace(cur, false);
    let sep = match cur.next() {
        Some(c) => c,
        None => {
            return Err(ParseIncludeError::MissingSeparator);
        },
    };
    if sep == '"' {
        delimited(cur, '"', IncludeKind::Local)
    } else if sep == '<' {
        delimited(cur, '>', IncludeKind::System)
    } else {
        Err(ParseIncludeError::InvalidSeparator)
    }
}

/// Parses a path up to its closing delimiter.
fn delimited(cur: &mut Cursor<'_>, close: char, kind: IncludeKind) -> (r: Result<
    Include,
    ParseIncludeError,
>)
    requires
        old(cur).wf(),
    ensures
        final(cur).wf(),
        match r {
            Ok(i) => Ok(i@),
            Err(e) => Err(e),
        } == delimited_spec(old(cur).rest(), close, kind),
{
    proof {
        lemma_run_len(cur.rest(), CharClass::Except(close));
    }
    let path = match consume_while(cur, CharClass::Except(close)) {
        Some(p) => p,
        None => {
            return Err(ParseIncludeError::MissingPath);
        },
    };
    match cur.next() {
        None => Err(ParseIncludeError::MissingSeparator),
        Some(sep) => {
            if sep != close {
                return Err(ParseIncludeError::InvalidSeparator);
            }
            Ok(Include { kind, path })
        },
    }
}

} // verus!
