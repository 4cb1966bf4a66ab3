//! A whole source file: its text without the bundling lines, and the paths
//! that those lines name.

use crate::parse::directive;
use crate::parse::directive::{
    Directive, DirectiveView, ParseDirectiveError, ParseDirectiveErrorView,
};
use crate::parse::include_line;
use crate::parse::include_line::{IncludeKind, ParseIncludeError};
use crate::text::{append_range, lines, split_lines, texts, to_chars, windows};
use vstd::prelude::*;

verus! {

/// What a source file holds once its bundling lines are taken out.
#[derive(Debug, Clone)]
pub struct SourceFile {
    /// The text without directive lines and without the include lines that
    /// follow a bundle directive. Every line ends with a line feed.
    pub content: String,
    /// The paths of the `impl` directives, in file order.
    pub impl_files: Vec<String>,
    /// The paths of the bundled includes, in file order.
    pub includes: Vec<String>,
}

/// Why a source file cannot be parsed.
#[derive(Debug, Clone, Copy, PartialEq, Eq)]
#[allow(inconsistent_fields)]
pub enum ParseSourceError {
    /// No include line follows a bundle directive.
    MissingInclude,
    /// The include line after the bundle directive on line `line` is
    /// malformed.
    InvalidInclude { line: usize, error: ParseIncludeError },
    /// A bundle directive names a system include.
    UnsupportedInclude,
    /// The directive on line `line` is malformed.
    InvalidDirective { line: usize, error: ParseDirectiveError },
}

/// A source file as a mathematical value.
pub struct SourceFileView {
    pub content: Seq<char>,
    pub impl_files: Seq<Seq<char>>,
    pub includes: Seq<Seq<char>>,
}

/// A parse error as a mathematical value.
#[allow(inconsistent_fields)]
pub enum ParseSourceErrorView {
    MissingInclude,
    InvalidInclude { line: nat, error: ParseIncludeError },
    UnsupportedInclude,
    InvalidDirective { line: nat, error: ParseDirectiveErrorView },
}

impl View for SourceFile {
    type V = SourceFileView;

    open spec fn view(&self) -> SourceFileView {
        SourceFileView {
            content: self.content@,
            impl_files: texts(self.impl_files@),
            includes: texts(self.includes@),
        }
    }
}

impl View for ParseSourceError {
    type V = ParseSourceErrorView;

    open spec fn view(&self) -> ParseSourceErrorView {
        match self {
            ParseSourceError::MissingInclude => ParseSourceErrorView::MissingInclude,
            ParseSourceError::InvalidInclude { line, error } => ParseSourceErrorView::InvalidInclude {
                line: *line as nat,
                error: *error,
            },
            ParseSourceError::UnsupportedInclude => ParseSourceErrorView::UnsupportedInclude,
            ParseSourceError::InvalidDirective {
                line,
                error,
            } => ParseSourceErrorView::InvalidDirective { line: *line as nat, error: error@ },
        }
    }
}

/// The view of a parse result.
pub open spec fn result_view(r: Result<SourceFile, ParseSourceError>) -> Result<
    SourceFileView,
    ParseSourceErrorView,
> {
    match r {
        Ok(f) => Ok(f@),
        Err(e) => Err(e@),
    }
}

/// A file without text and without paths.
pub open spec fn empty_file() -> SourceFileView {
    SourceFileView { content: Seq::empty(), impl_files: Seq::empty(), includes: Seq::empty() }
}

/// Reads the lines from line `i` on into `acc`. A line that is no directive
/// goes to the content. An `impl` directive gives a path. A bundle directive
/// takes the next line with it, which must be a well-formed local include,
/// and gives that include's path. Lines count from 1; an error on the include
/// line is reported at the line of its bundle directive.
pub open spec fn scan_lines(all: Seq<Seq<char>>, i: nat, acc: SourceFileView) -> Result<
    SourceFileView,
    ParseSourceErrorView,
>
    decreases all.len() - i,
{
    if i >= all.len() {
        Ok(acc)
    } else {
        match directive::parse_spec(all[i as int]) {
            None => scan_lines(
                all,
                i + 1,
                SourceFileView { content: acc.content + all[i as int] + seq!['\n'], ..acc },
            ),
            Some(Err(error)) => Err(ParseSourceErrorView::InvalidDirective { line: i + 1, error }),
            Some(Ok(DirectiveView::ImplFile(path))) => scan_lines(
                all,
                i + 1,
                SourceFileView { impl_files: acc.impl_files.push(path), ..acc },
            ),
            Some(Ok(DirectiveView::Bundle)) => if i + 1 >= all.len() {
                Err(ParseSourceErrorView::MissingInclude)
            } else {
                match include_line::parse_spec(all[i as int + 1]) {
                    None => Err(ParseSourceErrorView::MissingInclude),
                    Some(Err(error)) => Err(
                        ParseSourceErrorView::InvalidInclude { line: i + 1, error },
                    ),
                    Some(Ok(inc)) => if inc.kind == IncludeKind::Local {
                        scan_lines(
                            all,
                            i + 2,
                            SourceFileView { includes: acc.includes.push(inc.path), ..acc },
                        )
                    } else {
                        Err(ParseSourceErrorView::UnsupportedInclude)
                    },
                }
            },
        }
    }
}

/// What a file's text parses to.
pub open spec fn parse_spec(text: Seq<char>) -> Result<SourceFileView, ParseSourceErrorView> {
    scan_lines(lines(text), 0, empty_file())
}

impl SourceFile {
    /// Parses the text of a file, line by line. Succeeds unless a line that
    /// opens like a directive is malformed, or a bundle directive is not
    /// followed by a well-formed local include; the first such line decides
    /// the error.
    pub fn try_parse(s: &str) -> (r: Result<Self, ParseSourceError>)
        ensures
            result_view(r) == parse_spec(s@),
    {
        let chars = to_chars(s);
        let bounds = split_lines(&chars);
        let mut content = String::new();
        let mut impl_files: Vec<String> = Vec::new();
        let mut includes: Vec<String> = Vec::new();
        let ghost all = lines(s@);
        let mut i: usize = 0;
        proof {
            assert(texts(impl_files@) == Seq::<Seq<char>>::empty());
            assert(texts(includes@) == Seq::<Seq<char>>::empty());
        }
        while i < bounds.len()
            invariant
                chars@ == s@,
                all == lines(s@),
                windows(chars@, bounds@) == all,
                crate::text::windows_fit(bounds@, chars@.len()),
                i <= bounds.len() + 1,
                scan_lines(
                    all,
                    i as nat,
                    SourceFileView {
                        content: content@,
                        impl_files: texts(impl_files@),
                        includes: texts(includes@),
                    },
                ) == parse_spec(s@),
            decreases bounds.len() + 1 - i,
        {
            let (start, end) = bounds[i];
            assert(all[i as int] == chars@.subrange(start as int, end as int));
            match directive::parse_line(&chars, start, end) {
                None => {
                    let ghost before = content@;
                    append_range(&mut content, &chars, start, end);
                    content.push('\n');
                    proof {
                        assert(content@ == before + all[i as int] + seq!['\n']);
                    }
                    i += 1;
                },
                Some(Err(error)) => {
                    return Err(ParseSourceError::InvalidDirective { line: i + 1, error });
                },
                Some(Ok(Directive::ImplFile(path))) => {
                    let ghost before = texts(impl_files@);
                    impl_files.push(path);
                    proof {
                        assert(texts(impl_files@) == before.push(path@));
                    }
                    i += 1;
                },
                Some(Ok(Directive::Bundle)) => {
                    if i + 1 >= bounds.len() {
                        return Err(ParseSourceError::MissingInclude);
                    }
                    let (next_start, next_end) = bounds[i + 1];
                    assert(all[i + 1] == chars@.subrange(next_start as int, next_end as int));
                    match include_line::parse_line(&chars, next_start, next_end) {
                        None => {
                            return Err(ParseSourceError::MissingInclude);
                        },
                        Some(Err(error)) => {
                            return Err(ParseSourceError::InvalidInclude { line: i + 1, error });
                        },
                        Some(Ok(inc)) => {
                            match inc.kind {
                                IncludeKind::Local => {
                                    let ghost before = texts(includes@);
                                    includes.push(inc.path);
                                    proof {
                                        assert(texts(includes@) == before.push(inc.path@));
                                    }
                                    i += 2;
                                },
                                IncludeKind::System => {
                                    return Err(ParseSourceError::UnsupportedInclude);
                                },
                            }
                        },
                    }
                },
            }
        }
        Ok(SourceFile { content, impl_files, includes })
    }
}

/// Reading the first `k` lines alone, where that succeeds, is the first part
/// of reading them all.
pub proof fn lemma_scan_prefix(all: Seq<Seq<char>>, k: nat, i: nat, acc: SourceFileView)
    requires
        i <= k <= all.len(),
        scan_lines(all.take(k as int), i, acc).is_ok(),
    ensures
        scan_lines(all.take(k as int), i, acc) matches Ok(mid) && scan_lines(all, i, acc)
            == scan_lines(all, k, mid),
    decreases k - i,
{
    let head = all.take(k as int);
    if i < k {
        assert(head[i as int] == all[i as int]);
        match directive::parse_spec(all[i as int]) {
            None => {
                lemma_scan_prefix(
                    all,
                    k,
                    i + 1,
                    SourceFileView { content: acc.content + all[i as int] + seq!['\n'], ..acc },
                );
            },
            Some(Err(error)) => {},
            Some(Ok(DirectiveView::ImplFile(path))) => {
                lemma_scan_prefix(
                    all,
                    k,
                    i + 1,
                    SourceFileView { impl_files: acc.impl_files.push(path), ..acc },
                );
            },
            Some(Ok(DirectiveView::Bundle)) => {
                assert(i + 1 < k);
                assert(head[i as int + 1] == all[i as int + 1]);
                match include_line::parse_spec(all[i as int + 1]) {
                    Some(Ok(inc)) => {
                        lemma_scan_prefix(
                            all,
                            k,
                            i + 2,
                            SourceFileView { includes: acc.includes.push(inc.path), ..acc },
                        );
                    },
                    _ => {},
                }
            },
        }
    }
}

/// A malformed directive is reported at its own line: where the lines before
/// it parse as a file of their own, the file fails at that line, counted from
/// 1, with the directive's error.
pub proof fn lemma_directive_error_line(all: Seq<Seq<char>>, k: nat)
    requires
        k < all.len(),
        scan_lines(all.take(k as int), 0, empty_file()).is_ok(),
        directive::parse_spec(all[k as int]) matches Some(Err(_)),
    ensures
        directive::parse_spec(all[k as int]) matches Some(Err(error)) && scan_lines(
            all,
            0,
            empty_file(),
        ) == Err::<SourceFileView, ParseSourceErrorView>(
            ParseSourceErrorView::InvalidDirective { line: k + 1, error },
        ),
{
    lemma_scan_prefix(all, k, 0, empty_file());
}

/// A bundle directive that is followed by a system include makes the file
/// fail as unsupported, where the lines before the directive parse as a file
/// of their own.
pub proof fn lemma_system_include_rejected(all: Seq<Seq<char>>, k: nat)
    requires
        k + 1 < all.len(),
        scan_lines(all.take(k as int), 0, empty_file()).is_ok(),
        directive::parse_spec(all[k as int]) == Some(
            Ok::<DirectiveView, ParseDirectiveErrorView>(DirectiveView::Bundle),
        ),
        include_line::parse_spec(all[k as int + 1]) matches Some(Ok(inc)) && inc.kind
            == IncludeKind::System,
    ensures
        scan_lines(all, 0, empty_file()) == Err::<SourceFileView, ParseSourceErrorView>(
            ParseSourceErrorView::UnsupportedInclude,
        ),
{
    lemma_scan_prefix(all, k, 0, empty_file());
}

/// What is wrong with line `i`, taken by itself and with the line after it:
/// a malformed directive, or a bundle directive without a well-formed local
/// include on the next line.
pub open spec fn fault_at(all: Seq<Seq<char>>, i: int) -> Option<ParseSourceErrorView> {
    match directive::parse_spec(all[i]) {
        Some(Err(error)) => Some(ParseSourceErrorView::InvalidDirective { line: (i + 1) as nat, error }),
        Some(Ok(DirectiveView::Bundle)) => if i + 1 >= all.len() {
            Some(ParseSourceErrorView::MissingInclude)
        } else {
            match include_line::parse_spec(all[i + 1]) {
                None => Some(ParseSourceErrorView::MissingInclude),
                Some(Err(error)) => Some(
                    ParseSourceErrorView::InvalidInclude { line: (i + 1) as nat, error },
                ),
                Some(Ok(inc)) => if inc.kind == IncludeKind::Local {
                    None
                } else {
                    Some(ParseSourceErrorView::UnsupportedInclude)
                },
            }
        },
        _ => None,
    }
}

/// The first fault among the first `upto` lines.
pub open spec fn first_fault(all: Seq<Seq<char>>, upto: nat) -> Option<ParseSourceErrorView>
    decreases upto,
{
    if upto == 0 {
        None
    } else {
        match first_fault(all, (upto - 1) as nat) {
            Some(error) => Some(error),
            None => fault_at(all, upto - 1),
        }
    }
}

/// Whether a bundle directive stands on the line before line `i`.
pub open spec fn follows_bundle(all: Seq<Seq<char>>, i: int) -> bool {
    i > 0 && directive::parse_spec(all[i - 1]) == Some(
        Ok::<DirectiveView, ParseDirectiveErrorView>(DirectiveView::Bundle),
    )
}

/// What the first `upto` lines give, each line by itself: a line that is no
/// directive and follows no bundle directive gives itself to the content; an
/// `impl` directive gives its path; a bundle directive gives the path of the
/// include on the next line.
pub open spec fn kept(all: Seq<Seq<char>>, upto: nat) -> SourceFileView
    decreases upto,
{
    if upto == 0 {
        empty_file()
    } else {
        let before = kept(all, (upto - 1) as nat);
        let i = upto - 1;
        match directive::parse_spec(all[i]) {
            None => if follows_bundle(all, i) {
                before
            } else {
                SourceFileView { content: before.content + all[i] + seq!['\n'], ..before }
            },
            Some(Ok(DirectiveView::ImplFile(path))) => SourceFileView {
                impl_files: before.impl_files.push(path),
                ..before
            },
            Some(Ok(DirectiveView::Bundle)) => match include_line::parse_spec(all[i + 1]) {
                Some(Ok(inc)) => SourceFileView {
                    includes: before.includes.push(inc.path),
                    ..before
                },
                _ => before,
            },
            Some(Err(_)) => before,
        }
    }
}

/// No line is both an include and a directive.
pub proof fn lemma_include_is_no_directive(line: Seq<char>)
    requires
        include_line::parse_spec(line).is_some(),
    ensures
        directive::parse_spec(line).is_none(),
{
    let t = crate::text::trim_start(line);
    reveal_strlit("#include");
    reveal_strlit("// cbundl:");
    if directive::parse_spec(line).is_some() {
        assert(t.take(8)[0] == '#');
        assert(t.take(10)[0] == '/');
    }
}

/// A file parses line by line: it fails with the first fault among its
/// lines, and where no line has a fault it holds what the lines give.
pub proof fn lemma_parse_by_line(all: Seq<Seq<char>>)
    ensures
        scan_lines(all, 0, empty_file()) == match first_fault(all, all.len()) {
            Some(error) => Err::<SourceFileView, ParseSourceErrorView>(error),
            None => Ok(kept(all, all.len())),
        },
{
    lemma_scan_by_line(all, 0);
}

/// Reading on from line `i`, which follows no bundle directive, after lines
/// without a fault.
proof fn lemma_scan_by_line(all: Seq<Seq<char>>, i: nat)
    requires
        i <= all.len(),
        first_fault(all, i).is_none(),
        !follows_bundle(all, i as int),
    ensures
        scan_lines(all, i, kept(all, i)) == match first_fault(all, all.len()) {
            Some(error) => Err::<SourceFileView, ParseSourceErrorView>(error),
            None => Ok(kept(all, all.len())),
        },
    decreases all.len() - i,
{
    if i < all.len() {
        match directive::parse_spec(all[i as int]) {
            Some(Ok(DirectiveView::Bundle)) => {
                if fault_at(all, i as int).is_none() {
                    lemma_include_is_no_directive(all[i as int + 1]);
                    assert(first_fault(all, i + 1).is_none());
                    assert(fault_at(all, i as int + 1).is_none());
                    assert(first_fault(all, i + 2).is_none());
                    assert(kept(all, i + 2) == kept(all, i + 1));
                    lemma_scan_by_line(all, i + 2);
                } else {
                    lemma_fault_stays_first(all, i, all.len());
                }
            },
            Some(Err(_)) => {
                lemma_fault_stays_first(all, i, all.len());
            },
            _ => {
                assert(fault_at(all, i as int).is_none());
                assert(first_fault(all, i + 1).is_none());
                lemma_scan_by_line(all, i + 1);
            },
        }
    }
}

/// A fault that is the first among the lines up to its own is the first
/// among any more lines.
proof fn lemma_fault_stays_first(all: Seq<Seq<char>>, i: nat, upto: nat)
    requires
        i < upto <= all.len(),
        first_fault(all, i).is_none(),
        fault_at(all, i as int).is_some(),
    ensures
        first_fault(all, upto) == fault_at(all, i as int),
    decreases upto,
{
    if upto > i + 1 {
        lemma_fault_stays_first(all, i, (upto - 1) as nat);
    }
}

} // verus!
