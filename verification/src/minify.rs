//! Shrinks C code: drops comments, squeezes whitespace and gives short names
//! to identifiers. The rules are heuristics on text, not a parser of C.

use crate::regexes::{
    capture_views, captures_of, escaped, regex_captures, regex_compiles, regex_escape, regex_new,
    regex_pattern, regex_replace_all, regex_split, replaced_all, split_by, Capture, CaptureView,
};
use crate::text::{
    append_range, contains_text, decimal, lines, replaced_text, scan, split_lines, starts_with,
    text_contains, text_replace, text_starts_with, texts, to_chars, to_decimal, trim_end,
    trim_end_at, trim_start, windows, windows_fit, CharClass,
};
use vstd::prelude::*;
use vstd::string::StringExecFns;

verus! {

/// A comment that runs to the end of its line.
pub const LINE_COMMENT: &'static str = r"//[^\n]*";

/// A comment between `/*` and `*/` on one line.
pub const BLOCK_COMMENT: &'static str = r"/\*.*?\*/";

/// A declaration: a basic type and the name that it declares.
pub const VAR_DECL: &'static str =
    r"\b(int|float|char|double|long|short|unsigned|signed|void)\s+([a-zA-Z_][a-zA-Z0-9_]*)(\s*\[\s*\d*\s*\])?(\s*\*+)?";

/// A parameter or a loop variable: a word and the name that follows it.
pub const FUNC_PARAM: &'static str = r"(\w+)\s+([a-zA-Z_][a-zA0-9_]*)(\s*\[\s*\d*\s*\])?(\s*\*+)?";

/// A string literal.
pub const STRING_LITERAL: &'static str = r#""([^"\\]*(\\.[^"\\]*)*)""#;

/// What is to be shrunk.
#[derive(Debug, Default, Clone)]
pub struct Minify {
    remove_comments: bool,
    remove_whitespace: bool,
    shorten_identifiers: bool,
}

/// Why code cannot be shrunk.
#[derive(Debug, Clone, PartialEq, Eq)]
pub enum MinifyError {
    /// The pattern is no regular expression.
    InvalidPattern { pattern: String },
    /// The short names have run out.
    TooManyIdentifiers,
}

/// An error as a mathematical value.
pub enum MinifyErrorView {
    InvalidPattern { pattern: Seq<char> },
    TooManyIdentifiers,
}

impl View for MinifyError {
    type V = MinifyErrorView;

    open spec fn view(&self) -> MinifyErrorView {
        match self {
            MinifyError::InvalidPattern { pattern } => MinifyErrorView::InvalidPattern {
                pattern: pattern@,
            },
            MinifyError::TooManyIdentifiers => MinifyErrorView::TooManyIdentifiers,
        }
    }
}

/// The view of a result that holds a text.
pub open spec fn text_result(r: Result<String, MinifyError>) -> Result<Seq<char>, MinifyErrorView> {
    match r {
        Ok(text) => Ok(text@),
        Err(error) => Err(error@),
    }
}

/// `s` without the whitespace at its two ends.
pub open spec fn trim(s: Seq<char>) -> Seq<char> {
    trim_end(trim_start(s))
}

/// The lines `all`, each without the whitespace at its ends, the empty ones
/// left out, with a line feed between one and the next.
pub open spec fn squeezed(all: Seq<Seq<char>>) -> Seq<char>
    decreases all.len(),
{
    if all.len() == 0 {
        Seq::empty()
    } else {
        let head = squeezed(all.drop_last());
        let last = trim(all.last());
        if last.len() == 0 {
            head
        } else if head.len() == 0 {
            last
        } else {
            head + seq!['\n'] + last
        }
    }
}

/// `code` without its comments: a line comment is dropped, and a block
/// comment that lies on one line becomes a line feed.
pub open spec fn without_comments(code: Seq<char>) -> Result<Seq<char>, MinifyErrorView> {
    if !regex_compiles(LINE_COMMENT@) {
        Err(MinifyErrorView::InvalidPattern { pattern: LINE_COMMENT@ })
    } else if !regex_compiles(BLOCK_COMMENT@) {
        Err(MinifyErrorView::InvalidPattern { pattern: BLOCK_COMMENT@ })
    } else {
        Ok(replaced_all(BLOCK_COMMENT@, replaced_all(LINE_COMMENT@, code, ""@), "\n"@))
    }
}

/// An identifier and the short name that stands for it.
#[derive(Debug, Clone)]
pub struct Renaming {
    pub name: String,
    pub short: String,
}

/// The short names given so far, in the order in which they were given, and
/// the number of the next one.
pub struct Names {
    pub pairs: Vec<Renaming>,
    pub next: usize,
}

/// The names as a mathematical value.
pub struct NamesView {
    pub pairs: Seq<(Seq<char>, Seq<char>)>,
    pub next: nat,
}

impl View for Names {
    type V = NamesView;

    open spec fn view(&self) -> NamesView {
        NamesView {
            pairs: Seq::new(self.pairs@.len(), |i: int| (self.pairs@[i].name@, self.pairs@[i].short@)),
            next: self.next as nat,
        }
    }
}

/// The short name of `name` among the first `upto` of `pairs`, if it has
/// one.
pub open spec fn lookup(pairs: Seq<(Seq<char>, Seq<char>)>, name: Seq<char>, upto: nat) -> Option<
    Seq<char>,
>
    decreases upto,
{
    if upto == 0 || upto > pairs.len() {
        None
    } else {
        match lookup(pairs, name, (upto - 1) as nat) {
            Some(short) => Some(short),
            None => if pairs[upto - 1].0 == name {
                Some(pairs[upto - 1].1)
            } else {
                None
            },
        }
    }
}

/// The short name of `name`, and the names after it was asked for. An
/// identifier without a short name gets the next one: `v` and a number.
pub open spec fn name_for(names: NamesView, name: Seq<char>) -> Result<
    (Seq<char>, NamesView),
    MinifyErrorView,
> {
    match lookup(names.pairs, name, names.pairs.len()) {
        Some(short) => Ok((short, names)),
        None => if names.next >= usize::MAX {
            Err(MinifyErrorView::TooManyIdentifiers)
        } else {
            let short = "v"@ + decimal(names.next);
            Ok((short, NamesView { pairs: names.pairs.push((name, short)), next: names.next + 1 }))
        },
    }
}

/// The text of a group, empty where the group took no part in the match.
pub open spec fn group(text: Option<Seq<char>>) -> Seq<char> {
    match text {
        Some(text) => text,
        None => Seq::empty(),
    }
}

/// Puts a text together from the parts between the matches of a pattern and
/// what replaces the matches from match `i` on: the first group of the
/// match, a space and the short name of its second group.
pub open spec fn renamed(
    parts: Seq<Seq<char>>,
    found: Seq<CaptureView>,
    i: nat,
    names: NamesView,
    acc: Seq<char>,
) -> Result<(Seq<char>, NamesView), MinifyErrorView>
    decreases found.len() - i,
{
    if i >= found.len() {
        Ok((acc, names))
    } else {
        match name_for(names, group(found[i as int].second)) {
            Err(error) => Err(error),
            Ok((short, next)) => renamed(
                parts,
                found,
                i + 1,
                next,
                acc + group(found[i as int].first) + seq![' '] + short + parts[i as int + 1],
            ),
        }
    }
}

/// `text` with the name in every match of `pattern` replaced by its short
/// name.
pub open spec fn renamed_all(pattern: Seq<char>, text: Seq<char>, names: NamesView) -> Result<
    (Seq<char>, NamesView),
    MinifyErrorView,
> {
    let parts = split_by(pattern, text);
    let found = captures_of(pattern, text);
    if parts.len() != found.len() + 1 {
        Ok((text, names))
    } else {
        renamed(parts, found, 0, names, parts[0])
    }
}

/// The text that stands in for string literal `i` while names are replaced.
pub open spec fn placeholder(i: nat) -> Seq<char> {
    "__STRING_LITERAL_"@ + decimal(i)
}

/// `text` with the string literals from `i` on replaced by their
/// placeholders.
pub open spec fn hidden(text: Seq<char>, literals: Seq<CaptureView>, i: nat) -> Seq<char>
    decreases literals.len() - i,
{
    if i >= literals.len() {
        text
    } else {
        hidden(replaced_text(text, literals[i as int].whole, placeholder(i)), literals, i + 1)
    }
}

/// `text` with the placeholders from `i` on replaced by their string
/// literals.
pub open spec fn restored(text: Seq<char>, literals: Seq<CaptureView>, i: nat) -> Seq<char>
    decreases literals.len() - i,
{
    if i >= literals.len() {
        text
    } else {
        restored(replaced_text(text, placeholder(i), literals[i as int].whole), literals, i + 1)
    }
}

/// The pattern that matches `name` as a whole word.
pub open spec fn word_pattern(name: Seq<char>) -> Seq<char> {
    r"\b"@ + escaped(name) + r"\b"@
}

/// `text` with every identifier from pair `i` on replaced by its short name,
/// wherever it stands as a whole word.
pub open spec fn applied(text: Seq<char>, pairs: Seq<(Seq<char>, Seq<char>)>, i: nat) -> Result<
    Seq<char>,
    MinifyErrorView,
>
    decreases pairs.len() - i,
{
    if i >= pairs.len() {
        Ok(text)
    } else {
        let pattern = word_pattern(pairs[i as int].0);
        if !regex_compiles(pattern) {
            Err(MinifyErrorView::InvalidPattern { pattern })
        } else {
            applied(replaced_all(pattern, text, pairs[i as int].1), pairs, i + 1)
        }
    }
}

/// One line with its identifiers shortened. An `#include` line stays as it
/// is. On any other line the string literals are set aside; unless the line
/// holds `main`, the names that it declares get short names; every name
/// that has a short name is replaced by it; the string literals come back.
#[verifier::opaque]
pub open spec fn shortened_line(line: Seq<char>, names: NamesView) -> Result<
    (Seq<char>, NamesView),
    MinifyErrorView,
> {
    if starts_with(line, "#include"@) {
        Ok((line, names))
    } else {
        let literals = captures_of(STRING_LITERAL@, line);
        let bare = hidden(line, literals, 0);
        let declared = if contains_text(line, "main"@) {
            Ok((bare, names))
        } else {
            match renamed_all(VAR_DECL@, bare, names) {
                Err(error) => Err(error),
                Ok((text, next)) => renamed_all(FUNC_PARAM@, text, next),
            }
        };
        match declared {
            Err(error) => Err(error),
            Ok((text, next)) => match applied(text, next.pairs, 0) {
                Err(error) => Err(error),
                Ok(text) => Ok((restored(text, literals, 0), next)),
            },
        }
    }
}

/// The lines from `i` on with their identifiers shortened, each followed by
/// a line feed, after `acc`.
pub open spec fn shortened_lines(all: Seq<Seq<char>>, i: nat, names: NamesView, acc: Seq<char>) -> Result<
    Seq<char>,
    MinifyErrorView,
>
    decreases all.len() - i,
{
    if i >= all.len() {
        Ok(acc)
    } else {
        match shortened_line(all[i as int], names) {
            Err(error) => Err(error),
            Ok((line, next)) => shortened_lines(all, i + 1, next, acc + line + seq!['\n']),
        }
    }
}

/// `code` with its identifiers shortened, line by line. The short names are
/// numbered from 0 in the order in which the names are met.
pub open spec fn shortened(code: Seq<char>) -> Result<Seq<char>, MinifyErrorView> {
    if !regex_compiles(VAR_DECL@) {
        Err(MinifyErrorView::InvalidPattern { pattern: VAR_DECL@ })
    } else if !regex_compiles(FUNC_PARAM@) {
        Err(MinifyErrorView::InvalidPattern { pattern: FUNC_PARAM@ })
    } else if !regex_compiles(STRING_LITERAL@) {
        Err(MinifyErrorView::InvalidPattern { pattern: STRING_LITERAL@ })
    } else {
        shortened_lines(lines(code), 0, NamesView { pairs: Seq::empty(), next: 0 }, Seq::empty())
    }
}

impl Names {
    /// No short name is given yet.
    pub fn new() -> (names: Self)
        ensures
            names@ == (NamesView { pairs: Seq::empty(), next: 0 }),
    {
        let names = Names { pairs: Vec::new(), next: 0 };
        assert(names@.pairs =~= Seq::empty());
        names
    }

    /// The short name of `name`; it is made and remembered where the
    /// identifier has none.
    pub fn name_for(&mut self, name: &str) -> (r: Result<String, MinifyError>)
        ensures
            match name_for(old(self)@, name@) {
                Ok((short, names)) => r matches Ok(text) && text@ == short && final(self)@ == names,
                Err(error) => r matches Err(e) && e@ == error,
            },
    {
        let ghost pairs = self@.pairs;
        let mut i: usize = 0;
        while i < self.pairs.len()
            invariant
                i <= self.pairs.len(),
                *self == *old(self),
                pairs == self@.pairs,
                lookup(pairs, name@, i as nat).is_none(),
            decreases self.pairs.len() - i,
        {
            if crate::text::same_text(self.pairs[i].name.as_str(), name) {
                let short = self.pairs[i].short.clone();
                proof {
                    assert(pairs[i as int] == (self.pairs@[i as int].name@, self.pairs@[i as int].short@));
                    lemma_lookup_found(pairs, name@, i as nat, pairs.len());
                }
                return Ok(short);
            }
            proof {
                assert(pairs[i as int].0 == self.pairs@[i as int].name@);
            }
            i += 1;
        }
        if self.next >= usize::MAX {
            return Err(MinifyError::TooManyIdentifiers);
        }
        let mut short = String::from_str("v");
        short.append(to_decimal(self.next).as_str());
        self.pairs.push(Renaming { name: String::from_str(name), short: short.clone() });
        self.next += 1;
        proof {
            assert(self@.pairs == pairs.push((name@, short@)));
        }
        Ok(short)
    }
}

/// A short name that is found among the first pairs is the one that is
/// found among them all.
proof fn lemma_lookup_found(pairs: Seq<(Seq<char>, Seq<char>)>, name: Seq<char>, i: nat, upto: nat)
    requires
        i < upto <= pairs.len(),
        lookup(pairs, name, i).is_none(),
        pairs[i as int].0 == name,
    ensures
        lookup(pairs, name, upto) == Some(pairs[i as int].1),
    decreases upto,
{
    if upto > i + 1 {
        lemma_lookup_found(pairs, name, i, (upto - 1) as nat);
    }
}

/// The text of a group, empty where the group took no part in the match.
fn group_text(text: &Option<String>) -> (out: &str)
    ensures
        out@ == group(crate::text::text_of(*text)),
{
    match text {
        Some(text) => text.as_str(),
        None => {
            let empty = "";
            proof {
                reveal_strlit("");
            }
            empty
        },
    }
}

/// `text` with the name in every match of `re` replaced by its short name.
#[verifier::loop_isolation(false)]
fn rename_all(re: &regex::Regex, text: &str, names: &mut Names) -> (r: Result<String, MinifyError>)
    ensures
        match renamed_all(regex_pattern(*re), text@, old(names)@) {
            Ok((out, after)) => r matches Ok(s) && s@ == out && final(names)@ == after,
            Err(error) => r matches Err(e) && e@ == error,
        },
{
    let parts = regex_split(re, text);
    let found = regex_captures(re, text);
    if parts.len() == 0 || parts.len() - 1 != found.len() {
        return Ok(String::from_str(text));
    }
    let ghost part_views = texts(parts@);
    let ghost found_views = capture_views(found@);
    let ghost start = names@;
    let mut out = parts[0].clone();
    let mut i: usize = 0;
    while i < found.len()
        invariant
            i <= found.len(),
            parts.len() == found.len() + 1,
            part_views == texts(parts@),
            found_views == capture_views(found@),
            renamed(part_views, found_views, i as nat, names@, out@) == renamed(
                part_views,
                found_views,
                0,
                start,
                part_views[0],
            ),
        decreases found.len() - i,
    {
        assert(found_views[i as int] == found@[i as int]@);
        assert(part_views[i + 1] == parts@[i + 1]@);
        let ghost before = names@;
        let ghost acc = out@;
        let short = match names.name_for(group_text(&found[i].second)) {
            Ok(short) => short,
            Err(error) => {
                return Err(error);
            },
        };
        out.append(group_text(&found[i].first));
        out.push(' ');
        out.append(short.as_str());
        out.append(parts[i + 1].as_str());
        proof {
            assert(out@ == acc + group(found_views[i as int].first) + seq![' '] + short@
                + part_views[i + 1]);
        }
        i += 1;
    }
    Ok(out)
}

/// `text` with the string literals replaced by their placeholders.
fn hide_literals(text: &str, literals: &Vec<Capture>) -> (out: String)
    ensures
        out@ == hidden(text@, capture_views(literals@), 0),
{
    let ghost views = capture_views(literals@);
    let mut out = String::from_str(text);
    let mut i: usize = 0;
    while i < literals.len()
        invariant
            i <= literals.len(),
            views == capture_views(literals@),
            hidden(out@, views, i as nat) == hidden(text@, views, 0),
        decreases literals.len() - i,
    {
        assert(views[i as int] == literals@[i as int]@);
        let mut mark = String::from_str("__STRING_LITERAL_");
        mark.append(to_decimal(i).as_str());
        out = text_replace(out.as_str(), literals[i].whole.as_str(), mark.as_str());
        i += 1;
    }
    out
}

/// `text` with the placeholders replaced by their string literals.
fn restore_literals(text: &str, literals: &Vec<Capture>) -> (out: String)
    ensures
        out@ == restored(text@, capture_views(literals@), 0),
{
    let ghost views = capture_views(literals@);
    let mut out = String::from_str(text);
    let mut i: usize = 0;
    while i < literals.len()
        invariant
            i <= literals.len(),
            views == capture_views(literals@),
            restored(out@, views, i as nat) == restored(text@, views, 0),
        decreases literals.len() - i,
    {
        assert(views[i as int] == literals@[i as int]@);
        let mut mark = String::from_str("__STRING_LITERAL_");
        mark.append(to_decimal(i).as_str());
        out = text_replace(out.as_str(), mark.as_str(), literals[i].whole.as_str());
        i += 1;
    }
    out
}

/// `text` with every identifier that has a short name replaced by it,
/// wherever the identifier stands as a whole word.
pub fn apply_names(text: &str, names: &Names) -> (r: Result<String, MinifyError>)
    ensures
        text_result(r) == applied(text@, names@.pairs, 0),
{
    let ghost pairs = names@.pairs;
    let mut out = String::from_str(text);
    let mut i: usize = 0;
    while i < names.pairs.len()
        invariant
            i <= names.pairs.len(),
            pairs == names@.pairs,
            applied(out@, pairs, i as nat) == applied(text@, pairs, 0),
        decreases names.pairs.len() - i,
    {
        assert(pairs[i as int] == (names.pairs@[i as int].name@, names.pairs@[i as int].short@));
        let mut pattern = String::from_str(r"\b");
        pattern.append(regex_escape(names.pairs[i].name.as_str()).as_str());
        pattern.append(r"\b");
        let re = match regex_new(pattern.as_str()) {
            Ok(re) => re,
            Err(_) => {
                return Err(MinifyError::InvalidPattern { pattern });
            },
        };
        out = regex_replace_all(&re, out.as_str(), names.pairs[i].short.as_str());
        i += 1;
    }
    Ok(out)
}

/// One line with its identifiers shortened.
fn shorten_line(
    line: &str,
    var_decl: &regex::Regex,
    func_param: &regex::Regex,
    string_literal: &regex::Regex,
    names: &mut Names,
) -> (r: Result<String, MinifyError>)
    requires
        regex_pattern(*var_decl) == VAR_DECL@,
        regex_pattern(*func_param) == FUNC_PARAM@,
        regex_pattern(*string_literal) == STRING_LITERAL@,
    ensures
        match shortened_line(line@, old(names)@) {
            Ok((out, after)) => r matches Ok(s) && s@ == out && final(names)@ == after,
            Err(error) => r matches Err(e) && e@ == error,
        },
{
    reveal(shortened_line);
    if text_starts_with(line, "#include") {
        return Ok(String::from_str(line));
    }
    let literals = regex_captures(string_literal, line);
    let mut bare = hide_literals(line, &literals);
    if !text_contains(line, "main") {
        bare = match rename_all(var_decl, bare.as_str(), names) {
            Ok(text) => text,
            Err(error) => {
                return Err(error);
            },
        };
        bare = match rename_all(func_param, bare.as_str(), names) {
            Ok(text) => text,
            Err(error) => {
                return Err(error);
            },
        };
    }
    let bare = match apply_names(bare.as_str(), names) {
        Ok(text) => text,
        Err(error) => {
            return Err(error);
        },
    };
    Ok(restore_literals(bare.as_str(), &literals))
}

/// Compiles `pattern`.
fn compile(pattern: &str) -> (r: Result<regex::Regex, MinifyError>)
    ensures
        r.is_ok() == regex_compiles(pattern@),
        r matches Ok(re) ==> regex_pattern(re) == pattern@,
        r matches Err(e) ==> e@ == (MinifyErrorView::InvalidPattern { pattern: pattern@ }),
{
    match regex_new(pattern) {
        Ok(re) => Ok(re),
        Err(_) => Err(MinifyError::InvalidPattern { pattern: String::from_str(pattern) }),
    }
}

impl Minify {
    /// Whether comments are dropped.
    pub closed spec fn removes_comments(&self) -> bool {
        self.remove_comments
    }

    /// Whether whitespace is squeezed.
    pub closed spec fn removes_whitespace(&self) -> bool {
        self.remove_whitespace
    }

    /// Whether identifiers are shortened.
    pub closed spec fn shortens_identifiers(&self) -> bool {
        self.shorten_identifiers
    }

    /// A minifier that does what the switches say.
    pub fn new(remove_comments: bool, remove_whitespace: bool, shorten_identifiers: bool) -> (m:
        Self)
        ensures
            m.removes_comments() == remove_comments,
            m.removes_whitespace() == remove_whitespace,
            m.shortens_identifiers() == shorten_identifiers,
    {
        Minify { remove_comments, remove_whitespace, shorten_identifiers }
    }

    /// What `minify` makes of `code`: the comments are dropped, then the
    /// whitespace is squeezed, then the identifiers are shortened, each only
    /// where it is asked for.
    pub open spec fn minified(&self, code: Seq<char>) -> Result<Seq<char>, MinifyErrorView> {
        let first = if self.removes_comments() {
            without_comments(code)
        } else {
            Ok(code)
        };
        match first {
            Err(error) => Err(error),
            Ok(text) => {
                let second = if self.removes_whitespace() {
                    squeezed(lines(text))
                } else {
                    text
                };
                if self.shortens_identifiers() {
                    shortened(second)
                } else {
                    Ok(second)
                }
            },
        }
    }

    /// Shrinks `code`. Fails only where the crate refuses one of the
    /// patterns, or where the short names run out.
    pub fn minify(&self, code: &str) -> (r: Result<String, MinifyError>)
        ensures
            text_result(r) == self.minified(code@),
    {
        let mut minified_code = String::from_str(code);
        if self.remove_comments {
            minified_code = match self.remove_comments(minified_code.as_str()) {
                Ok(text) => text,
                Err(error) => {
                    return Err(error);
                },
            };
        }
        if self.remove_whitespace {
            minified_code = self.remove_whitespace(minified_code.as_str());
        }
        if self.shorten_identifiers {
            minified_code = match self.shorten_identifiers(minified_code.as_str()) {
                Ok(text) => text,
                Err(error) => {
                    return Err(error);
                },
            };
        }
        Ok(minified_code)
    }

    /// `code` without its comments.
    pub fn remove_comments(&self, code: &str) -> (r: Result<String, MinifyError>)
        ensures
            text_result(r) == without_comments(code@),
    {
        let single_line = match compile(LINE_COMMENT) {
            Ok(re) => re,
            Err(error) => {
                return Err(error);
            },
        };
        let block = match compile(BLOCK_COMMENT) {
            Ok(re) => re,
            Err(error) => {
                return Err(error);
            },
        };
        let code = regex_replace_all(&single_line, code, "");
        Ok(regex_replace_all(&block, code.as_str(), "\n"))
    }

    /// The lines of `code` without the whitespace at their ends, the empty
    /// ones left out.
    pub fn remove_whitespace(&self, code: &str) -> (out: String)
        ensures
            out@ == squeezed(lines(code@)),
    {
        let chars = to_chars(code);
        let bounds = split_lines(&chars);
        let ghost all = lines(code@);
        let mut out = String::new();
        let mut any = false;
        let mut i: usize = 0;
        while i < bounds.len()
            invariant
                i <= bounds.len(),
                chars@ == code@,
                all == lines(code@),
                windows_fit(bounds@, chars@.len()),
                windows(chars@, bounds@) == all,
                out@ == squeezed(all.take(i as int)),
                any == (out@.len() > 0),
            decreases bounds.len() - i,
        {
            let (start, end) = bounds[i];
            assert(all[i as int] == chars@.subrange(start as int, end as int));
            let from = scan(&chars, start, end, CharClass::Whitespace);
            let cut = trim_end_at(&chars, from, end);
            proof {
                assert(all.take(i + 1).drop_last() == all.take(i as int));
                assert(all.take(i + 1).last() == all[i as int]);
                assert(trim_start(all[i as int]) == chars@.subrange(from as int, end as int));
                assert(trim(all[i as int]) == chars@.subrange(from as int, cut as int));
            }
            if cut > from {
                if any {
                    out.push('\n');
                }
                append_range(&mut out, &chars, from, cut);
                any = true;
            }
            i += 1;
        }
        proof {
            assert(all.take(all.len() as int) == all);
        }
        out
    }

    /// `code` with its identifiers shortened.
    #[verifier::loop_isolation(false)]
    pub fn shorten_identifiers(&self, code: &str) -> (r: Result<String, MinifyError>)
        ensures
            text_result(r) == shortened(code@),
    {
        let var_decl = match compile(VAR_DECL) {
            Ok(re) => re,
            Err(error) => {
                return Err(error);
            },
        };
        let func_param = match compile(FUNC_PARAM) {
            Ok(re) => re,
            Err(error) => {
                return Err(error);
            },
        };
        let string_literal = match compile(STRING_LITERAL) {
            Ok(re) => re,
            Err(error) => {
                return Err(error);
            },
        };
        let chars = to_chars(code);
        let bounds = split_lines(&chars);
        let ghost all = lines(code@);
        let mut names = Names::new();
        let mut out = String::new();
        let mut i: usize = 0;
        while i < bounds.len()
            invariant
                i <= bounds.len(),
                chars@ == code@,
                all == lines(code@),
                windows_fit(bounds@, chars@.len()),
                windows(chars@, bounds@) == all,
                regex_pattern(var_decl) == VAR_DECL@,
                regex_pattern(func_param) == FUNC_PARAM@,
                regex_pattern(string_literal) == STRING_LITERAL@,
                shortened_lines(all, i as nat, names@, out@) == shortened_lines(
                    all,
                    0,
                    NamesView { pairs: Seq::empty(), next: 0 },
                    Seq::empty(),
                ),
            decreases bounds.len() - i,
        {
            let (start, end) = bounds[i];
            assert(all[i as int] == chars@.subrange(start as int, end as int));
            let mut line = String::new();
            append_range(&mut line, &chars, start, end);
            assert(line@ == all[i as int]);
            let ghost before = names@;
            let ghost acc = out@;
            let short = match shorten_line(
                line.as_str(),
                &var_decl,
                &func_param,
                &string_literal,
                &mut names,
            ) {
                Ok(text) => text,
                Err(error) => {
                    return Err(error);
                },
            };
            out.append(short.as_str());
            out.push('\n');
            proof {
                assert(out@ == acc + short@ + seq!['\n']);
                assert(shortened_line(all[i as int], before) == Ok::<
                    (Seq<char>, NamesView),
                    MinifyErrorView,
                >((short@, names@)));
            }
            i += 1;
        }
        Ok(out)
    }
}

} // verus!
