//! Regular expressions, as the `regex` crate runs them, on patterns and texts
//! held as strings.

use vstd::prelude::*;

verus! {

/// `regex::Regex`, a compiled pattern, taken as it is.
#[verifier::external_type_specification]
#[verifier::external_body]
pub struct ExRegex(regex::Regex);

/// `regex::Error`, the reason why a pattern does not compile, taken as it
/// is.
#[verifier::external_type_specification]
#[verifier::external_body]
pub struct ExRegexError(regex::Error);

/// What one match of a pattern holds: the text of the whole match, and the
/// texts of the first two groups where they took part in it.
#[derive(Debug, Clone)]
pub struct Capture {
    pub whole: String,
    pub first: Option<String>,
    pub second: Option<String>,
}

/// A capture as a mathematical value.
pub struct CaptureView {
    pub whole: Seq<char>,
    pub first: Option<Seq<char>>,
    pub second: Option<Seq<char>>,
}

impl View for Capture {
    type V = CaptureView;

    open spec fn view(&self) -> CaptureView {
        CaptureView {
            whole: self.whole@,
            first: crate::text::text_of(self.first),
            second: crate::text::text_of(self.second),
        }
    }
}

/// The views of a sequence of captures.
pub open spec fn capture_views(s: Seq<Capture>) -> Seq<CaptureView> {
    Seq::new(s.len(), |i: int| s[i]@)
}

/// Whether `pattern` is a regular expression that the crate compiles.
pub uninterp spec fn regex_compiles(pattern: Seq<char>) -> bool;

/// The pattern that a compiled expression was made from.
pub uninterp spec fn regex_pattern(re: regex::Regex) -> Seq<char>;

/// `text` with every match of `pattern`, from left to right and without
/// overlap, replaced by `replacement`, in which `$` refers to groups.
pub uninterp spec fn replaced_all(pattern: Seq<char>, text: Seq<char>, replacement: Seq<char>) -> Seq<
    char,
>;

/// The parts of `text` that lie between the matches of `pattern`.
pub uninterp spec fn split_by(pattern: Seq<char>, text: Seq<char>) -> Seq<Seq<char>>;

/// The matches of `pattern` in `text`, from left to right and without
/// overlap.
pub uninterp spec fn captures_of(pattern: Seq<char>, text: Seq<char>) -> Seq<CaptureView>;

/// Whether `c` has a meaning of its own in a pattern.
pub open spec fn is_meta_character(c: char) -> bool {
    c == '\\' || c == '.' || c == '+' || c == '*' || c == '?' || c == '(' || c == ')' || c == '|'
        || c == '[' || c == ']' || c == '{' || c == '}' || c == '^' || c == '$' || c == '#'
        || c == '&' || c == '-' || c == '~'
}

/// `text` with a backslash before every character that has a meaning of its
/// own in a pattern.
pub open spec fn escaped(text: Seq<char>) -> Seq<char>
    decreases text.len(),
{
    if text.len() == 0 {
        Seq::empty()
    } else if is_meta_character(text.last()) {
        escaped(text.drop_last()).push('\\').push(text.last())
    } else {
        escaped(text.drop_last()).push(text.last())
    }
}

/// `Regex::new` compiles a pattern or refuses it; which of the two depends
/// on the pattern alone, and the compiled expression stands for the pattern.
#[verifier::external_body]
pub(crate) fn regex_new(pattern: &str) -> (r: Result<regex::Regex, regex::Error>)
    ensures
        r.is_ok() == regex_compiles(pattern@),
        r matches Ok(re) ==> regex_pattern(re) == pattern@,
{
    regex::Regex::new(pattern)
}

/// `Regex::replace_all` with a text as the replacement; what comes out
/// depends on the pattern, the text and the replacement alone.
#[verifier::external_body]
pub(crate) fn regex_replace_all(re: &regex::Regex, text: &str, replacement: &str) -> (out: String)
    ensures
        out@ == replaced_all(regex_pattern(*re), text@, replacement@),
{
    re.replace_all(text, replacement).into_owned()
}

/// `Regex::split` gives the parts of the text between the matches, in
/// order; they depend on the pattern and the text alone.
#[verifier::external_body]
pub(crate) fn regex_split(re: &regex::Regex, text: &str) -> (parts: Vec<String>)
    ensures
        crate::text::texts(parts@) == split_by(regex_pattern(*re), text@),
{
    re.split(text).map(|part| part.to_string()).collect()
}

/// `Regex::captures_iter` gives the matches in order; they depend on the
/// pattern and the text alone.
#[verifier::external_body]
pub(crate) fn regex_captures(re: &regex::Regex, text: &str) -> (found: Vec<Capture>)
    ensures
        capture_views(found@) == captures_of(regex_pattern(*re), text@),
{
    re.captures_iter(text).map(
        |caps| Capture {
            whole: caps[0].to_string(),
            first: caps.get(1).map(|m| m.as_str().to_string()),
            second: caps.get(2).map(|m| m.as_str().to_string()),
        },
    ).collect()
}

/// `regex::escape` copies the text and puts a backslash before each of the
/// characters `\ . + * ? ( ) | [ ] { } ^ $ # & - ~`.
#[verifier::external_body]
pub(crate) fn regex_escape(text: &str) -> (out: String)
    ensures
        out@ == escaped(text@),
{
    regex::escape(text)
}

} // verus!
