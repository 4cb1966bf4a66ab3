//! The header: a text of the user's that is put in front of the bundle.

use crate::text::{append_range, to_chars, trim_end, trim_end_at};
use vstd::prelude::*;
use vstd::string::StringExecFns;

verus! {

/// Where the header's text comes from.
#[derive(Debug, Clone, PartialEq, Eq)]
pub enum HeaderSource {
    /// The text itself.
    Text(String),
    /// The path of a file that holds the text.
    File(String),
}

/// The stage that puts the header in front of the bundle.
#[derive(Debug, Clone)]
pub struct Header {
    pub source: HeaderSource,
}

/// `code` under the header `text`: the text without its trailing whitespace,
/// an empty line, then the code.
pub open spec fn with_header(text: Seq<char>, code: Seq<char>) -> Seq<char> {
    trim_end(text) + seq!['\n', '\n'] + code
}

impl HeaderSource {
    /// The file that holds the header's text, if a file does.
    pub fn file(&self) -> (path: Option<&String>)
        ensures
            path == match self {
                HeaderSource::Text(_) => None::<&String>,
                HeaderSource::File(path) => Some(path),
            },
    {
        match self {
            HeaderSource::Text(_) => None,
            HeaderSource::File(path) => Some(path),
        }
    }

    /// The header's text, where `loaded` is what the file holds if a file
    /// holds the text.
    pub fn get<'a>(&'a self, loaded: &'a str) -> (text: &'a str)
        ensures
            text@ == match self {
                HeaderSource::Text(text) => text@,
                HeaderSource::File(_) => loaded@,
            },
    {
        match self {
            HeaderSource::Text(text) => text.as_str(),
            HeaderSource::File(_) => loaded,
        }
    }
}

impl Header {
    /// The name of the stage.
    pub fn name() -> (name: &'static str)
        ensures
            name@ == "header"@,
    {
        "header"
    }

    /// Puts the header in front of `code`. `loaded` is what the header's
    /// file holds, and is not looked at where the header is a text.
    pub fn process(&self, loaded: &str, code: &str) -> (out: String)
        ensures
            out@ == with_header(
                match self.source {
                    HeaderSource::Text(text) => text@,
                    HeaderSource::File(_) => loaded@,
                },
                code@,
            ),
    {
        let text = to_chars(self.source.get(loaded));
        let cut = trim_end_at(&text, 0, text.len());
        let mut out = String::new();
        append_range(&mut out, &text, 0, cut);
        out.push('\n');
        out.push('\n');
        out.append(code);
        proof {
            assert(text@.subrange(0, text@.len() as int) == text@);
            assert(out@ == trim_end(text@) + seq!['\n', '\n'] + code@);
        }
        out
    }
}

} // verus!
