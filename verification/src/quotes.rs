//! The quotes that a banner may carry: a few that are built in, and those
//! that the user supplies.

use crate::text::{append_range, lines, split_lines, texts, to_chars, trim_end, trim_end_at, windows};
use vstd::prelude::*;
use vstd::string::StringExecFns;

verus! {

/// Which quotes a banner is picked from.
#[derive(Debug, Clone, Copy, PartialEq, Eq, Structural)]
pub enum QuotePicker {
    /// The built-in quotes and the user's.
    All,
    /// The user's quotes; the built-in ones where the user has none.
    Custom,
    /// The built-in quotes.
    Builtin,
}

/// A quote that the user supplies.
#[derive(Debug, Clone)]
pub struct CustomQuote {
    /// The text; it may span lines.
    pub text: String,
    pub author: String,
}

/// A quote as a mathematical value.
pub struct QuoteView {
    pub lines: Seq<Seq<char>>,
    pub author: Seq<char>,
}

/// The number of built-in quotes.
pub const BUILT_IN_COUNT: usize = 4;

/// The built-in quote with index `i`.
pub open spec fn built_in_quote(i: int) -> QuoteView {
    if i == 0 {
        QuoteView { lines: seq!["Talk is cheap. Show me the code."@], author: "Linus Torvalds"@ }
    } else if i == 1 {
        QuoteView {
            lines: seq![
                "Programs must be written for people to read,"@,
                "and only incidentally for machines to execute."@,
            ],
            author: "Harold Abelson"@,
        }
    } else if i == 2 {
        QuoteView {
            lines: seq!["Premature optimization is the root of all evil."@],
            author: "Donald Knuth"@,
        }
    } else {
        QuoteView {
            lines: seq!["Simplicity is prerequisite for reliability."@],
            author: "Edsger W. Dijkstra"@,
        }
    }
}

/// The lines of a user's text: each line of the text without its trailing
/// whitespace.
pub open spec fn custom_lines(text: Seq<char>) -> Seq<Seq<char>> {
    Seq::new(lines(text).len(), |i: int| trim_end(lines(text)[i]))
}

/// Where a quote comes from.
pub enum QuoteInner<'a> {
    Builtin(usize),
    Custom(&'a CustomQuote),
}

/// The lines and the author of the quote that comes from `origin`.
pub open spec fn quote_of(origin: QuoteInner<'_>) -> QuoteView {
    match origin {
        QuoteInner::Builtin(i) => built_in_quote(i as int),
        QuoteInner::Custom(quote) => QuoteView {
            lines: custom_lines(quote.text@),
            author: quote.author@,
        },
    }
}

/// A quote: a built-in one, or one of the user's.
pub struct Quote<'a> {
    inner: QuoteInner<'a>,
}

impl<'a> Quote<'a> {
    /// A built-in quote has one of the built-in indices.
    #[verifier::type_invariant]
    pub closed spec fn wf(&self) -> bool {
        self.inner matches QuoteInner::Builtin(i) ==> i < BUILT_IN_COUNT
    }

    /// Where the quote comes from.
    pub closed spec fn origin(&self) -> QuoteInner<'a> {
        self.inner
    }

    /// The quote's lines and author.
    pub open spec fn view(&self) -> QuoteView {
        quote_of(self.origin())
    }

    /// The lines of the quote, one by one.
    pub fn lines(&self) -> (it: QuoteLinesIter)
        ensures
            it@ == self@.lines,
    {
        proof {
            use_type_invariant(self);
        }
        let all = match self.inner {
            QuoteInner::Builtin(i) => built_in_lines(i),
            QuoteInner::Custom(quote) => split_trimmed(quote.text.as_str()),
        };
        let it = QuoteLinesIter { lines: all, pos: 0 };
        assert(it@ == self@.lines);
        it
    }

    /// The author of the quote.
    pub fn author(&self) -> (author: &str)
        ensures
            author@ == self@.author,
    {
        proof {
            use_type_invariant(self);
        }
        match self.inner {
            QuoteInner::Builtin(i) => built_in_author(i),
            QuoteInner::Custom(quote) => quote.author.as_str(),
        }
    }
}

/// The lines of the built-in quote with index `i`.
fn built_in_lines(i: usize) -> (all: Vec<String>)
    requires
        i < BUILT_IN_COUNT,
    ensures
        texts(all@) == built_in_quote(i as int).lines,
{
    let mut all: Vec<String> = Vec::new();
    if i == 0 {
        all.push(String::from_str("Talk is cheap. Show me the code."));
    } else if i == 1 {
        all.push(String::from_str("Programs must be written for people to read,"));
        all.push(String::from_str("and only incidentally for machines to execute."));
    } else if i == 2 {
        all.push(String::from_str("Premature optimization is the root of all evil."));
    } else {
        all.push(String::from_str("Simplicity is prerequisite for reliability."));
    }
    assert(texts(all@) == built_in_quote(i as int).lines);
    all
}

/// The author of the built-in quote with index `i`.
fn built_in_author(i: usize) -> (author: &'static str)
    requires
        i < BUILT_IN_COUNT,
    ensures
        author@ == built_in_quote(i as int).author,
{
    if i == 0 {
        "Linus Torvalds"
    } else if i == 1 {
        "Harold Abelson"
    } else if i == 2 {
        "Donald Knuth"
    } else {
        "Edsger W. Dijkstra"
    }
}

/// The lines of `text`, each without its trailing whitespace.
fn split_trimmed(text: &str) -> (all: Vec<String>)
    ensures
        texts(all@) == custom_lines(text@),
{
    let chars = to_chars(text);
    let bounds = split_lines(&chars);
    let mut all: Vec<String> = Vec::new();
    let mut i: usize = 0;
    while i < bounds.len()
        invariant
            i <= bounds.len(),
            chars@ == text@,
            crate::text::windows_fit(bounds@, chars@.len()),
            windows(chars@, bounds@) == lines(text@),
            all.len() == i,
            forall|k: int| 0 <= k < i ==> (#[trigger] all[k])@ == trim_end(lines(text@)[k]),
        decreases bounds.len() - i,
    {
        let (start, end) = bounds[i];
        assert(lines(text@)[i as int] == chars@.subrange(start as int, end as int));
        let cut = trim_end_at(&chars, start, end);
        let mut line = String::new();
        append_range(&mut line, &chars, start, cut);
        all.push(line);
        i += 1;
    }
    assert(texts(all@) == custom_lines(text@));
    all
}

/// A pass over the lines of a quote.
pub struct QuoteLinesIter {
    lines: Vec<String>,
    pos: usize,
}

impl QuoteLinesIter {
    /// The position lies within the lines.
    #[verifier::type_invariant]
    pub closed spec fn wf(&self) -> bool {
        self.pos <= self.lines.len()
    }

    /// The lines that are still to come.
    pub closed spec fn view(&self) -> Seq<Seq<char>> {
        texts(self.lines@).skip(self.pos as int)
    }

    /// The next line, if one is left.
    pub fn next(&mut self) -> (line: Option<String>)
        ensures
            match line {
                Some(text) => old(self)@.len() > 0 && text@ == old(self)@[0] && final(self)@
                    == old(self)@.drop_first(),
                None => old(self)@.len() == 0 && final(self)@ == old(self)@,
            },
    {
        proof {
            use_type_invariant(&*self);
        }
        if self.pos < self.lines.len() {
            let text = self.lines[self.pos].clone();
            self.pos += 1;
            Some(text)
        } else {
            None
        }
    }

    /// The bounds on the number of lines that are still to come: both are
    /// that number.
    pub fn size_hint(&self) -> (r: (usize, Option<usize>))
        ensures
            r.0 == self@.len(),
            r.1 == Some(r.0),
    {
        proof {
            use_type_invariant(self);
        }
        let n = self.lines.len() - self.pos;
        (n, Some(n))
    }
}

/// The quotes at hand, and how one of them is picked.
#[derive(Debug, Clone)]
pub struct Quotes {
    /// Whether the pick is always the first quote that is eligible.
    pub deterministic: bool,
    pub picker: QuotePicker,
    pub custom_quotes: Vec<CustomQuote>,
}

/// `IteratorRandom::choose` on the range `0..n`: one of its numbers, chosen at
/// random, and `None` exactly where the range is empty.
#[verifier::external_body]
fn choose_random(n: usize) -> (choice: Option<usize>)
    ensures
        choice.is_none() <==> n == 0,
        choice matches Some(i) ==> i < n,
{
    rand::seq::IteratorRandom::choose(0..n, &mut rand::thread_rng())
}

impl Quotes {
    /// Whether a pick among the built-in quotes may come from `origin`.
    pub open spec fn offers_built_in(&self, origin: QuoteInner<'_>) -> bool {
        origin matches QuoteInner::Builtin(i) && i < BUILT_IN_COUNT && (self.deterministic ==> i
            == 0)
    }

    /// Whether a pick among the user's quotes may come from `origin`.
    pub open spec fn offers_custom(&self, origin: QuoteInner<'_>) -> bool {
        origin matches QuoteInner::Custom(quote) && if self.deterministic {
            self.custom_quotes.len() > 0 && *quote == self.custom_quotes[0]
        } else {
            self.custom_quotes@.contains(*quote)
        }
    }

    /// Whether `random` may return a quote that comes from `origin`. A
    /// deterministic pick is the first built-in quote, or the user's first
    /// quote where only the user's are asked for and there is one.
    pub open spec fn offers(&self, origin: QuoteInner<'_>) -> bool {
        match self.picker {
            QuotePicker::All => self.offers_built_in(origin) || (!self.deterministic
                && self.offers_custom(origin)),
            QuotePicker::Builtin => self.offers_built_in(origin),
            QuotePicker::Custom => if self.custom_quotes.len() == 0 {
                self.offers_built_in(origin)
            } else {
                self.offers_custom(origin)
            },
        }
    }

    /// The built-in quote with index `i`.
    pub fn built_in_at(i: usize) -> (quote: Quote<'static>)
        requires
            i < BUILT_IN_COUNT,
        ensures
            quote.origin() == QuoteInner::Builtin(i),
    {
        Quote { inner: QuoteInner::Builtin(i) }
    }

    /// The user's quote with index `i`.
    pub fn custom_at(&self, i: usize) -> (quote: Quote<'_>)
        requires
            i < self.custom_quotes.len(),
        ensures
            quote.origin() == QuoteInner::Custom(&self.custom_quotes[i as int]),
    {
        Quote { inner: QuoteInner::Custom(&self.custom_quotes[i]) }
    }

    /// The quote with index `i` among the built-in quotes followed by the
    /// user's.
    pub fn any_at(&self, i: usize) -> (quote: Quote<'_>)
        requires
            i < BUILT_IN_COUNT + self.custom_quotes.len(),
        ensures
            quote.origin() == if i < BUILT_IN_COUNT {
                QuoteInner::Builtin(i)
            } else {
                QuoteInner::Custom(&self.custom_quotes[i - BUILT_IN_COUNT])
            },
    {
        if i < BUILT_IN_COUNT {
            Self::built_in_at(i)
        } else {
            self.custom_at(i - BUILT_IN_COUNT)
        }
    }

    /// A built-in quote: the first one if the pick is deterministic, else
    /// one chosen at random.
    fn get_builtin_quote(&self) -> (quote: Quote<'_>)
        ensures
            self.offers_built_in(quote.origin()),
    {
        if self.deterministic {
            Self::built_in_at(0)
        } else {
            Self::built_in_at(choose_random(BUILT_IN_COUNT).unwrap())
        }
    }

    /// One of the user's quotes, if there is any: the first one if the pick
    /// is deterministic, else one chosen at random.
    fn get_custom_quote(&self) -> (quote: Option<Quote<'_>>)
        ensures
            quote.is_some() <==> self.custom_quotes.len() > 0,
            quote matches Some(q) ==> self.offers_custom(q.origin()),
    {
        if self.deterministic {
            if self.custom_quotes.len() > 0 {
                Some(self.custom_at(0))
            } else {
                None
            }
        } else {
            match choose_random(self.custom_quotes.len()) {
                Some(i) => Some(self.custom_at(i)),
                None => None,
            }
        }
    }

    /// A quote of either sort: the first built-in one if the pick is
    /// deterministic, else one chosen at random among them all.
    fn get_any_quote(&self) -> (quote: Quote<'_>)
        ensures
            self.offers_built_in(quote.origin()) || (!self.deterministic && self.offers_custom(
                quote.origin(),
            )),
    {
        if self.deterministic || self.custom_quotes.len() > usize::MAX - BUILT_IN_COUNT {
            self.get_builtin_quote()
        } else {
            self.any_at(choose_random(BUILT_IN_COUNT + self.custom_quotes.len()).unwrap())
        }
    }

    /// Picks a quote as the picker asks.
    pub fn random(&self) -> (quote: Quote<'_>)
        ensures
            self.offers(quote.origin()),
    {
        match self.picker {
            QuotePicker::All => self.get_any_quote(),
            QuotePicker::Builtin => self.get_builtin_quote(),
            QuotePicker::Custom => match self.get_custom_quote() {
                Some(quote) => quote,
                None => self.get_builtin_quote(),
            },
        }
    }
}

} // verus!
