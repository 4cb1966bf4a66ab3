//! The banner: a comment at the top of the bundle with the program's name,
//! the time of the run and a quote.

use crate::quotes::{quote_of, Quote, QuoteInner, QuoteView, Quotes};
use vstd::prelude::*;
use vstd::string::StringExecFns;

verus! {

/// The stage that puts the banner in front of the bundle.
#[derive(Debug, Clone)]
pub struct Banner {
    pub quotes: Quotes,
    /// Whether the banner is the same on every run.
    pub deterministic: bool,
}

/// The least width of the banner's centred lines.
pub const MIN_WIDTH: usize = 56;

/// What the width of the centred lines exceeds their longest text by.
pub const PADDING: usize = 4;

/// `n` spaces.
pub open spec fn spaces(n: nat) -> Seq<char> {
    Seq::new(n, |i: int| ' ')
}

/// `text` centred in `width` columns: with spaces at both ends to make up
/// the width, one more at the right end where their number is odd. A text
/// that is wider stays as it is.
pub open spec fn centered(text: Seq<char>, width: nat) -> Seq<char> {
    if text.len() >= width {
        text
    } else {
        let pad = (width - text.len()) as nat;
        spaces(pad / 2) + text + spaces((pad - pad / 2) as nat)
    }
}

/// Appends `n` spaces to `out`.
fn push_spaces(out: &mut String, n: usize)
    ensures
        final(out)@ == old(out)@ + spaces(n as nat),
{
    let mut i: usize = 0;
    while i < n
        invariant
            i <= n,
            out@ == old(out)@ + spaces(i as nat),
        decreases n - i,
    {
        out.push(' ');
        proof {
            assert(spaces((i + 1) as nat) == spaces(i as nat).push(' '));
        }
        i += 1;
    }
}

/// `text` centred in `width` columns.
pub fn center(text: &str, width: usize) -> (out: String)
    ensures
        out@ == centered(text@, width as nat),
{
    let len = crate::text::to_chars(text).len();
    if len >= width {
        return String::from_str(text);
    }
    let pad = width - len;
    let mut out = String::new();
    push_spaces(&mut out, pad / 2);
    out.append(text);
    push_spaces(&mut out, pad - pad / 2);
    out
}

/// The picture at the head of the banner.
pub open spec fn art() -> Seq<Seq<char>> {
    seq![
        r#"         )                (    ("#@,
        r#"      ( /(    (           )\ ) )\"#@,
        r#"  (   )\())  ))\   (     (()/(((_)"#@,
        r#"  )\ ((_)\  /((_)  )\ )   ((_))_"#@,
        r#" ((_)| |(_)(_))(  _(_/(   _| || |"#@,
        r#"/ _| | '_ \| || || ' \))/ _` || |"#@,
        r#"\__| |_.__/ \_,_||_||_| \__,_||_|"#@,
    ]
}

/// The length of `text` in bytes of UTF-8, as `str::len` gives it.
pub open spec fn byte_len(text: Seq<char>) -> usize {
    vstd::utf8::encode_utf8(text).len() as usize
}

/// The greatest length in bytes among `lines`.
pub open spec fn max_byte_len(lines: Seq<Seq<char>>) -> usize
    decreases lines.len(),
{
    if lines.len() == 0 {
        0
    } else {
        let rest = max_byte_len(lines.drop_last());
        if byte_len(lines.last()) > rest {
            byte_len(lines.last())
        } else {
            rest
        }
    }
}

/// The greater of two numbers.
pub open spec fn larger(a: usize, b: usize) -> usize {
    if a > b {
        a
    } else {
        b
    }
}

/// The width of the banner's centred lines: the padding more than the
/// longest of the picture, the title and the repository, measured in bytes,
/// and than the least width; never more than a `usize` holds.
pub open spec fn banner_width(title: Seq<char>, repository: Seq<char>) -> nat {
    let widest = larger(
        larger(larger(MIN_WIDTH, max_byte_len(art())), byte_len(title)),
        byte_len(repository),
    );
    if widest + PADDING > usize::MAX {
        usize::MAX as nat
    } else {
        (widest + PADDING) as nat
    }
}

/// A line of the banner's comment.
pub open spec fn row(text: Seq<char>) -> Seq<char> {
    " * "@ + text + "\n"@
}

/// The lines of the comment that hold `lines`, one each.
pub open spec fn rows(lines: Seq<Seq<char>>) -> Seq<char>
    decreases lines.len(),
{
    if lines.len() == 0 {
        Seq::empty()
    } else {
        rows(lines.drop_last()) + row(lines.last())
    }
}

/// The lines of the comment that hold `lines`, one each, centred.
pub open spec fn centered_rows(lines: Seq<Seq<char>>, width: nat) -> Seq<char>
    decreases lines.len(),
{
    if lines.len() == 0 {
        Seq::empty()
    } else {
        centered_rows(lines.drop_last(), width) + row(centered(lines.last(), width))
    }
}

/// The banner: the picture, the title, the repository and the time of the
/// run, each centred, then the quote line by line and its author.
pub open spec fn banner_text(
    title: Seq<char>,
    repository: Seq<char>,
    generated_at: Seq<char>,
    quote: QuoteView,
) -> Seq<char> {
    let width = banner_width(title, repository);
    "/**\n"@ + " *\n"@ + centered_rows(art(), width) + " * \n"@ + row(centered(title, width))
        + row(centered(repository, width)) + " *\n"@ + row(
        centered("Generated at: "@ + generated_at, width),
    ) + " *\n"@ + " *\n"@ + rows(quote.lines) + " *   - "@ + quote.author + "\n"@ + " *\n"@
        + " */\n"@ + "\n"@
}

/// The lines of the picture.
fn art_lines() -> (lines: Vec<&'static str>)
    ensures
        lines@.len() == art().len(),
        forall|i: int| 0 <= i < lines@.len() ==> (#[trigger] lines@[i])@ == art()[i],
{
    let mut lines: Vec<&'static str> = Vec::new();
    lines.push(r#"         )                (    ("#);
    lines.push(r#"      ( /(    (           )\ ) )\"#);
    lines.push(r#"  (   )\())  ))\   (     (()/(((_)"#);
    lines.push(r#"  )\ ((_)\  /((_)  )\ )   ((_))_"#);
    lines.push(r#" ((_)| |(_)(_))(  _(_/(   _| || |"#);
    lines.push(r#"/ _| | '_ \| || || ' \))/ _` || |"#);
    lines.push(r#"\__| |_.__/ \_,_||_||_| \__,_||_|"#);
    lines
}

/// The width of the banner's centred lines.
fn width_for(art: &Vec<&'static str>, title: &str, repository: &str) -> (width: usize)
    requires
        art@.len() == self::art().len(),
        forall|i: int| 0 <= i < art@.len() ==> (#[trigger] art@[i])@ == self::art()[i],
    ensures
        width == banner_width(title@, repository@),
{
    let mut widest: usize = 0;
    let mut i: usize = 0;
    while i < art.len()
        invariant
            i <= art.len(),
            art@.len() == self::art().len(),
            forall|i: int| 0 <= i < art@.len() ==> (#[trigger] art@[i])@ == self::art()[i],
            widest == max_byte_len(self::art().take(i as int)),
        decreases art.len() - i,
    {
        proof {
            assert(self::art().take(i + 1).drop_last() == self::art().take(i as int));
        }
        if art[i].len() > widest {
            widest = art[i].len();
        }
        i += 1;
    }
    proof {
        assert(self::art().take(art@.len() as int) == self::art());
    }
    if widest < MIN_WIDTH {
        widest = MIN_WIDTH;
    }
    if title.len() > widest {
        widest = title.len();
    }
    if repository.len() > widest {
        widest = repository.len();
    }
    widest.saturating_add(PADDING)
}

/// Appends a line of the comment that holds `text`.
fn push_row(out: &mut String, text: &str)
    ensures
        final(out)@ == old(out)@ + row(text@),
{
    out.append(" * ");
    out.append(text);
    out.append("\n");
}

impl Banner {
    /// The name of the stage.
    pub fn name() -> (name: &'static str)
        ensures
            name@ == "banner"@,
    {
        "banner"
    }

    /// Whether the banner may carry the quote that comes from `origin`: the
    /// first built-in one if the banner is deterministic, else any that the
    /// quotes offer.
    pub open spec fn offers(&self, origin: QuoteInner<'_>) -> bool {
        if self.deterministic {
            origin == QuoteInner::Builtin(0)
        } else {
            self.quotes.offers(origin)
        }
    }

    /// The banner with the given title, repository, time and quote.
    pub fn render(title: &str, repository: &str, generated_at: &str, quote: &Quote<'_>) -> (out:
        String)
        ensures
            out@ == banner_text(title@, repository@, generated_at@, quote@),
    {
        let art = art_lines();
        let width = width_for(&art, title, repository);
        let mut out = String::new();
        out.append("/**\n");
        out.append(" *\n");
        let ghost head = out@;
        let mut i: usize = 0;
        while i < art.len()
            invariant
                i <= art.len(),
                art@.len() == self::art().len(),
                forall|i: int| 0 <= i < art@.len() ==> (#[trigger] art@[i])@ == self::art()[i],
                out@ == head + centered_rows(self::art().take(i as int), width as nat),
            decreases art.len() - i,
        {
            proof {
                assert(self::art().take(i + 1).drop_last() == self::art().take(i as int));
            }
            let line = center(art[i], width);
            push_row(&mut out, line.as_str());
            i += 1;
        }
        proof {
            assert(self::art().take(art@.len() as int) == self::art());
        }
        out.append(" * \n");
        push_row(&mut out, center(title, width).as_str());
        push_row(&mut out, center(repository, width).as_str());
        out.append(" *\n");
        let mut stamp = String::from_str("Generated at: ");
        stamp.append(generated_at);
        push_row(&mut out, center(stamp.as_str(), width).as_str());
        out.append(" *\n");
        out.append(" *\n");
        let ghost before = out@;
        let ghost all = quote@.lines;
        let ghost mut done: int = 0;
        let mut lines = quote.lines();
        loop
            invariant
                0 <= done <= all.len(),
                lines@ == all.skip(done),
                out@ == before + rows(all.take(done)),
            ensures
                out@ == before + rows(all),
            decreases lines@.len(),
        {
            match lines.next() {
                Some(line) => {
                    push_row(&mut out, line.as_str());
                    proof {
                        assert(all.take(done + 1).drop_last() == all.take(done));
                        assert(all.skip(done).drop_first() == all.skip(done + 1));
                        done = done + 1;
                    }
                },
                None => {
                    proof {
                        assert(all.take(done) == all);
                    }
                    break ;
                },
            }
        }
        out.append(" *   - ");
        out.append(quote.author());
        out.append("\n");
        out.append(" *\n");
        out.append(" */\n");
        out.append("\n");
        out
    }

    /// Appends the banner to `out`, with a quote picked as the banner asks.
    pub fn write_banner(&self, out: &mut String, title: &str, repository: &str, generated_at: &str)
        ensures
            exists|origin: QuoteInner<'_>|
                self.offers(origin) && final(out)@ == old(out)@ + #[trigger] banner_text(
                    title@,
                    repository@,
                    generated_at@,
                    quote_of(origin),
                ),
    {
        let quote = if self.deterministic {
            Quotes::built_in_at(0)
        } else {
            self.quotes.random()
        };
        let text = Self::render(title, repository, generated_at, &quote);
        out.append(text.as_str());
        assert(self.offers(quote.origin()));
    }

    /// Puts the banner in front of `code`.
    pub fn process(&self, title: &str, repository: &str, generated_at: &str, code: &str) -> (out:
        String)
        ensures
            exists|origin: QuoteInner<'_>|
                self.offers(origin) && out@ == #[trigger] banner_text(
                    title@,
                    repository@,
                    generated_at@,
                    quote_of(origin),
                ) + code@,
    {
        let mut out = String::new();
        self.write_banner(&mut out, title, repository, generated_at);
        let ghost banner = out@;
        out.append(code);
        proof {
            let origin = choose|origin: QuoteInner<'_>|
                self.offers(origin) && banner == Seq::<char>::empty() + #[trigger] banner_text(
                    title@,
                    repository@,
                    generated_at@,
                    quote_of(origin),
                );
            assert(out@ == banner_text(title@, repository@, generated_at@, quote_of(origin))
                + code@);
        }
        out
    }
}

} // verus!
