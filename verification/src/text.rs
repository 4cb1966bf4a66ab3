//! Character classes and the scanning primitives shared by the line parsers.

use vstd::prelude::*;

verus! {

/// Whether `c` has the Unicode `White_Space` property.
pub uninterp spec fn is_whitespace(c: char) -> bool;

/// Whether `c` has the Unicode `Alphabetic` property.
pub uninterp spec fn is_alphabetic(c: char) -> bool;

/// `char::is_whitespace` decides the `White_Space` property; its answer
/// depends on the character alone.
pub assume_specification[ char::is_whitespace ](c: char) -> (b: bool)
    ensures
        b == is_whitespace(c),
;

/// `char::is_alphabetic` decides the `Alphabetic` property; its answer
/// depends on the character alone.
pub assume_specification[ char::is_alphabetic ](c: char) -> (b: bool)
    ensures
        b == is_alphabetic(c),
;

/// `String::push` appends one character to the end of the string.
pub assume_specification[ String::push ](s: &mut String, c: char)
    ensures
        final(s)@ == old(s)@.push(c),
;

/// A set of characters that a scan accepts.
#[derive(Clone, Copy, Debug)]
pub enum CharClass {
    /// Characters with the `White_Space` property.
    Whitespace,
    /// Characters without the `White_Space` property.
    NonWhitespace,
    /// Characters with the `Alphabetic` property.
    Alphabetic,
    /// Every character but the given one.
    Except(char),
}

impl CharClass {
    /// Whether `c` belongs to the class.
    pub open spec fn contains(self, c: char) -> bool {
        match self {
            CharClass::Whitespace => is_whitespace(c),
            CharClass::NonWhitespace => !is_whitespace(c),
            CharClass::Alphabetic => is_alphabetic(c),
            CharClass::Except(d) => c != d,
        }
    }

    /// Tests whether `c` belongs to the class.
    pub fn test(self, c: char) -> (b: bool)
        ensures
            b == self.contains(c),
    {
        match self {
            CharClass::Whitespace => c.is_whitespace(),
            CharClass::NonWhitespace => !c.is_whitespace(),
            CharClass::Alphabetic => c.is_alphabetic(),
            CharClass::Except(d) => c != d,
        }
    }
}

/// Length of the longest prefix of `s` whose characters all belong to `class`.
pub open spec fn run_len(s: Seq<char>, class: CharClass) -> nat
    decreases s.len(),
{
    if s.len() > 0 && class.contains(s[0]) {
        1 + run_len(s.drop_first(), class)
    } else {
        0
    }
}

/// The run is a prefix, lies wholly in the class, and stops at the end of
/// the text or at the first character outside the class.
pub proof fn lemma_run_len(s: Seq<char>, class: CharClass)
    ensures
        run_len(s, class) <= s.len(),
        forall|i: int| 0 <= i < run_len(s, class) ==> class.contains(#[trigger] s[i]),
        run_len(s, class) < s.len() ==> !class.contains(s[run_len(s, class) as int]),
    decreases s.len(),
{
    if s.len() > 0 && class.contains(s[0]) {
        let t = s.drop_first();
        lemma_run_len(t, class);
        assert forall|i: int| 0 <= i < run_len(s, class) implies class.contains(
            #[trigger] s[i],
        ) by {
            if i > 0 {
                assert(s[i] == t[i - 1]);
            }
        }
        if run_len(s, class) < s.len() {
            assert(s[run_len(s, class) as int] == t[run_len(t, class) as int]);
        }
    }
}

/// `s` without its leading whitespace.
pub open spec fn trim_start(s: Seq<char>) -> Seq<char> {
    s.skip(run_len(s, CharClass::Whitespace) as int)
}

/// Whether `s` begins with `prefix`.
pub open spec fn starts_with(s: Seq<char>, prefix: Seq<char>) -> bool {
    prefix.len() <= s.len() && s.take(prefix.len() as int) == prefix
}

/// The characters of `s`, in order.
pub fn to_chars(s: &str) -> (v: Vec<char>)
    ensures
        v@ == s@,
{
    let mut v: Vec<char> = Vec::new();
    for c in it: s.chars()
        invariant
            v@ == it.seq().take(it.index() as int),
            it.seq() == s@,
    {
        v.push(c);
    }
    v
}

/// A read position in a window of a character buffer.
pub struct Cursor<'a> {
    chars: &'a Vec<char>,
    pos: usize,
    end: usize,
}

impl<'a> Cursor<'a> {
    /// The position never leaves the window, and the window lies in the buffer.
    pub closed spec fn wf(&self) -> bool {
        self.pos <= self.end <= self.chars.len()
    }

    /// The characters not yet consumed.
    pub closed spec fn rest(&self) -> Seq<char> {
        self.chars@.subrange(self.pos as int, self.end as int)
    }

    /// A cursor at the start of the window `chars[start..end]`.
    pub fn new(chars: &'a Vec<char>, start: usize, end: usize) -> (cur: Self)
        requires
            start <= end <= chars.len(),
        ensures
            cur.wf(),
            cur.rest() == chars@.subrange(start as int, end as int),
    {
        Cursor { chars, pos: start, end }
    }

    /// Consumes and returns the next character, if there is one.
    pub fn next(&mut self) -> (c: Option<char>)
        requires
            old(self).wf(),
        ensures
            final(self).wf(),
            old(self).rest().len() > 0 ==> c == Some(old(self).rest()[0]) && final(self).rest()
                == old(self).rest().drop_first(),
            old(self).rest().len() == 0 ==> c.is_none() && final(self).rest() == old(self).rest(),
    {
        if self.pos < self.end {
            let c = self.chars[self.pos];
            self.pos += 1;
            Some(c)
        } else {
            None
        }
    }

    /// Whether the unconsumed text begins with `prefix`; if it does, the
    /// prefix is consumed.
    pub fn eat(&mut self, prefix: &str) -> (found: bool)
        requires
            old(self).wf(),
        ensures
            final(self).wf(),
            found == starts_with(old(self).rest(), prefix@),
            final(self).rest() == if found {
                old(self).rest().skip(prefix@.len() as int)
            } else {
                old(self).rest()
            },
    {
        let p = to_chars(prefix);
        if p.len() > self.end - self.pos {
            return false;
        }
        let ghost rest = self.rest();
        let mut i: usize = 0;
        while i < p.len()
            invariant
                self.wf(),
                self.rest() == rest,
                *self == *old(self),
                p@ == prefix@,
                p.len() <= self.end - self.pos,
                i <= p.len(),
                rest.take(i as int) == p@.take(i as int),
            decreases p.len() - i,
        {
            if self.chars[self.pos + i] != p[i] {
                proof {
                    assert(rest[i as int] != p@[i as int]);
                    if starts_with(rest, p@) {
                        assert(rest.take(p@.len() as int)[i as int] == p@[i as int]);
                    }
                }
                return false;
            }
            proof {
                assert(rest[i as int] == p@[i as int]);
                assert(rest.take(i + 1) == rest.take(i as int).push(rest[i as int]));
                assert(p@.take(i + 1) == p@.take(i as int).push(p@[i as int]));
            }
            i += 1;
        }
        proof {
            assert(p@.take(p@.len() as int) == p@);
        }
        self.pos += p.len();
        true
    }
}

/// Consumes the run of whitespace at the cursor. With `required`, one
/// character is consumed first, and the scan fails unless that character is
/// whitespace.
pub fn consume_whitespace(cur: &mut Cursor<'_>, required: bool) -> (r: Option<()>)
    requires
        old(cur).wf(),
    ensures
        final(cur).wf(),
        r.is_some() <==> (required ==> old(cur).rest().len() > 0 && is_whitespace(
            old(cur).rest()[0],
        )),
        r.is_some() ==> final(cur).rest() == trim_start(old(cur).rest()),
        r.is_none() ==> final(cur).rest() == if old(cur).rest().len() > 0 {
            old(cur).rest().drop_first()
        } else {
            old(cur).rest()
        },
{
    let ghost before = cur.rest();
    if required {
        match cur.next() {
            None => {
                return None;
            },
            Some(c) => {
                if !c.is_whitespace() {
                    return None;
                }
            },
        }
    }
    let ghost mid = cur.rest();
    let n = scan(cur.chars, cur.pos, cur.end, CharClass::Whitespace);
    cur.pos = n;
    proof {
        if required {
            assert(mid == before.drop_first());
            assert(before.skip(1).skip(run_len(mid, CharClass::Whitespace) as int) == before.skip(
                1 + run_len(mid, CharClass::Whitespace) as int,
            ));
        }
    }
    Some(())
}

/// Consumes the longest run of characters of `class` at the cursor and
/// returns it, or `None` if the run is empty.
pub fn consume_while(cur: &mut Cursor<'_>, class: CharClass) -> (r: Option<String>)
    requires
        old(cur).wf(),
    ensures
        final(cur).wf(),
        final(cur).rest() == old(cur).rest().skip(run_len(old(cur).rest(), class) as int),
        run_len(old(cur).rest(), class) == 0 ==> r.is_none(),
        run_len(old(cur).rest(), class) > 0 ==> r.is_some() && r.unwrap()@ == old(cur).rest().take(
            run_len(old(cur).rest(), class) as int,
        ),
{
    let start = cur.pos;
    let n = scan(cur.chars, cur.pos, cur.end, class);
    cur.pos = n;
    if n == start {
        None
    } else {
        let mut buf = String::new();
        let mut i: usize = start;
        while i < n
            invariant
                start <= i <= n <= cur.chars.len(),
                buf@ == cur.chars@.subrange(start as int, i as int),
            decreases n - i,
        {
            buf.push(cur.chars[i]);
            i += 1;
        }
        Some(buf)
    }
}

/// Consumes the longest run of alphabetic characters at the cursor.
pub fn consume_word(cur: &mut Cursor<'_>) -> (r: Option<String>)
    requires
        old(cur).wf(),
    ensures
        final(cur).wf(),
        final(cur).rest() == old(cur).rest().skip(
            run_len(old(cur).rest(), CharClass::Alphabetic) as int,
        ),
        run_len(old(cur).rest(), CharClass::Alphabetic) == 0 ==> r.is_none(),
        run_len(old(cur).rest(), CharClass::Alphabetic) > 0 ==> r.is_some() && r.unwrap()@ == old(
            cur,
        ).rest().take(run_len(old(cur).rest(), CharClass::Alphabetic) as int),
{
    consume_while(cur, CharClass::Alphabetic)
}

/// Consumes the longest run of characters that are not whitespace.
pub fn consume_until_whitespace(cur: &mut Cursor<'_>) -> (r: Option<String>)
    requires
        old(cur).wf(),
    ensures
        final(cur).wf(),
        final(cur).rest() == old(cur).rest().skip(
            run_len(old(cur).rest(), CharClass::NonWhitespace) as int,
        ),
        run_len(old(cur).rest(), CharClass::NonWhitespace) == 0 ==> r.is_none(),
        run_len(old(cur).rest(), CharClass::NonWhitespace) > 0 ==> r.is_some() && r.unwrap()@
            == old(cur).rest().take(run_len(old(cur).rest(), CharClass::NonWhitespace) as int),
{
    consume_while(cur, CharClass::NonWhitespace)
}

/// The index at which the run of `class` that starts at `from` ends, within
/// `chars[from..end]`.
pub fn scan(chars: &Vec<char>, from: usize, end: usize, class: CharClass) -> (n: usize)
    requires
        from <= end <= chars.len(),
    ensures
        from <= n <= end,
        n == from + run_len(chars@.subrange(from as int, end as int), class),
{
    let mut i: usize = from;
    while i < end && class.test(chars[i])
        invariant
            from <= i <= end <= chars.len(),
            i + run_len(chars@.subrange(i as int, end as int), class) == from + run_len(
                chars@.subrange(from as int, end as int),
                class,
            ),
        decreases end - i,
    {
        assert(chars@.subrange(i as int, end as int).drop_first() == chars@.subrange(
            i + 1,
            end as int,
        ));
        i += 1;
    }
    i
}

/// Whether two strings hold the same characters.
pub fn same_text(a: &str, b: &str) -> (same: bool)
    ensures
        same == (a@ == b@),
{
    let x = to_chars(a);
    let y = to_chars(b);
    if x.len() != y.len() {
        return false;
    }
    let mut i: usize = 0;
    while i < x.len()
        invariant
            x.len() == y.len(),
            i <= x.len(),
            x@ == a@,
            y@ == b@,
            x@.take(i as int) == y@.take(i as int),
        decreases x.len() - i,
    {
        if x[i] != y[i] {
            return false;
        }
        proof {
            assert(x@.take(i + 1) == x@.take(i as int).push(x@[i as int]));
            assert(y@.take(i + 1) == y@.take(i as int).push(y@[i as int]));
        }
        i += 1;
    }
    proof {
        assert(x@.take(x@.len() as int) == x@);
        assert(y@.take(y@.len() as int) == y@);
    }
    true
}

/// The view of an optional string.
pub open spec fn text_of(s: Option<String>) -> Option<Seq<char>> {
    match s {
        Some(s) => Some(s@),
        None => None,
    }
}

/// The views of a sequence of strings.
pub open spec fn texts(v: Seq<String>) -> Seq<Seq<char>> {
    Seq::new(v.len(), |i: int| v[i]@)
}

/// `s` without one trailing carriage return.
pub open spec fn strip_cr(s: Seq<char>) -> Seq<char> {
    if s.len() > 0 && s.last() == '\r' {
        s.drop_last()
    } else {
        s
    }
}

/// The lines of a text. A line ends at a line feed, which is dropped together
/// with a carriage return directly before it. Text after the last line feed
/// is a line of its own, kept as it is; an empty rest is none.
pub open spec fn lines(s: Seq<char>) -> Seq<Seq<char>>
    decreases s.len(),
{
    let n = run_len(s, CharClass::Except('\n')) as int;
    if s.len() == 0 {
        Seq::empty()
    } else if n >= s.len() {
        seq![s]
    } else {
        seq![strip_cr(s.take(n))] + lines(s.skip(n + 1))
    }
}

/// The lines that the windows `bounds` cut out of `s`.
pub open spec fn windows(s: Seq<char>, bounds: Seq<(usize, usize)>) -> Seq<Seq<char>> {
    Seq::new(bounds.len(), |i: int| s.subrange(bounds[i].0 as int, bounds[i].1 as int))
}

/// Every window lies within a text of length `len`.
pub open spec fn windows_fit(bounds: Seq<(usize, usize)>, len: nat) -> bool {
    forall|i: int| 0 <= i < bounds.len() ==> (#[trigger] bounds[i]).0 <= bounds[i].1 <= len
}

/// Where each line of `chars` starts and ends.
pub fn split_lines(chars: &Vec<char>) -> (bounds: Vec<(usize, usize)>)
    ensures
        windows_fit(bounds@, chars@.len()),
        windows(chars@, bounds@) == lines(chars@),
{
    let len = chars.len();
    let mut bounds: Vec<(usize, usize)> = Vec::new();
    let mut pos: usize = 0;
    proof {
        assert(chars@.skip(0) == chars@);
    }
    while pos < len
        invariant
            len == chars.len(),
            pos <= len,
            windows_fit(bounds@, chars@.len()),
            windows(chars@, bounds@) + lines(chars@.skip(pos as int)) == lines(chars@),
        decreases len - pos,
    {
        let ghost rest = chars@.skip(pos as int);
        let ghost done = windows(chars@, bounds@);
        let stop = scan(chars, pos, len, CharClass::Except('\n'));
        proof {
            assert(chars@.subrange(pos as int, len as int) == rest);
            lemma_run_len(rest, CharClass::Except('\n'));
        }
        if stop == len {
            bounds.push((pos, len));
            pos = len;
            proof {
                assert(lines(rest) == seq![rest]);
                assert(lines(chars@.skip(len as int)) == Seq::<Seq<char>>::empty());
                assert(windows(chars@, bounds@) == done + seq![rest]);
            }
        } else {
            let cut = if stop > pos && chars[stop - 1] == '\r' {
                stop - 1
            } else {
                stop
            };
            bounds.push((pos, cut));
            proof {
                let n = stop - pos;
                assert(rest.take(n) == chars@.subrange(pos as int, stop as int));
                assert(strip_cr(rest.take(n)) == chars@.subrange(pos as int, cut as int));
                assert(rest.skip(n + 1) == chars@.skip(stop + 1));
                assert(windows(chars@, bounds@) == done + seq![
                    chars@.subrange(pos as int, cut as int),
                ]);
                assert(lines(rest) == seq![strip_cr(rest.take(n))] + lines(rest.skip(n + 1)));
            }
            pos = stop + 1;
        }
    }
    proof {
        assert(lines(chars@.skip(pos as int)) == Seq::<Seq<char>>::empty());
    }
    bounds
}

/// Appends `chars[start..end]` to `out`.
pub fn append_range(out: &mut String, chars: &Vec<char>, start: usize, end: usize)
    requires
        start <= end <= chars.len(),
    ensures
        final(out)@ == old(out)@ + chars@.subrange(start as int, end as int),
{
    let mut i: usize = start;
    while i < end
        invariant
            start <= i <= end <= chars.len(),
            out@ == old(out)@ + chars@.subrange(start as int, i as int),
        decreases end - i,
    {
        out.push(chars[i]);
        proof {
            assert(chars@.subrange(start as int, i + 1) == chars@.subrange(
                start as int,
                i as int,
            ).push(chars@[i as int]));
        }
        i += 1;
    }
}

/// Whether `s` ends with `suffix`.
pub open spec fn ends_with(s: Seq<char>, suffix: Seq<char>) -> bool {
    suffix.len() <= s.len() && s.skip(s.len() - suffix.len()) == suffix
}

/// Whether the text ends with an empty line, that is with two line feeds.
pub fn ends_with_blank_line(text: &str) -> (found: bool)
    ensures
        found == ends_with(text@, seq!['\n', '\n']),
{
    let chars = to_chars(text);
    let n = chars.len();
    let found = n >= 2 && chars[n - 2] == '\n' && chars[n - 1] == '\n';
    proof {
        let tail = seq!['\n', '\n'];
        if n >= 2 {
            let end = text@.skip(n - 2);
            assert(end.len() == 2);
            assert(end[0] == chars@[n - 2] && end[1] == chars@[n - 1]);
            if found {
                assert(end =~= tail);
            } else {
                assert(tail[0] == '\n' && tail[1] == '\n');
            }
        }
    }
    found
}

/// `s` without its trailing whitespace.
pub open spec fn trim_end(s: Seq<char>) -> Seq<char>
    decreases s.len(),
{
    if s.len() > 0 && is_whitespace(s.last()) {
        trim_end(s.drop_last())
    } else {
        s
    }
}

/// The index at which `chars[start..end]` without its trailing whitespace
/// ends.
pub fn trim_end_at(chars: &Vec<char>, start: usize, end: usize) -> (cut: usize)
    requires
        start <= end <= chars.len(),
    ensures
        start <= cut <= end,
        chars@.subrange(start as int, cut as int) == trim_end(
            chars@.subrange(start as int, end as int),
        ),
{
    let mut cut: usize = end;
    while cut > start && chars[cut - 1].is_whitespace()
        invariant
            start <= cut <= end <= chars.len(),
            trim_end(chars@.subrange(start as int, cut as int)) == trim_end(
                chars@.subrange(start as int, end as int),
            ),
        decreases cut,
    {
        assert(chars@.subrange(start as int, cut as int).drop_last() == chars@.subrange(
            start as int,
            cut - 1,
        ));
        cut -= 1;
    }
    cut
}

/// `s` with `to` after each of its characters.
pub open spec fn interleaved(s: Seq<char>, to: Seq<char>) -> Seq<char>
    decreases s.len(),
{
    if s.len() == 0 {
        Seq::empty()
    } else {
        seq![s[0]] + to + interleaved(s.drop_first(), to)
    }
}

/// `s` with every occurrence of `from`, from left to right and without
/// overlap, replaced by `to`. An empty `from` occurs before every character
/// and at the end.
pub open spec fn replaced_text(s: Seq<char>, from: Seq<char>, to: Seq<char>) -> Seq<char>
    decreases s.len(),
{
    if from.len() == 0 {
        to + interleaved(s, to)
    } else if starts_with(s, from) {
        to + replaced_text(s.skip(from.len() as int), from, to)
    } else if s.len() == 0 {
        Seq::empty()
    } else {
        seq![s[0]] + replaced_text(s.drop_first(), from, to)
    }
}

/// `text` with every occurrence of `from` replaced by `to`.
pub fn text_replace(text: &str, from: &str, to: &str) -> (out: String)
    ensures
        out@ == replaced_text(text@, from@, to@),
{
    let chars = to_chars(text);
    let wanted = to_chars(from);
    let mut out = String::new();
    let mut i: usize = 0;
    proof {
        assert(chars@.skip(0) == chars@);
    }
    if wanted.len() == 0 {
        out.append(to);
        while i < chars.len()
            invariant
                i <= chars.len(),
                chars@ == text@,
                out@ + interleaved(chars@.skip(i as int), to@) == to@ + interleaved(text@, to@),
            decreases chars.len() - i,
        {
            proof {
                assert(chars@.skip(i as int).drop_first() == chars@.skip(i + 1));
                assert(chars@.skip(i as int)[0] == chars@[i as int]);
            }
            let ghost before = out@;
            out.push(chars[i]);
            out.append(to);
            proof {
                assert(out@ == before + seq![chars@[i as int]] + to@);
            }
            i += 1;
        }
        proof {
            assert(interleaved(chars@.skip(i as int), to@) == Seq::<char>::empty());
        }
        return out;
    }
    proof {
        assert(out@ + replaced_text(chars@, from@, to@) == replaced_text(text@, from@, to@));
    }
    while i < chars.len()
        invariant
            i <= chars.len(),
            chars@ == text@,
            wanted@ == from@,
            wanted.len() > 0,
            out@ + replaced_text(chars@.skip(i as int), from@, to@) == replaced_text(
                text@,
                from@,
                to@,
            ),
        decreases chars.len() - i,
    {
        let ghost rest = chars@.skip(i as int);
        let ghost before = out@;
        if wanted.len() <= chars.len() - i && matches_at(&chars, i, &wanted) {
            proof {
                assert(rest.take(wanted.len() as int) == chars@.subrange(
                    i as int,
                    i + wanted.len(),
                ));
                assert(rest.skip(wanted.len() as int) == chars@.skip(i + wanted.len()));
            }
            out.append(to);
            i += wanted.len();
        } else {
            proof {
                if wanted.len() <= chars.len() - i {
                    assert(rest.take(wanted.len() as int) == chars@.subrange(
                        i as int,
                        i + wanted.len(),
                    ));
                }
                assert(!starts_with(rest, from@));
                assert(rest.drop_first() == chars@.skip(i + 1));
                assert(rest[0] == chars@[i as int]);
            }
            out.push(chars[i]);
            proof {
                assert(out@ == before + seq![chars@[i as int]]);
            }
            i += 1;
        }
    }
    proof {
        assert(replaced_text(chars@.skip(i as int), from@, to@) == Seq::<char>::empty());
    }
    out
}

/// Whether `part` occurs in `s`.
pub open spec fn contains_text(s: Seq<char>, part: Seq<char>) -> bool {
    exists|i: int| 0 <= i && i + part.len() <= s.len() && #[trigger] s.subrange(
        i,
        i + part.len(),
    ) == part
}

/// Whether `chars[at..]` begins with `part`.
fn matches_at(chars: &Vec<char>, at: usize, part: &Vec<char>) -> (found: bool)
    requires
        at + part.len() <= chars.len(),
    ensures
        found == (chars@.subrange(at as int, at + part.len()) == part@),
{
    let mut k: usize = 0;
    while k < part.len()
        invariant
            k <= part.len(),
            at + part.len() <= chars.len(),
            chars@.subrange(at as int, at + k) == part@.take(k as int),
        decreases part.len() - k,
    {
        if chars[at + k] != part[k] {
            proof {
                let window = chars@.subrange(at as int, at + part.len());
                assert(window[k as int] != part@[k as int]);
            }
            return false;
        }
        proof {
            assert(chars@.subrange(at as int, at + k + 1) == chars@.subrange(
                at as int,
                at + k,
            ).push(chars@[at + k]));
            assert(part@.take(k + 1) == part@.take(k as int).push(part@[k as int]));
        }
        k += 1;
    }
    proof {
        assert(part@.take(part@.len() as int) == part@);
    }
    true
}

/// Whether `part` occurs in `text`.
pub fn text_contains(text: &str, part: &str) -> (found: bool)
    ensures
        found == contains_text(text@, part@),
{
    let chars = to_chars(text);
    let wanted = to_chars(part);
    if wanted.len() > chars.len() {
        return false;
    }
    let last = chars.len() - wanted.len();
    let mut i: usize = 0;
    loop
        invariant
            i <= last,
            last == chars.len() - wanted.len(),
            wanted.len() <= chars.len(),
            chars@ == text@,
            wanted@ == part@,
            forall|j: int| 0 <= j < i ==> #[trigger] chars@.subrange(j, j + wanted.len()) != wanted@,
        decreases last - i,
    {
        if matches_at(&chars, i, &wanted) {
            return true;
        }
        if i == last {
            return false;
        }
        i += 1;
    }
}

/// Whether `text` begins with `prefix`.
pub fn text_starts_with(text: &str, prefix: &str) -> (found: bool)
    ensures
        found == starts_with(text@, prefix@),
{
    let chars = to_chars(text);
    let wanted = to_chars(prefix);
    if wanted.len() > chars.len() {
        return false;
    }
    let found = matches_at(&chars, 0, &wanted);
    proof {
        assert(chars@.subrange(0, wanted.len() as int) == chars@.take(wanted.len() as int));
    }
    found
}

/// The decimal digit of `d`.
pub open spec fn digit(d: nat) -> char {
    if d == 0 {
        '0'
    } else if d == 1 {
        '1'
    } else if d == 2 {
        '2'
    } else if d == 3 {
        '3'
    } else if d == 4 {
        '4'
    } else if d == 5 {
        '5'
    } else if d == 6 {
        '6'
    } else if d == 7 {
        '7'
    } else if d == 8 {
        '8'
    } else {
        '9'
    }
}

/// `n` written in decimal, without leading zeros.
pub open spec fn decimal(n: nat) -> Seq<char>
    decreases n,
{
    if n < 10 {
        seq![digit(n)]
    } else {
        decimal(n / 10).push(digit(n % 10))
    }
}

/// The decimal digit of `d`.
fn digit_of(d: usize) -> (c: char)
    requires
        d < 10,
    ensures
        c == digit(d as nat),
{
    if d == 0 {
        '0'
    } else if d == 1 {
        '1'
    } else if d == 2 {
        '2'
    } else if d == 3 {
        '3'
    } else if d == 4 {
        '4'
    } else if d == 5 {
        '5'
    } else if d == 6 {
        '6'
    } else if d == 7 {
        '7'
    } else if d == 8 {
        '8'
    } else {
        '9'
    }
}

/// The digits of `rest` followed by `tail`.
pub open spec fn digits_then(rest: nat, tail: Seq<char>) -> Seq<char> {
    decimal(rest) + tail
}

/// `n` written in decimal.
pub fn to_decimal(n: usize) -> (out: String)
    ensures
        out@ == decimal(n as nat),
{
    let mut digits: Vec<char> = Vec::new();
    let mut rest: usize = n;
    while rest >= 10
        invariant
            digits_then(rest as nat, digits@.reverse()) == decimal(n as nat),
        decreases rest,
    {
        let ghost before = digits@;
        digits.push(digit_of(rest % 10));
        proof {
            assert(digits@.reverse() == seq![digit((rest % 10) as nat)] + before.reverse());
            assert(decimal(rest as nat) == decimal((rest / 10) as nat).push(digit((rest % 10) as nat)));
            assert(decimal((rest / 10) as nat).push(digit((rest % 10) as nat)) + before.reverse()
                == decimal((rest / 10) as nat) + (seq![digit((rest % 10) as nat)]
                + before.reverse()));
        }
        rest = rest / 10;
    }
    let ghost before = digits@;
    digits.push(digit_of(rest));
    proof {
        assert(digits@.reverse() == seq![digit(rest as nat)] + before.reverse());
    }
    let mut out = String::new();
    let mut i: usize = digits.len();
    while i > 0
        invariant
            i <= digits.len(),
            out@ == digits@.reverse().take(digits.len() - i),
        decreases i,
    {
        i -= 1;
        out.push(digits[i]);
        proof {
            let r = digits@.reverse();
            assert(r.take(digits.len() - i) == r.take(digits.len() - i - 1).push(
                r[digits.len() - i - 1],
            ));
        }
    }
    proof {
        assert(digits@.reverse().take(digits@.len() as int) == digits@.reverse());
    }
    out
}

} // verus!
