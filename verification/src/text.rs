//! Conversions between strings and character sequences, and the few
//! operations of the standard library on text that the shell relies on.

use vstd::prelude::*;

verus! {

/// What `str::to_lowercase` returns for the text `s`.
pub uninterp spec fn lowered(s: Seq<char>) -> Seq<char>;

/// What formatting the text `s` with `{:?}` returns: the text between double
/// quotes, with the characters that need it escaped.
pub uninterp spec fn quoted(s: Seq<char>) -> Seq<char>;

/// Whether `char::is_whitespace` says that `c`, a character beyond ASCII,
/// is white space.
pub uninterp spec fn wide_white_space(c: char) -> bool;

/// Whether `c` is white space. Among the ASCII characters these are the
/// blank and the five characters from the tab to the carriage return; for
/// the others it is what `char::is_whitespace` says.
pub open spec fn white_space(c: char) -> bool {
    if c <= '\u{7f}' {
        c == ' ' || ('\t' <= c && c <= '\r')
    } else {
        wide_white_space(c)
    }
}

/// Whether `char::is_alphabetic` says that `c` is a letter.
pub uninterp spec fn alphabetic(c: char) -> bool;

/// The number of characters at the start of `s` that are white space.
pub open spec fn leading_white(s: Seq<char>) -> int
    decreases s.len(),
{
    if s.len() > 0 && white_space(s[0]) {
        1 + leading_white(s.drop_first())
    } else {
        0
    }
}

/// The number of characters at the end of `s` that are white space.
pub open spec fn trailing_white(s: Seq<char>) -> int
    decreases s.len(),
{
    if s.len() > 0 && white_space(s.last()) {
        1 + trailing_white(s.drop_last())
    } else {
        0
    }
}

/// The text `s` without the white space at its start and at its end.
pub open spec fn trimmed(s: Seq<char>) -> Seq<char> {
    let rest = s.skip(leading_white(s));
    rest.take(rest.len() - trailing_white(rest))
}

/// The decimal digit for `d`, which is less than ten.
pub open spec fn digit(d: nat) -> char {
    if d == 0 {
        '0'
    } else if d == 1 {
        '1'
    } else if d == 2 {
        '2'
    } else if d == 3 {
        '3'
    } else if d == 4 {
        '4'
    } else if d == 5 {
        '5'
    } else if d == 6 {
        '6'
    } else if d == 7 {
        '7'
    } else if d == 8 {
        '8'
    } else {
        '9'
    }
}

/// The number `n` written in decimal digits.
pub open spec fn decimal(n: nat) -> Seq<char>
    decreases n,
{
    if n < 10 {
        seq![digit(n)]
    } else {
        decimal(n / 10).push(digit(n % 10))
    }
}

/// The index at which the first line break of `s` starts, or the length of
/// `s` if it has none. A line break is a carriage return followed by a line
/// feed.
pub open spec fn line_end(s: Seq<char>) -> int
    decreases s.len(),
{
    if s.len() == 0 {
        0
    } else if s.len() >= 2 && s[0] == '\r' && s[1] == '\n' {
        0
    } else {
        1 + line_end(s.drop_first())
    }
}

/// The pieces that the line breaks cut `s` into. A text without a line break
/// is one piece, the empty text too.
pub open spec fn lines(s: Seq<char>) -> Seq<Seq<char>>
    decreases s.len(),
{
    let end = line_end(s);
    if 0 <= end && end + 2 <= s.len() {
        seq![s.take(end)] + lines(s.skip(end + 2))
    } else {
        seq![s]
    }
}

/// The `parts` with a line break between each two of them.
pub open spec fn joined_lines(parts: Seq<Seq<char>>) -> Seq<char>
    decreases parts.len(),
{
    if parts.len() == 0 {
        Seq::empty()
    } else if parts.len() == 1 {
        parts[0]
    } else {
        joined_lines(parts.drop_last()) + "\r\n"@ + parts.last()
    }
}

/// A line of text with a line break behind it is trimmed to the line, if
/// the line does not start or end with white space.
pub proof fn lemma_trimmed_line(line: Seq<char>)
    requires
        line.len() > 0,
        !white_space(line[0]),
        !white_space(line.last()),
    ensures
        trimmed(line + "\r\n"@) == line,
{
    reveal_strlit("\r\n");
    let whole = line + "\r\n"@;
    assert(whole[0] == line[0]);
    assert(leading_white(whole) == 0);
    assert(whole.skip(0) == whole);
    assert(whole.last() == '\n');
    assert(whole.drop_last().last() == '\r');
    assert(whole.drop_last().drop_last() == line);
    assert(trailing_white(line) == 0);
    assert(trailing_white(whole.drop_last()) == 1);
    assert(trailing_white(whole) == 2);
    assert(whole.take(whole.len() - 2) == line);
}

/// The characters of `s`, in order.
pub fn chars_of(s: &str) -> (v: Vec<char>)
    ensures
        v@ == s@,
{
    let mut v: Vec<char> = Vec::new();
    for c in it: s.chars()
        invariant
            v@ == it.seq().take(it.index() as int),
            it.seq() == s@,
    {
        v.push(c);
    }
    v
}

/// Collects characters into a `String` with `Iterator::collect`; the string
/// holds exactly the characters of `chars`, in order.
#[verifier::external_body]
pub(crate) fn string_of(chars: &Vec<char>) -> (s: String)
    ensures
        s@ == chars@,
{
    chars.iter().collect()
}

/// Calls `str::to_lowercase`. The result depends on the text alone; the
/// contract gives it the name `lowered` and claims nothing else of it.
#[verifier::external_body]
pub(crate) fn lowercase(s: &str) -> (r: String)
    ensures
        r@ == lowered(s@),
{
    s.to_lowercase()
}

/// Formats a string with `{:?}`, as `<str as Debug>::fmt` does. The result
/// depends on the text alone; the contract gives it the name `quoted` and
/// claims nothing else of it.
#[verifier::external_body]
pub(crate) fn quote(s: &str) -> (r: String)
    ensures
        r@ == quoted(s@),
{
    format!("{:?}", s)
}

/// Calls `char::is_whitespace`, which says whether Unicode counts a
/// character as white space. The contract claims that among the ASCII
/// characters these are the blank and the characters from U+0009 to U+000D,
/// as the Unicode data that the function goes by lists them. For a
/// character beyond ASCII it gives the answer the name `wide_white_space`
/// and claims nothing else of it.
#[verifier::external_body]
pub(crate) fn is_whitespace(c: char) -> (r: bool)
    ensures
        c <= '\u{7f}' ==> r == (c == ' ' || ('\t' <= c && c <= '\r')),
        c > '\u{7f}' ==> r == wide_white_space(c),
{
    c.is_whitespace()
}

/// Calls `char::is_alphabetic`, which says whether Unicode counts a
/// character as alphabetic. The contract gives the answer the name
/// `alphabetic` and claims nothing else of it.
#[verifier::external_body]
pub(crate) fn is_alphabetic(c: char) -> (r: bool)
    ensures
        r == alphabetic(c),
{
    c.is_alphabetic()
}

/// The text `s` without the white space at its start and at its end.
pub fn trim(s: &str) -> (r: String)
    ensures
        r@ == trimmed(s@),
{
    let chars = chars_of(s);
    let mut start: usize = 0;
    assert(chars@.skip(0) == chars@);
    while start < chars.len() && is_whitespace(chars[start])
        invariant
            start <= chars.len(),
            leading_white(chars@) == start + leading_white(chars@.skip(start as int)),
        decreases chars.len() - start,
    {
        assert(chars@.skip(start as int).drop_first() == chars@.skip(start + 1));
        start += 1;
    }
    let ghost rest = chars@.skip(start as int);
    let mut end: usize = chars.len();
    while end > start && is_whitespace(chars[end - 1])
        invariant
            start <= end <= chars.len(),
            rest == chars@.skip(start as int),
            trailing_white(rest) == (chars.len() - end) + trailing_white(
                chars@.subrange(start as int, end as int),
            ),
        decreases end,
    {
        assert(chars@.subrange(start as int, end as int).drop_last() == chars@.subrange(
            start as int,
            end - 1,
        ));
        end -= 1;
    }
    let mut kept: Vec<char> = Vec::new();
    let mut i: usize = start;
    while i < end
        invariant
            start <= i <= end <= chars.len(),
            kept@ == chars@.subrange(start as int, i as int),
        decreases end - i,
    {
        kept.push(chars[i]);
        i += 1;
    }
    string_of(&kept)
}

/// The decimal digit for `d`.
fn digit_of(d: usize) -> (c: char)
    requires
        d < 10,
    ensures
        c == digit(d as nat),
{
    if d == 0 {
        '0'
    } else if d == 1 {
        '1'
    } else if d == 2 {
        '2'
    } else if d == 3 {
        '3'
    } else if d == 4 {
        '4'
    } else if d == 5 {
        '5'
    } else if d == 6 {
        '6'
    } else if d == 7 {
        '7'
    } else if d == 8 {
        '8'
    } else {
        '9'
    }
}

/// The number `n` written in decimal digits.
pub fn decimal_of(n: usize) -> (digits: Vec<char>)
    ensures
        digits@ == decimal(n as nat),
    decreases n,
{
    if n < 10 {
        vec![digit_of(n)]
    } else {
        let mut digits = decimal_of(n / 10);
        digits.push(digit_of(n % 10));
        digits
    }
}

/// The deep view of a vector of characters is its view.
pub proof fn lemma_chars_deep_view(v: Vec<char>)
    ensures
        v.deep_view() == v@,
{
}

/// The pieces that the line breaks cut `s` into.
pub fn split_lines(s: &Vec<char>) -> (parts: Vec<Vec<char>>)
    ensures
        parts.deep_view() == lines(s@),
{
    let mut parts: Vec<Vec<char>> = Vec::new();
    let mut piece: Vec<char> = Vec::new();
    let mut start: usize = 0;
    let mut i: usize = 0;
    assert(s@.skip(0) == s@);
    while i < s.len()
        invariant
            start <= i <= s.len(),
            piece@ == s@.subrange(start as int, i as int),
            line_end(s@.skip(start as int)) == (i - start) + line_end(s@.skip(i as int)),
            lines(s@) == parts.deep_view() + lines(s@.skip(start as int)),
        decreases s.len() - i,
    {
        let ghost rest = s@.skip(i as int);
        let ghost from = s@.skip(start as int);
        if s[i] == '\r' && i + 1 < s.len() && s[i + 1] == '\n' {
            proof {
                assert(from.take(i - start) == piece@);
                assert(from.skip(i - start + 2) == s@.skip(i + 2));
                lemma_chars_deep_view(piece);
            }
            parts.push(piece);
            piece = Vec::new();
            i += 2;
            start = i;
        } else {
            assert(rest.drop_first() == s@.skip(i + 1));
            piece.push(s[i]);
            i += 1;
        }
    }
    proof {
        lemma_chars_deep_view(piece);
    }
    parts.push(piece);
    parts
}

/// The `parts` with a line break between each two of them.
pub fn join_lines(parts: &Vec<Vec<char>>) -> (text: Vec<char>)
    ensures
        text@ == joined_lines(parts.deep_view()),
{
    let mut text: Vec<char> = Vec::new();
    let mut i: usize = 0;
    proof {
        reveal_strlit("\r\n");
    }
    while i < parts.len()
        invariant
            i <= parts.len(),
            text@ == joined_lines(parts.deep_view().take(i as int)),
            "\r\n"@ == seq!['\r', '\n'],
        decreases parts.len() - i,
    {
        if i > 0 {
            text.push('\r');
            text.push('\n');
        }
        let part = &parts[i];
        let mut j: usize = 0;
        let ghost lead = text@;
        while j < part.len()
            invariant
                j <= part.len(),
                text@ == lead + part@.take(j as int),
            decreases part.len() - j,
        {
            text.push(part[j]);
            j += 1;
        }
        proof {
            let all = parts.deep_view();
            assert(all.take(i + 1).drop_last() == all.take(i as int));
        }
        i += 1;
    }
    assert(parts.deep_view().take(parts.len() as int) == parts.deep_view());
    text
}

} // verus!
