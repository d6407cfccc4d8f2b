//! Program text: its lines, trimmed and upper-cased, as a channel stores them.
use vstd::prelude::*;
use vstd::utf8::{encode_utf8, is_ascii_chars};

verus! {

/// Unicode White_Space, which `char::is_whitespace` and `str::trim` use.
pub open spec fn is_white_space(c: char) -> bool {
    ('\u{9}' <= c && c <= '\u{d}') || c == ' ' || c == '\u{85}' || c == '\u{a0}' || c == '\u{1680}'
        || ('\u{2000}' <= c && c <= '\u{200a}') || c == '\u{2028}' || c == '\u{2029}' || c
        == '\u{202f}' || c == '\u{205f}' || c == '\u{3000}'
}

pub open spec fn trim_start(l: Seq<char>) -> Seq<char>
    decreases l.len(),
{
    if l.len() > 0 && is_white_space(l[0]) {
        trim_start(l.drop_first())
    } else {
        l
    }
}

pub open spec fn trim_end(l: Seq<char>) -> Seq<char>
    decreases l.len(),
{
    if l.len() > 0 && is_white_space(l.last()) {
        trim_end(l.drop_last())
    } else {
        l
    }
}

/// A line without whitespace at either end.
pub open spec fn trimmed(l: Seq<char>) -> Seq<char> {
    trim_end(trim_start(l))
}

/// A line that a line feed ends, without a carriage return before it.
pub open spec fn without_cr(l: Seq<char>) -> Seq<char> {
    if l.len() > 0 && l.last() == '\r' {
        l.drop_last()
    } else {
        l
    }
}

/// The lines of `s` from a line that starts at `start`, with `i` scanned.
/// A line feed (or carriage return and line feed) ends a line; text after the
/// last line feed is a line when it is not empty.
pub open spec fn lines_from(s: Seq<char>, start: int, i: int) -> Seq<Seq<char>>
    decreases s.len() - i,
{
    if i < 0 || i >= s.len() {
        if 0 <= start < s.len() {
            seq![s.subrange(start, s.len() as int)]
        } else {
            seq![]
        }
    } else if s[i] == '\n' {
        seq![without_cr(s.subrange(start, i))] + lines_from(s, i + 1, i + 1)
    } else {
        lines_from(s, start, i + 1)
    }
}

/// The lines of a text, as `str::lines` gives them.
pub open spec fn lines_of(s: Seq<char>) -> Seq<Seq<char>> {
    lines_from(s, 0, 0)
}

/// What `str::to_uppercase` makes of a text: Unicode upper case.
pub uninterp spec fn upper_of(s: Seq<char>) -> Seq<char>;

/// ASCII upper case of a text.
pub open spec fn ascii_upper(s: Seq<char>) -> Seq<char> {
    s.map_values(|c: char| if 'a' <= c && c <= 'z' {
        ((c as u32) - 32) as char
    } else {
        c
    })
}

/// A line as a channel stores it: trimmed, upper-cased, as UTF-8 bytes.
pub open spec fn program_line(l: Seq<char>) -> Seq<u8> {
    encode_utf8(upper_of(trimmed(l)))
}

/// The lines of a program text, each as `program_line` gives it.
pub open spec fn program_lines(s: Seq<char>) -> Seq<Seq<u8>> {
    lines_of(s).map_values(|l: Seq<char>| program_line(l))
}

/// Relies on `str::lines`: the lines as `lines_of` describes them, copied.
#[verifier::external_body]
fn text_lines(s: &str) -> (r: Vec<String>)
    ensures
        r@.map_values(|l: String| l@) == lines_of(s@),
{
    s.lines().map(String::from).collect()
}

/// Relies on `str::trim`: the text without leading and trailing White_Space.
#[verifier::external_body]
fn trim_text(s: &str) -> (r: &str)
    ensures
        r@ == trimmed(s@),
{
    s.trim()
}

/// Relies on `str::to_uppercase`: the Unicode upper case of the text, which
/// on ASCII text upper-cases `a` to `z` and keeps the rest.
#[verifier::external_body]
pub fn upper_text(s: &str) -> (r: String)
    ensures
        r@ == upper_of(s@),
        is_ascii_chars(s@) ==> r@ == ascii_upper(s@),
{
    s.to_uppercase()
}

/// A copy of a byte slice.
pub fn bytes_of(b: &[u8]) -> (r: Vec<u8>)
    ensures
        r@ == b@,
{
    let mut r: Vec<u8> = Vec::new();
    let mut k: usize = 0;
    while k < b.len()
        invariant
            0 <= k <= b@.len(),
            r@ == b@.take(k as int),
        decreases b@.len() - k,
    {
        r.push(b[k]);
        k = k + 1;
        assert(r@ =~= b@.take(k as int));
    }
    assert(b@.take(k as int) =~= b@);
    r
}

/// The upper case of a text as UTF-8 bytes.
pub fn upper_bytes_of(s: &str) -> (r: Vec<u8>)
    ensures
        r@ == encode_utf8(upper_of(s@)),
{
    let u = upper_text(s);
    bytes_of(u.as_str().as_bytes())
}

/// Splits a program text into its lines, each trimmed and upper-cased, as
/// `program_lines` describes.
pub fn split_program(code: &str) -> (r: Vec<Vec<u8>>)
    ensures
        r@.map_values(|l: Vec<u8>| l@) == program_lines(code@),
{
    let lines = text_lines(code);
    let ghost ls = lines_of(code@);
    assert(lines@.len() == ls.len()) by {
        assert(lines@.map_values(|l: String| l@).len() == lines@.len());
    }
    let mut r: Vec<Vec<u8>> = Vec::new();
    let mut k: usize = 0;
    while k < lines.len()
        invariant
            0 <= k <= lines@.len(),
            ls == lines_of(code@),
            lines@.map_values(|l: String| l@) == ls,
            r@.len() == k,
            forall|j: int| 0 <= j < k ==> (#[trigger] r@[j])@ == program_line(ls[j]),
        decreases lines@.len() - k,
    {
        assert(lines@.map_values(|l: String| l@)[k as int] == lines@[k as int]@);
        let t = trim_text(lines[k].as_str());
        r.push(upper_bytes_of(t));
        k = k + 1;
    }
    assert(r@.map_values(|l: Vec<u8>| l@) =~= program_lines(code@));
    r
}

} // verus!
