//! What a block's words say, letter by letter.
use vstd::prelude::*;
use crate::lexer::{spans_in, Address, NumberSpan, Word};
use crate::number::{round_number, rounded, saturate_i32, span_text};

verus! {

/// The rounded codes of the words with this letter that carry a number, in
/// order (G and M codes).
pub open spec fn codes_of(s: Seq<u8>, w: Seq<Word>, letter: u8) -> Seq<i32>
    decreases w.len(),
{
    if w.len() == 0 {
        seq![]
    } else {
        let prev = codes_of(s, w.drop_last(), letter);
        let x = w.last();
        if x.address == Address::Letter(letter) && x.number is Some {
            prev.push(saturate_i32(rounded(span_text(s, x.number->0))))
        } else {
            prev
        }
    }
}

/// The number of the last word with this letter: a later word without a number
/// clears an earlier one's.
pub open spec fn last_number(w: Seq<Word>, letter: u8) -> Option<NumberSpan>
    decreases w.len(),
{
    if w.len() == 0 {
        None
    } else if w.last().address == Address::Letter(letter) {
        w.last().number
    } else {
        last_number(w.drop_last(), letter)
    }
}

/// The last number written after this letter.
pub open spec fn last_value(w: Seq<Word>, letter: u8) -> Option<NumberSpan>
    decreases w.len(),
{
    if w.len() == 0 {
        None
    } else if w.last().address == Address::Letter(letter) && w.last().number is Some {
        w.last().number
    } else {
        last_value(w.drop_last(), letter)
    }
}

/// The rounded codes of `letter`, as `codes_of` describes.
pub fn codes(s: &[u8], w: &Vec<Word>, letter: u8) -> (r: Vec<i32>)
    requires
        spans_in(s@, w@),
    ensures
        r@ == codes_of(s@, w@, letter),
{
    let mut r: Vec<i32> = Vec::new();
    let mut k: usize = 0;
    while k < w.len()
        invariant
            0 <= k <= w@.len(),
            spans_in(s@, w@),
            r@ == codes_of(s@, w@.take(k as int), letter),
        decreases w@.len() - k,
    {
        assert(w@.take(k + 1).drop_last() =~= w@.take(k as int));
        let x = w[k];
        if x.address == Address::Letter(letter) {
            if let Some(n) = x.number {
                r.push(round_number(s, n));
            }
        }
        k = k + 1;
    }
    assert(w@.take(k as int) =~= w@);
    r
}

/// The number of the last word with this letter, as `last_number` describes.
pub fn find_last_number(w: &Vec<Word>, letter: u8) -> (r: Option<NumberSpan>)
    ensures
        r == last_number(w@, letter),
{
    let mut r: Option<NumberSpan> = None;
    let mut k: usize = 0;
    while k < w.len()
        invariant
            0 <= k <= w@.len(),
            r == last_number(w@.take(k as int), letter),
        decreases w@.len() - k,
    {
        assert(w@.take(k + 1).drop_last() =~= w@.take(k as int));
        if w[k].address == Address::Letter(letter) {
            r = w[k].number;
        }
        k = k + 1;
    }
    assert(w@.take(k as int) =~= w@);
    r
}

/// The last number written after this letter, as `last_value` describes.
pub fn find_last_value(w: &Vec<Word>, letter: u8) -> (r: Option<NumberSpan>)
    ensures
        r == last_value(w@, letter),
{
    let mut r: Option<NumberSpan> = None;
    let mut k: usize = 0;
    while k < w.len()
        invariant
            0 <= k <= w@.len(),
            r == last_value(w@.take(k as int), letter),
        decreases w@.len() - k,
    {
        assert(w@.take(k + 1).drop_last() =~= w@.take(k as int));
        if w[k].address == Address::Letter(letter) && w[k].number.is_some() {
            r = w[k].number;
        }
        k = k + 1;
    }
    assert(w@.take(k as int) =~= w@);
    r
}

} // verus!
