//! Byte-wise scanner of one G-code block into words.
use vstd::prelude::*;

verus! {

/// ASCII whitespace: space, tab, line feed, form feed, carriage return.
pub open spec fn is_space(b: u8) -> bool {
    b == 32u8 || b == 9u8 || b == 10u8 || b == 12u8 || b == 13u8
}

pub open spec fn is_digit(b: u8) -> bool {
    48u8 <= b <= 57u8
}

/// ASCII upper case of one byte.
pub open spec fn upper(b: u8) -> u8 {
    if 97u8 <= b <= 122u8 {
        (b - 32) as u8
    } else {
        b
    }
}

/// First index at or after `j` that holds no whitespace.
pub open spec fn skip_space(s: Seq<u8>, j: int) -> int
    decreases s.len() - j,
{
    if 0 <= j < s.len() && is_space(s[j]) {
        skip_space(s, j + 1)
    } else {
        j
    }
}

/// Index after an optional leading `+` or `-` at `j`.
pub open spec fn sign_end(s: Seq<u8>, j: int) -> int {
    if 0 <= j < s.len() && (s[j] == 43u8 || s[j] == 45u8) {
        j + 1
    } else {
        j
    }
}

/// End of the run of digits and at most one `.` that starts at `k`.
pub open spec fn body_end(s: Seq<u8>, k: int, seen_dot: bool) -> int
    decreases s.len() - k,
{
    if 0 <= k < s.len() && (is_digit(s[k]) || (s[k] == 46u8 && !seen_dot)) {
        body_end(s, k + 1, seen_dot || s[k] == 46u8)
    } else {
        k
    }
}

pub open spec fn has_digit_in(s: Seq<u8>, a: int, b: int) -> bool {
    exists|t: int| a <= t < b && is_digit(#[trigger] s[t])
}

/// Where the text of a number lies in a block.
#[derive(Clone, Copy, Debug, PartialEq, Eq, Structural)]
pub struct NumberSpan {
    pub start: usize,
    pub end: usize,
}

/// The number that starts at `i` (after optional whitespace), and the index
/// where scanning resumes. A number is an optional sign followed by digits with
/// at most one `.`, holding at least one digit. Without a number only the
/// whitespace is consumed.
pub open spec fn number_at(s: Seq<u8>, i: int) -> (Option<NumberSpan>, int) {
    let j = skip_space(s, i);
    if j >= s.len() {
        (None, j)
    } else {
        let e = body_end(s, sign_end(s, j), false);
        if has_digit_in(s, sign_end(s, j), e) {
            (Some(NumberSpan { start: j as usize, end: e as usize }), e)
        } else {
            (None, j)
        }
    }
}

/// Scans the number that starts at `i`, as `number_at` describes.
pub fn scan_number(s: &[u8], i: usize) -> (r: (Option<NumberSpan>, usize))
    requires
        i <= s@.len(),
    ensures
        r.0 == number_at(s@, i as int).0,
        r.1 as int == number_at(s@, i as int).1,
        i <= r.1 <= s@.len(),
        r.0 is Some ==> r.0->0.start <= r.0->0.end <= s@.len(),
{
    let n = s.len();
    let mut j: usize = i;
    while j < n && (s[j] == 32u8 || s[j] == 9u8 || s[j] == 10u8 || s[j] == 12u8 || s[j] == 13u8)
        invariant
            i <= j <= n,
            n == s@.len(),
            skip_space(s@, j as int) == skip_space(s@, i as int),
        decreases n - j,
    {
        j = j + 1;
    }
    assert(skip_space(s@, j as int) == j as int);
    if j >= n {
        return (None, j);
    }
    let mut k: usize = j;
    if s[k] == 43u8 || s[k] == 45u8 {
        k = k + 1;
    }
    let ks: usize = k;
    let mut seen_dot = false;
    let mut has_digit = false;
    while k < n && ((48u8 <= s[k] && s[k] <= 57u8) || (s[k] == 46u8 && !seen_dot))
        invariant
            ks <= k <= n,
            n == s@.len(),
            ks == sign_end(s@, j as int),
            body_end(s@, k as int, seen_dot) == body_end(s@, ks as int, false),
            has_digit == has_digit_in(s@, ks as int, k as int),
        decreases n - k,
    {
        if 48u8 <= s[k] && s[k] <= 57u8 {
            has_digit = true;
        }
        if s[k] == 46u8 {
            seen_dot = true;
        }
        assert(has_digit == has_digit_in(s@, ks as int, k + 1)) by {
            if has_digit_in(s@, ks as int, k + 1) && !is_digit(s@[k as int]) {
                let t = choose|t: int| ks <= t < k + 1 && is_digit(#[trigger] s@[t]);
                assert(t < k);
            }
        }
        k = k + 1;
    }
    assert(body_end(s@, k as int, seen_dot) == k as int);
    if has_digit {
        (Some(NumberSpan { start: j, end: k }), k)
    } else {
        (None, j)
    }
}


/// What a word addresses: one of the letters `G M F S T I J R D H X Y Z`
/// (upper-cased), or a channel axis label given by its index.
#[derive(Clone, Copy, Debug, PartialEq, Eq, Structural)]
pub enum Address {
    Letter(u8),
    Label(usize),
}

/// One word of a block: its address and the number written after it, if any.
#[derive(Clone, Copy, Debug, PartialEq, Eq, Structural)]
pub struct Word {
    pub address: Address,
    pub number: Option<NumberSpan>,
}

/// The letters that address words: G M F S T I J R D H X Y Z.
pub open spec fn is_word_letter(c: u8) -> bool {
    c == 71u8 || c == 77u8 || c == 70u8 || c == 83u8 || c == 84u8 || c == 73u8 || c == 74u8
        || c == 82u8 || c == 68u8 || c == 72u8 || c == 88u8 || c == 89u8 || c == 90u8
}

/// Label `l` is non-empty and is written in `s` at `i`.
pub open spec fn label_at(s: Seq<u8>, l: Seq<u8>, i: int) -> bool {
    0 < l.len() && 0 <= i && i + l.len() <= s.len() && s.subrange(i, i + l.len()) == l
}

/// Among the first `n` labels, the longest one written at `i` (the first of
/// equal length).
pub open spec fn best_label(s: Seq<u8>, labels: Seq<Seq<u8>>, i: int, n: int) -> Option<int>
    decreases n,
{
    if n <= 0 {
        None
    } else {
        let prev = best_label(s, labels, i, n - 1);
        if label_at(s, labels[n - 1], i) && (prev is None || labels[prev->0].len() < labels[
            n - 1
        ].len()) {
            Some(n - 1)
        } else {
            prev
        }
    }
}

pub proof fn lemma_best_label(s: Seq<u8>, labels: Seq<Seq<u8>>, i: int, n: int)
    requires
        n <= labels.len(),
    ensures
        best_label(s, labels, i, n) is Some ==> {
            let k = best_label(s, labels, i, n)->0;
            0 <= k < n && label_at(s, labels[k], i)
        },
    decreases n,
{
    if n > 0 {
        lemma_best_label(s, labels, i, n - 1);
    }
}

/// The labels as byte strings.
pub open spec fn labels_view(labels: Seq<Vec<u8>>) -> Seq<Seq<u8>> {
    labels.map_values(|l: Vec<u8>| l@)
}

/// The word that starts at `i` and the index after it. A label longer than one
/// byte takes precedence over the letters; a one-byte label counts only where
/// no letter matches. Any other byte is skipped.
pub open spec fn word_at(s: Seq<u8>, labels: Seq<Seq<u8>>, i: int) -> (Option<Word>, int) {
    let best = best_label(s, labels, i, labels.len() as int);
    let c = upper(s[i]);
    if best is Some && (labels[best->0].len() > 1 || !is_word_letter(c)) {
        let k = best->0;
        let (n, e) = number_at(s, i + labels[k].len());
        (Some(Word { address: Address::Label(k as usize), number: n }), e)
    } else if is_word_letter(c) {
        let (n, e) = number_at(s, i + 1);
        (Some(Word { address: Address::Letter(c), number: n }), e)
    } else {
        (None, i + 1)
    }
}

/// The words of `s` from `i` on. `;` ends the block; `(` opens a comment that
/// runs to the next `)` or to the end.
pub open spec fn lex_from(s: Seq<u8>, labels: Seq<Seq<u8>>, i: int, in_comment: bool) -> Seq<
    Word,
>
    decreases s.len() - i,
{
    if i < 0 || i >= s.len() {
        seq![]
    } else if in_comment {
        lex_from(s, labels, i + 1, s[i] != 41u8)
    } else if is_space(s[i]) {
        lex_from(s, labels, i + 1, false)
    } else if s[i] == 59u8 {
        seq![]
    } else if s[i] == 40u8 {
        lex_from(s, labels, i + 1, true)
    } else {
        let (w, next) = word_at(s, labels, i);
        // A word consumes at least its address, within the block.
        if i < next <= s.len() {
            match w {
                Some(w) => seq![w] + lex_from(s, labels, next, false),
                None => lex_from(s, labels, next, false),
            }
        } else {
            seq![]
        }
    }
}

/// The words of a whole block.
pub open spec fn lex(s: Seq<u8>, labels: Seq<Seq<u8>>) -> Seq<Word> {
    lex_from(s, labels, 0, false)
}

/// Whether label `l` is written in `s` at `i`.
fn label_matches(s: &[u8], l: &Vec<u8>, i: usize) -> (r: bool)
    requires
        i <= s@.len(),
    ensures
        r == label_at(s@, l@, i as int),
{
    let n = l.len();
    if n == 0 || n > s.len() - i {
        return false;
    }
    let mut t: usize = 0;
    while t < n
        invariant
            0 <= t <= n,
            n == l@.len(),
            i + n <= s@.len(),
            s@.len() == s.len(),
            forall|u: int| 0 <= u < t ==> s@[i + u] == l@[u],
        decreases n - t,
    {
        if s[i + t] != l[t] {
            assert(s@.subrange(i as int, i + n)[t as int] != l@[t as int]);
            return false;
        }
        t = t + 1;
    }
    assert(s@.subrange(i as int, i + n) =~= l@);
    true
}

/// Index of the longest label written at `i`, as `best_label` describes.
fn find_label(s: &[u8], labels: &Vec<Vec<u8>>, i: usize) -> (r: Option<usize>)
    requires
        i <= s@.len(),
    ensures
        match best_label(s@, labels_view(labels@), i as int, labels@.len() as int) {
            Some(k) => r is Some && r->0 as int == k,
            None => r is None,
        },
        r is Some ==> r->0 < labels@.len() && label_at(s@, labels@[r->0 as int]@, i as int),
{
    let ghost lv = labels_view(labels@);
    let mut best: Option<usize> = None;
    let mut best_len: usize = 0;
    let mut k: usize = 0;
    while k < labels.len()
        invariant
            0 <= k <= labels@.len(),
            lv == labels_view(labels@),
            lv.len() == labels@.len(),
            i <= s@.len(),
            match best_label(s@, lv, i as int, k as int) {
                Some(b) => best is Some && best->0 as int == b && b < k && best_len == lv[b].len(),
                None => best is None,
            },
        decreases labels@.len() - k,
    {
        proof {
            lemma_best_label(s@, lv, i as int, k as int);
        }
        let m = label_matches(s, &labels[k], i);
        assert(lv[k as int] == labels@[k as int]@);
        if m && (best.is_none() || best_len < labels[k].len()) {
            best = Some(k);
            best_len = labels[k].len();
        }
        k = k + 1;
    }
    proof {
        lemma_best_label(s@, lv, i as int, k as int);
    }
    best
}

/// The word that starts at `i`, as `word_at` describes.
fn next_word(s: &[u8], labels: &Vec<Vec<u8>>, i: usize) -> (r: (Option<Word>, usize))
    requires
        i < s@.len(),
    ensures
        (r.0, r.1 as int) == word_at(s@, labels_view(labels@), i as int),
        i < r.1 <= s@.len(),
        r.0 is Some && r.0->0.number is Some ==> r.0->0.number->0.start <= r.0->0.number->0.end
            <= s@.len(),
{
    let ghost lv = labels_view(labels@);
    let b = s[i];
    let c = if 97u8 <= b && b <= 122u8 {
        b - 32
    } else {
        b
    };
    let letter = c == 71u8 || c == 77u8 || c == 70u8 || c == 83u8 || c == 84u8 || c == 73u8
        || c == 74u8 || c == 82u8 || c == 68u8 || c == 72u8 || c == 88u8 || c == 89u8 || c
        == 90u8;
    assert(lv.len() == labels@.len());
    match find_label(s, labels, i) {
        Some(k) => {
            assert(lv[k as int] == labels@[k as int]@);
            let len = labels[k].len();
            if len > 1 || !letter {
                let (num, e) = scan_number(s, i + len);
                return (Some(Word { address: Address::Label(k), number: num }), e);
            }
        },
        None => {},
    }
    if letter {
        let (num, e) = scan_number(s, i + 1);
        (Some(Word { address: Address::Letter(c), number: num }), e)
    } else {
        (None, i + 1)
    }
}

/// Every number span of `w` lies within `s`.
pub open spec fn spans_in(s: Seq<u8>, w: Seq<Word>) -> bool {
    forall|k: int|
        0 <= k < w.len() && (#[trigger] w[k]).number is Some ==> w[k].number->0.start
            <= w[k].number->0.end <= s.len()
}

/// Splits a block into its words, as `lex` describes. `labels` are the
/// channel's axis labels, upper-cased.
pub fn lex_block(s: &[u8], labels: &Vec<Vec<u8>>) -> (words: Vec<Word>)
    ensures
        words@ == lex(s@, labels_view(labels@)),
        spans_in(s@, words@),
{
    let ghost lv = labels_view(labels@);
    let n = s.len();
    let mut words: Vec<Word> = Vec::new();
    let mut i: usize = 0;
    let mut in_comment = false;
    while i < n
        invariant
            0 <= i <= n,
            n == s@.len(),
            lv == labels_view(labels@),
            words@ + lex_from(s@, lv, i as int, in_comment) == lex(s@, lv),
            spans_in(s@, words@),
        decreases n - i,
    {
        let b = s[i];
        if in_comment {
            in_comment = b != 41u8;
            i = i + 1;
        } else if b == 32u8 || b == 9u8 || b == 10u8 || b == 12u8 || b == 13u8 {
            i = i + 1;
        } else if b == 59u8 {
            assert(lex_from(s@, lv, i as int, in_comment) =~= seq![]);
            assert(words@ =~= words@ + Seq::<Word>::empty());
            return words;
        } else if b == 40u8 {
            in_comment = true;
            i = i + 1;
        } else {
            let (w, e) = next_word(s, labels, i);
            proof {
                if w is Some {
                    assert(words@.push(w->0) + lex_from(s@, lv, e as int, false) =~= words@
                        + lex_from(s@, lv, i as int, false));
                }
            }
            if let Some(w) = w {
                words.push(w);
            }
            i = e;
        }
    }
    assert(lex_from(s@, lv, i as int, in_comment) =~= seq![]);
    assert(words@ =~= words@ + Seq::<Word>::empty());
    words
}

} // verus!
