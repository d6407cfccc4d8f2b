//! Values of the numbers that the lexer finds, as far as the interpreter
//! reads them exactly: rounded codes and tool-table slot indices.
use vstd::prelude::*;
use crate::lexer::{is_digit, NumberSpan};

verus! {

/// Value of one decimal digit; any other byte counts as zero.
pub open spec fn digit_val(b: u8) -> int {
    if is_digit(b) {
        b as int - 48
    } else {
        0
    }
}

/// Value of a run of decimal digits.
pub open spec fn digits_value(d: Seq<u8>) -> int
    decreases d.len(),
{
    if d.len() == 0 {
        0
    } else {
        digits_value(d.drop_last()) * 10 + digit_val(d.last())
    }
}

/// The text starts with a minus sign.
pub open spec fn is_negative(t: Seq<u8>) -> bool {
    t.len() > 0 && t[0] == 45u8
}

/// The text without its leading sign.
pub open spec fn magnitude_text(t: Seq<u8>) -> Seq<u8> {
    if t.len() > 0 && (t[0] == 43u8 || t[0] == 45u8) {
        t.subrange(1, t.len() as int)
    } else {
        t
    }
}

/// Index of the first `.` at or after `k`, or the length.
pub open spec fn dot_pos(u: Seq<u8>, k: int) -> int
    decreases u.len() - k,
{
    if k < 0 || k >= u.len() {
        u.len() as int
    } else if u[k] == 46u8 {
        k
    } else {
        dot_pos(u, k + 1)
    }
}

/// The digits before the point.
pub open spec fn int_digits(t: Seq<u8>) -> Seq<u8> {
    let u = magnitude_text(t);
    u.subrange(0, dot_pos(u, 0))
}

/// The digits after the point.
pub open spec fn frac_digits(t: Seq<u8>) -> Seq<u8> {
    let u = magnitude_text(t);
    if dot_pos(u, 0) < u.len() {
        u.subrange(dot_pos(u, 0) + 1, u.len() as int)
    } else {
        Seq::empty()
    }
}

/// The number written in `t`, rounded to an integer, halves away from zero.
pub open spec fn rounded(t: Seq<u8>) -> int {
    let f = frac_digits(t);
    let m = digits_value(int_digits(t)) + if f.len() > 0 && digit_val(f[0]) >= 5 {
        1int
    } else {
        0
    };
    if is_negative(t) {
        -m
    } else {
        m
    }
}

/// `x` held to the range of `i32`.
pub open spec fn saturate_i32(x: int) -> i32 {
    if x < i32::MIN {
        i32::MIN
    } else if x > i32::MAX {
        i32::MAX
    } else {
        x as i32
    }
}

/// Digit `k` of a fraction; digits past its end are zero.
pub open spec fn frac_digit(f: Seq<u8>, k: int) -> int {
    if 0 <= k < f.len() {
        digit_val(f[k])
    } else {
        0
    }
}

/// The fraction `0.f` is at most 0.000000001.
pub open spec fn frac_tiny(f: Seq<u8>) -> bool {
    &&& forall|k: int| 0 <= k < 8 ==> frac_digit(f, k) == 0
    &&& (frac_digit(f, 8) == 0 || (frac_digit(f, 8) == 1 && forall|k: int|
        9 <= k < f.len() ==> frac_digit(f, k) == 0))
}

/// The fraction `0.f` is at least 0.999999999.
pub open spec fn frac_near_one(f: Seq<u8>) -> bool {
    forall|k: int| 0 <= k < 9 ==> frac_digit(f, k) == 9
}

/// The integer that the number names, when it lies within 1e-9 of one in the
/// range of `i32`: how a D or H word picks a tool-table slot.
pub open spec fn integral_of(t: Seq<u8>) -> Option<i32> {
    let f = frac_digits(t);
    if (frac_tiny(f) || frac_near_one(f)) && i32::MIN <= rounded(t) <= i32::MAX {
        Some(rounded(t) as i32)
    } else {
        None
    }
}

/// The text of the number in `n`.
pub open spec fn span_text(s: Seq<u8>, n: NumberSpan) -> Seq<u8> {
    s.subrange(n.start as int, n.end as int)
}

proof fn lemma_digits_value_nonneg(d: Seq<u8>)
    ensures
        digits_value(d) >= 0,
    decreases d.len(),
{
    if d.len() > 0 {
        lemma_digits_value_nonneg(d.drop_last());
    }
}

proof fn lemma_dot_pos(u: Seq<u8>, k: int)
    requires
        0 <= k <= u.len(),
    ensures
        k <= dot_pos(u, k) <= u.len(),
        dot_pos(u, k) < u.len() ==> u[dot_pos(u, k)] == 46u8,
        forall|j: int| k <= j < dot_pos(u, k) ==> u[j] != 46u8,
    decreases u.len() - k,
{
    if k < u.len() && u[k] != 46u8 {
        lemma_dot_pos(u, k + 1);
    }
}

/// Cap on the magnitude of a rounded number, above the range of `i32`.
pub const SATURATION: u64 = 4294967296;

/// The magnitude of the rounded number is capped at `SATURATION`.
pub open spec fn capped(x: int) -> int {
    if x < SATURATION {
        x
    } else {
        SATURATION as int
    }
}

/// Sign and capped magnitude of the rounded number in `n`, and where its
/// fractional digits start.
fn rounded_parts(s: &[u8], n: NumberSpan) -> (r: (bool, u64, usize))
    requires
        n.start <= n.end <= s@.len(),
    ensures
        r.0 == is_negative(span_text(s@, n)),
        r.1 as int == capped(if r.0 {
            -rounded(span_text(s@, n))
        } else {
            rounded(span_text(s@, n))
        }),
        n.start <= r.2 <= n.end,
        s@.subrange(r.2 as int, n.end as int) == frac_digits(span_text(s@, n)),
{
    let ghost t = span_text(s@, n);
    let ghost u = magnitude_text(t);
    let mut p: usize = n.start;
    let negative = p < n.end && s[p] == 45u8;
    if p < n.end && (s[p] == 43u8 || s[p] == 45u8) {
        p = p + 1;
    }
    let ghost base = p as int;
    assert(u =~= s@.subrange(base, n.end as int));
    proof {
        lemma_dot_pos(u, 0);
    }
    let ghost dp = dot_pos(u, 0);
    let mut acc: u64 = 0;
    while p < n.end && s[p] != 46u8
        invariant
            base <= p <= n.end,
            n.end <= s@.len(),
            u =~= s@.subrange(base, n.end as int),
            u.len() == n.end - base,
            forall|j: int| 0 <= j < u.len() ==> #[trigger] u[j] == s@[base + j],
            p - base <= dp,
            0 <= dp <= u.len(),
            dp < u.len() ==> u[dp] == 46u8,
            forall|j: int| 0 <= j < dp ==> u[j] != 46u8,
            acc as int == if digits_value(u.subrange(0, p - base)) < SATURATION {
                digits_value(u.subrange(0, p - base))
            } else {
                SATURATION as int
            },
        decreases n.end - p,
    {
        let ghost k = p - base;
        assert(u[p - base] == s@[p as int]);
        assert(u.subrange(0, k + 1).drop_last() =~= u.subrange(0, k));
        proof {
            lemma_digits_value_nonneg(u.subrange(0, k));
        }
        let b = s[p];
        let d: u64 = if 48u8 <= b && b <= 57u8 {
            (b - 48) as u64
        } else {
            0
        };
        if acc >= SATURATION {
            acc = SATURATION;
        } else {
            acc = acc * 10 + d;
            if acc > SATURATION {
                acc = SATURATION;
            }
        }
        p = p + 1;
    }
    if p < n.end {
        assert(u[p - base] == s@[p as int]);
    }
    assert(p - base == dp);
    assert(int_digits(t) =~= u.subrange(0, p - base));
    let mut round_up = false;
    if p < n.end && p + 1 < n.end {
        let b = s[p + 1];
        round_up = 53u8 <= b && b <= 57u8;
        assert(frac_digits(t)[0] == s@[p + 1]);
    }
    proof {
        lemma_digits_value_nonneg(int_digits(t));
    }
    if round_up && acc < SATURATION {
        acc = acc + 1;
    }
    let fs: usize = if p < n.end {
        p + 1
    } else {
        n.end
    };
    assert(s@.subrange(fs as int, n.end as int) =~= frac_digits(t));
    (negative, acc, fs)
}

/// The number in `n`, rounded halves away from zero and held to `i32`.
pub fn round_number(s: &[u8], n: NumberSpan) -> (r: i32)
    requires
        n.start <= n.end <= s@.len(),
    ensures
        r == saturate_i32(rounded(span_text(s@, n))),
{
    let (negative, acc, _) = rounded_parts(s, n);
    if negative {
        if acc > 2147483648 {
            i32::MIN
        } else {
            (0 - (acc as i64)) as i32
        }
    } else {
        if acc > 2147483647 {
            i32::MAX
        } else {
            acc as i32
        }
    }
}

/// Whether the fraction `s[a..b]` lies within 1e-9 of 0 or of 1.
fn fraction_near_integer(s: &[u8], a: usize, b: usize) -> (r: bool)
    requires
        a <= b <= s@.len(),
    ensures
        r == (frac_tiny(s@.subrange(a as int, b as int)) || frac_near_one(
            s@.subrange(a as int, b as int),
        )),
{
    let ghost f = s@.subrange(a as int, b as int);
    let mut k: usize = 0;
    let len = b - a;
    let mut zeros8 = true;
    let mut d8: u8 = 0;
    let mut tail_zero = true;
    let mut nines = true;
    while k < len
        invariant
            0 <= k <= len,
            len == f.len(),
            a + len <= s@.len(),
            s@.len() == s.len(),
            f == s@.subrange(a as int, b as int),
            forall|j: int| 0 <= j < len ==> #[trigger] f[j] == s@[a + j],
            zeros8 == forall|j: int| 0 <= j < k && j < 8 ==> frac_digit(f, j) == 0,
            d8 as int == if k > 8 {
                frac_digit(f, 8)
            } else {
                0
            },
            tail_zero == forall|j: int| 9 <= j < k ==> frac_digit(f, j) == 0,
            nines == forall|j: int| 0 <= j < k && j < 9 ==> frac_digit(f, j) == 9,
        decreases len - k,
    {
        let c = s[a + k];
        assert(f[k as int] == c);
        let d: u8 = if 48u8 <= c && c <= 57u8 {
            c - 48
        } else {
            0
        };
        assert(frac_digit(f, k as int) == d as int);
        if k < 8 && d != 0 {
            zeros8 = false;
        }
        if k == 8 {
            d8 = d;
        }
        if k >= 9 && d != 0 {
            tail_zero = false;
        }
        if k < 9 && d != 9 {
            nines = false;
        }
        k = k + 1;
        assert(zeros8 == forall|j: int| 0 <= j < k && j < 8 ==> frac_digit(f, j) == 0);
        assert(tail_zero == forall|j: int| 9 <= j < k ==> frac_digit(f, j) == 0);
        assert(nines == forall|j: int| 0 <= j < k && j < 9 ==> frac_digit(f, j) == 9);
    }
    let tiny = zeros8 && (d8 == 0 || (d8 == 1 && tail_zero));
    let near_one = nines && len >= 9;
    assert(tiny == frac_tiny(f));
    proof {
        if !near_one && frac_near_one(f) {
            assert(frac_digit(f, len as int) == 9);
        }
    }
    tiny || near_one
}

/// The integer that the number in `n` names, as `integral_of` describes.
pub fn integral_number(s: &[u8], n: NumberSpan) -> (r: Option<i32>)
    requires
        n.start <= n.end <= s@.len(),
    ensures
        r == integral_of(span_text(s@, n)),
{
    let (negative, acc, fs) = rounded_parts(s, n);
    let near = fraction_near_integer(s, fs, n.end);
    if !near {
        return None;
    }
    if negative {
        if acc > 2147483648 {
            None
        } else {
            Some((0 - (acc as i64)) as i32)
        }
    } else {
        if acc > 2147483647 {
            None
        } else {
            Some(acc as i32)
        }
    }
}

} // verus!
