use machine_core::lexer::{lex_block, scan_number, Address, NumberSpan, Word};
use machine_core::number::{integral_number, round_number};

fn labels(ls: &[&str]) -> Vec<Vec<u8>> {
    ls.iter().map(|l| l.as_bytes().to_vec()).collect()
}

fn text<'a>(s: &'a [u8], w: &Word) -> &'a str {
    let n = w.number.expect("number");
    std::str::from_utf8(&s[n.start..n.end]).unwrap()
}

#[test]
fn lexes_letters_and_numbers_in_order() {
    let s = b"G90 G21 G1 X10 Y-5.5 F1200";
    let w = lex_block(s, &labels(&["X", "Y", "Z"]));
    let addrs: Vec<Address> = w.iter().map(|w| w.address).collect();
    assert_eq!(
        addrs,
        vec![
            Address::Letter(b'G'),
            Address::Letter(b'G'),
            Address::Letter(b'G'),
            Address::Letter(b'X'),
            Address::Letter(b'Y'),
            Address::Letter(b'F'),
        ]
    );
    assert_eq!(text(s, &w[3]), "10");
    assert_eq!(text(s, &w[4]), "-5.5");
    assert_eq!(text(s, &w[5]), "1200");
}

#[test]
fn spaces_after_word_address_are_accepted() {
    let s = b"G90 G21 G1 X 10 Y -5 Z 2";
    let w = lex_block(s, &labels(&["X", "Y", "Z"]));
    assert_eq!(w.len(), 6);
    assert_eq!(text(s, &w[3]), "10");
    assert_eq!(text(s, &w[4]), "-5");
    assert_eq!(text(s, &w[5]), "2");
}

#[test]
fn comments_are_skipped() {
    let s = b"G1 (move X99) X5 ; Y7";
    let w = lex_block(s, &labels(&[]));
    assert_eq!(w.len(), 2);
    assert_eq!(w[1].address, Address::Letter(b'X'));
    assert_eq!(text(s, &w[1]), "5");
    let unmatched = lex_block(b"X1 (no end X2", &labels(&[]));
    assert_eq!(unmatched.len(), 1);
}

#[test]
fn multi_character_label_wins_over_letter() {
    let s = b"Z3 12.5 Z4";
    let w = lex_block(s, &labels(&["Z", "Z3"]));
    assert_eq!(w.len(), 2);
    assert_eq!(w[0].address, Address::Label(1));
    assert_eq!(text(s, &w[0]), "12.5");
    assert_eq!(w[1].address, Address::Letter(b'Z'));
}

#[test]
fn single_letter_label_only_where_no_letter_matches() {
    let s = b"A45 X1";
    let w = lex_block(s, &labels(&["X", "A"]));
    assert_eq!(w[0].address, Address::Label(1));
    assert_eq!(w[1].address, Address::Letter(b'X'));
}

#[test]
fn lower_case_letters_are_read_upper_case() {
    let w = lex_block(b"g1 x2", &labels(&[]));
    assert_eq!(w[0].address, Address::Letter(b'G'));
    assert_eq!(w[1].address, Address::Letter(b'X'));
}

#[test]
fn malformed_bytes_are_skipped() {
    let w = lex_block(b"N10 ?X.", &labels(&[]));
    assert_eq!(w.len(), 1);
    assert_eq!(w[0].address, Address::Letter(b'X'));
    assert_eq!(w[0].number, None);
}

#[test]
fn scan_number_forms() {
    assert_eq!(scan_number(b"  -1.5X", 0), (Some(NumberSpan { start: 2, end: 6 }), 6));
    assert_eq!(scan_number(b"+.5", 0), (Some(NumberSpan { start: 0, end: 3 }), 3));
    assert_eq!(scan_number(b"1.2.3", 0), (Some(NumberSpan { start: 0, end: 3 }), 3));
    assert_eq!(scan_number(b" -.X", 0), (None, 1));
    assert_eq!(scan_number(b"   ", 0), (None, 3));
    assert_eq!(scan_number(b"", 0), (None, 0));
}

#[test]
fn rounding_is_half_away_from_zero() {
    let r = |s: &str| round_number(s.as_bytes(), NumberSpan { start: 0, end: s.len() });
    assert_eq!(r("1"), 1);
    assert_eq!(r("1.5"), 2);
    assert_eq!(r("1.49"), 1);
    assert_eq!(r("-2.5"), -3);
    assert_eq!(r("153"), 153);
    assert_eq!(r("99999999999"), i32::MAX);
    assert_eq!(r("-99999999999"), i32::MIN);
}

#[test]
fn integral_numbers_name_slots() {
    let v = |s: &str| integral_number(s.as_bytes(), NumberSpan { start: 0, end: s.len() });
    assert_eq!(v("2"), Some(2));
    assert_eq!(v("2.0000000001"), Some(2));
    assert_eq!(v("2.000000001"), Some(2));
    assert_eq!(v("2.000000002"), None);
    assert_eq!(v("2.9999999999"), Some(3));
    assert_eq!(v("2.5"), None);
    assert_eq!(v("-1"), Some(-1));
}
