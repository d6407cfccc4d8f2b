use machine_core::program::split_program;

#[test]
fn lines_follow_line_feeds() {
    assert_eq!(split_program(""), Vec::<Vec<u8>>::new());
    assert_eq!(split_program("\n"), vec![Vec::<u8>::new()]);
    assert_eq!(split_program("a\nb"), vec![b"A".to_vec(), b"B".to_vec()]);
    assert_eq!(split_program("a\n\nb\n"), vec![b"A".to_vec(), Vec::new(), b"B".to_vec()]);
}

#[test]
fn lines_are_trimmed_and_upper_cased() {
    assert_eq!(split_program(" \tg1 x1.5 \r"), vec![b"G1 X1.5".to_vec()]);
    assert_eq!(split_program("(note) m3"), vec![b"(NOTE) M3".to_vec()]);
}

#[test]
fn carriage_return_line_feed_ends_a_line() {
    assert_eq!(split_program("g1\r\ng2"), vec![b"G1".to_vec(), b"G2".to_vec()]);
}

#[test]
fn unicode_text_is_trimmed_and_upper_cased() {
    assert_eq!(split_program("\u{a0}é x1\u{3000}"), vec!["É X1".as_bytes().to_vec()]);
}
