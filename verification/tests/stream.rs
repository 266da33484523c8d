use chompy::char_stream::{CharStream, Cursor};

#[test]
fn commit_exactness_after_speculative_matches() {
    // Two successful speculative matches and one advance, then a commit:
    // the true cursor lands on the prior peek cursor and the returned text
    // is exactly the committed range.
    let mut s = CharStream::new("abcde");
    assert!(s.match_peek('a'));
    assert!(s.match_peek('b'));
    s.advance();
    assert_eq!(s.position(), 0);
    assert_eq!(s.peek_position(), 3);
    let committed = s.chomp_peeks();
    assert_eq!(committed, "abc".to_owned());
    assert_eq!(s.position(), 3);
    assert_eq!(s.peek_position(), 3);
}

#[test]
fn rollback_restores_position() {
    let mut s = CharStream::new("abcde");
    assert!(s.match_peek('a'));
    assert!(s.match_peek('b'));
    s.reset_peeks();
    assert_eq!(s.position(), 0);
    assert_eq!(s.peek_position(), 0);
    assert_eq!(s.chomp(), Some('a'));
}

#[test]
fn chomp_consumes_and_discards_speculation() {
    let mut s = CharStream::new("abc");
    assert!(s.match_peek('a'));
    assert!(s.match_peek('b'));
    assert_eq!(s.chomp(), Some('a'));
    assert_eq!(s.position(), 1);
    assert_eq!(s.peek_position(), 1);
    assert_eq!(s.chomp(), Some('b'));
    assert_eq!(s.chomp(), Some('c'));
    assert_eq!(s.chomp(), None);
    assert!(s.at_end());
}

#[test]
fn peek_does_not_move_cursors() {
    let mut s = CharStream::new("xy");
    assert_eq!(s.peek(), Some('x'));
    assert_eq!(s.peek(), Some('x'));
    assert_eq!(s.position(), 0);
    assert_eq!(s.peek_position(), 0);
    s.advance();
    assert_eq!(s.peek(), Some('y'));
    assert_eq!(s.position(), 0);
}

#[test]
fn peek_move_walks_ahead_of_true_cursor() {
    let mut s = CharStream::new("xy");
    assert_eq!(s.peek_move(), Some('x'));
    assert_eq!(s.peek_move(), Some('y'));
    assert_eq!(s.peek_move(), None);
    assert_eq!(s.position(), 0);
    assert_eq!(s.peek_position(), 2);
}

#[test]
fn inspect_and_empty_peeks() {
    let mut s = CharStream::new("hello");
    s.advance();
    s.advance();
    assert_eq!(s.inspect_peeks(), "he".to_owned());
    assert_eq!(s.peek_position(), 2);
    assert_eq!(s.empty_peeks(), "he".to_owned());
    assert_eq!(s.peek_position(), 0);
    assert_eq!(s.position(), 0);
}

#[test]
fn match_peek_mismatch_leaves_cursor() {
    let mut s = CharStream::new("ab");
    assert!(!s.match_peek('b'));
    assert_eq!(s.peek_position(), 0);
    assert!(s.match_peek('a'));
    assert_eq!(s.peek_position(), 1);
}

#[test]
fn match_chomp_commits_single_character() {
    let mut s = CharStream::new("ab");
    assert!(!s.match_chomp('b'));
    assert_eq!(s.position(), 0);
    assert!(s.match_chomp('a'));
    assert_eq!(s.position(), 1);
    assert_eq!(s.peek_position(), 1);
}

#[test]
fn match_chomp_with_predicate() {
    let mut s = CharStream::new(" a");
    assert!(s.match_chomp_with(|c: char| c.is_whitespace()));
    assert_eq!(s.position(), 1);
    assert!(!s.match_chomp_with(|c: char| c.is_whitespace()));
    assert_eq!(s.position(), 1);
}

#[test]
fn match_peek_with_predicate() {
    let mut s = CharStream::new("7b");
    assert!(s.match_peek_with(|c: char| c.is_ascii_digit()));
    assert_eq!(s.peek_position(), 1);
    assert!(!s.match_peek_with(|c: char| c.is_ascii_digit()));
    assert_eq!(s.peek_position(), 1);
}

#[test]
fn slice_and_source_copy_ranges() {
    let s = CharStream::new("hello");
    assert_eq!(s.slice(1, 4), "ell".to_owned());
    assert_eq!(s.slice(0, 0), "".to_owned());
    assert_eq!(s.source(), "hello".to_owned());
    assert_eq!(s.len(), 5);
    assert_eq!(s.char_len(), 5);
}

#[test]
fn empty_source_is_at_end() {
    let mut s = CharStream::new("");
    assert!(s.at_end());
    assert_eq!(s.peek(), None);
    assert_eq!(s.chomp(), None);
    assert_eq!(s.len(), 0);
}

#[test]
fn multibyte_characters_advance_by_byte_length() {
    // 'a' is one byte, 'é' two, '☃' three: positions are byte offsets.
    let mut s = CharStream::new("aé☃");
    assert_eq!(s.len(), 6);
    assert_eq!(s.char_len(), 3);
    assert_eq!(s.chomp(), Some('a'));
    assert_eq!(s.position(), 1);
    assert_eq!(s.chomp(), Some('é'));
    assert_eq!(s.position(), 3);
    assert_eq!(s.chomp(), Some('☃'));
    assert_eq!(s.position(), 6);
    assert!(s.at_end());
}

#[test]
fn multibyte_peeks_and_byte_slices() {
    let mut s = CharStream::new("aé☃");
    s.advance();
    assert_eq!(s.peek_position(), 1);
    s.advance();
    assert_eq!(s.peek_position(), 3);
    assert_eq!(s.inspect_peeks(), "aé".to_owned());
    assert_eq!(s.slice(1, 3), "é".to_owned());
    assert_eq!(s.slice(0, 6), "aé☃".to_owned());
}

#[test]
fn advance_stops_at_end_of_input() {
    let mut s = CharStream::new("a");
    s.advance();
    s.advance();
    s.advance();
    assert_eq!(s.peek_position(), 1);
}

#[test]
fn cursor_positions() {
    let c = Cursor::default();
    assert_eq!(c.position(), 0);
    assert_eq!(c.next(), 1);
    let c = Cursor(41);
    assert_eq!(c.position(), 41);
    assert_eq!(c.next(), 42);
}
