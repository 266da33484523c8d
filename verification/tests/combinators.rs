use chompy::char_stream::CharStream;
use chompy::lex_errors::{InvalidHex, UnterminatedString};
use chompy::location::{Location, Span};

#[test]
fn integer_plain() {
    let mut s = CharStream::new("123");
    assert_eq!(s.construct_integer(false), Some(123));
    assert_eq!(s.position(), 3);
}

#[test]
fn integer_with_underscores() {
    let mut s = CharStream::new("1_000_000");
    assert_eq!(s.construct_integer(true), Some(1_000_000));
    assert_eq!(s.position(), 9);
}

#[test]
fn integer_underscore_disallowed_stops_run() {
    let mut s = CharStream::new("1_000");
    assert_eq!(s.construct_integer(false), Some(1));
    assert_eq!(s.position(), 1);
}

#[test]
fn integer_not_applicable_on_underscore_first() {
    let mut s = CharStream::new("_0");
    assert_eq!(s.construct_integer(true), None);
    assert_eq!(s.position(), 0);
    assert_eq!(s.peek_position(), 0);
}

#[test]
fn integer_largest_value() {
    let mut s = CharStream::new("9223372036854775807");
    assert_eq!(s.construct_integer(false), Some(i64::MAX));
}

#[test]
fn integer_overflow_rolls_back() {
    let mut s = CharStream::new("9223372036854775808");
    assert_eq!(s.construct_integer(false), None);
    assert_eq!(s.position(), 0);
    assert_eq!(s.peek_position(), 0);
}

#[test]
fn float_plain() {
    let mut s = CharStream::new("1.0");
    let text = s.construct_float(true).unwrap();
    assert_eq!(text, "1.0");
    assert_eq!(text.parse::<f64>().unwrap(), 1.0);
    assert_eq!(s.position(), 3);
}

#[test]
fn float_trailing_dot_rolls_back() {
    let mut s = CharStream::new("1.");
    assert_eq!(s.construct_float(true), None);
    assert_eq!(s.position(), 0);
    assert_eq!(s.peek_position(), 0);
}

#[test]
fn float_with_underscores_strips_them() {
    let mut s = CharStream::new("1_0.0_0");
    let text = s.construct_float(true).unwrap();
    assert_eq!(text, "10.00");
    assert_eq!(text.parse::<f64>().unwrap(), 10.0);
}

#[test]
fn float_second_dot_ends_run() {
    let mut s = CharStream::new("1.0.5");
    assert_eq!(s.construct_float(true).unwrap(), "1.0");
    assert_eq!(s.position(), 3);
}

#[test]
fn float_not_applicable_on_underscore_first() {
    let mut s = CharStream::new("_0.0");
    assert_eq!(s.construct_float(true), None);
    assert_eq!(s.position(), 0);
}

#[test]
fn string_single_quoted() {
    let mut s = CharStream::new("'hi'");
    assert_eq!(s.construct_string(0, &['\'', '"'], &['\\']), Some(Ok("hi".to_owned())));
    assert_eq!(s.position(), 4);
}

#[test]
fn string_double_quoted() {
    let mut s = CharStream::new("\"hi\"");
    assert_eq!(s.construct_string(0, &['\'', '"'], &['\\']), Some(Ok("hi".to_owned())));
}

#[test]
fn string_escape_suppresses_delimiter() {
    let mut s = CharStream::new("'a\\'b'");
    assert_eq!(s.construct_string(0, &['\''], &['\\']), Some(Ok("a\\'b".to_owned())));
    assert_eq!(s.position(), 6);
}

#[test]
fn string_escape_lasts_one_step() {
    let mut s = CharStream::new("'a\\bc'");
    assert_eq!(s.construct_string(0, &['\''], &['\\']), Some(Ok("a\\bc".to_owned())));
    assert_eq!(s.position(), 6);
}

#[test]
fn string_mismatched_delimiters_never_close() {
    let mut s = CharStream::new("'foo\"");
    let err = s.construct_string(7, &['\'', '"'], &['\\']);
    assert_eq!(
        err,
        Some(Err(UnterminatedString(Location::new(7, Span::new(0, 5)))))
    );
    assert_eq!(s.position(), 0);
}

#[test]
fn string_unterminated_spans_whole_input() {
    let mut s = CharStream::new("'foo");
    let err = s.construct_string(0, &['\'', '"'], &['\\']);
    assert_eq!(
        err,
        Some(Err(UnterminatedString(Location::new(0, Span::new(0, 4)))))
    );
    assert_eq!(s.position(), 0);
}

#[test]
fn string_unterminated_multibyte_span_is_byte_valued() {
    // "'é" is three bytes: the quote at byte 0, 'é' filling bytes 1 and 2.
    let mut s = CharStream::new("'é");
    let err = s.construct_string(0, &['\''], &['\\']);
    assert_eq!(
        err,
        Some(Err(UnterminatedString(Location::new(0, Span::new(0, 3)))))
    );
}

#[test]
fn string_not_applicable() {
    let mut s = CharStream::new("foo");
    assert_eq!(s.construct_string(0, &['\'', '"'], &['\\']), None);
    assert_eq!(s.position(), 0);
    assert_eq!(s.peek_position(), 0);
}

#[test]
fn hex_plain() {
    let mut s = CharStream::new("0xfff");
    assert_eq!(s.construct_hex(0, "0x"), Some(Ok("fff".to_owned())));
    assert_eq!(s.position(), 5);
}

#[test]
fn hex_mixed_case() {
    let mut s = CharStream::new("0xAb9F");
    assert_eq!(s.construct_hex(0, "0x"), Some(Ok("Ab9F".to_owned())));
}

#[test]
fn hex_empty_body_is_malformed() {
    let mut s = CharStream::new("0x");
    assert_eq!(
        s.construct_hex(0, "0x"),
        Some(Err(InvalidHex(Location::new(0, Span::new(0, 2)))))
    );
    assert_eq!(s.position(), 2);
}

#[test]
fn hex_nonhex_body_is_malformed() {
    let mut s = CharStream::new("0xzz");
    assert_eq!(
        s.construct_hex(0, "0x"),
        Some(Err(InvalidHex(Location::new(0, Span::new(0, 2)))))
    );
}

#[test]
fn hex_unmatched_prefix_not_applicable() {
    let mut s = CharStream::new("abc");
    assert_eq!(s.construct_hex(0, "0x"), None);
    assert_eq!(s.position(), 0);
    assert_eq!(s.peek_position(), 0);
}

#[test]
fn comment_single_line() {
    let mut s = CharStream::new("// hello");
    assert_eq!(s.construct_comment(&["//"]), Some("// hello".to_owned()));
    assert_eq!(s.position(), 8);
}

#[test]
fn comment_merges_consecutive_lines() {
    let mut s = CharStream::new("// a\n// b");
    assert_eq!(s.construct_comment(&["//"]), Some("// a\n// b".to_owned()));
    assert_eq!(s.position(), 9);
}

#[test]
fn comment_stops_at_noncomment_line() {
    let mut s = CharStream::new("// a\nlet x");
    assert_eq!(s.construct_comment(&["//"]), Some("// a\n".to_owned()));
    assert_eq!(s.position(), 5);
}

#[test]
fn comment_several_prefixes() {
    let mut s = CharStream::new("# a\n// b\nx");
    assert_eq!(s.construct_comment(&["//", "#"]), Some("# a\n// b\n".to_owned()));
}

#[test]
fn comment_longer_prefix_after_shorter_failed_try() {
    // A prefix that fails mid-way must not eat into the next try.
    let mut s = CharStream::new("//x");
    assert_eq!(s.construct_comment(&["/*", "//"]), Some("//x".to_owned()));
}

#[test]
fn comment_not_applicable() {
    let mut s = CharStream::new("x // a");
    assert_eq!(s.construct_comment(&["//"]), None);
    assert_eq!(s.position(), 0);
    assert_eq!(s.peek_position(), 0);
}

#[test]
fn ident_maximal_run() {
    let mut s = CharStream::new("foo bar");
    assert_eq!(s.construct_ident(), Some("foo".to_owned()));
    assert_eq!(s.position(), 3);
}

#[test]
fn ident_with_digits_and_underscores() {
    let mut s = CharStream::new("a_1b;");
    assert_eq!(s.construct_ident(), Some("a_1b".to_owned()));
    assert_eq!(s.position(), 4);
}

#[test]
fn ident_position_is_byte_valued() {
    // 'é' is two bytes, so "héllo" ends at byte offset six.
    let mut s = CharStream::new("héllo x");
    assert_eq!(s.construct_ident(), Some("héllo".to_owned()));
    assert_eq!(s.position(), 6);
}

#[test]
fn ident_not_applicable_on_punctuation() {
    let mut s = CharStream::new(";x");
    assert_eq!(s.construct_ident(), None);
    assert_eq!(s.position(), 0);
    assert_eq!(s.peek_position(), 0);
}

#[test]
fn ident_not_applicable_on_space() {
    let mut s = CharStream::new(" x");
    assert_eq!(s.construct_ident(), None);
    assert_eq!(s.position(), 0);
}

#[test]
fn chomp_line_includes_terminator() {
    let mut s = CharStream::new("ab\ncd");
    assert_eq!(s.chomp_line(), "ab\n".to_owned());
    assert_eq!(s.position(), 3);
}

#[test]
fn chomp_line_without_terminator_reaches_end() {
    let mut s = CharStream::new("abc");
    assert_eq!(s.chomp_line(), "abc".to_owned());
    assert_eq!(s.position(), 3);
    assert!(s.at_end());
}

#[test]
fn chomp_pattern_commits_on_match() {
    let mut s = CharStream::new("=>x");
    assert!(s.chomp_pattern("=>"));
    assert_eq!(s.position(), 2);
}

#[test]
fn chomp_pattern_rolls_back_on_mismatch() {
    let mut s = CharStream::new("=!x");
    assert!(!s.chomp_pattern("=>"));
    assert_eq!(s.position(), 0);
    assert_eq!(s.peek_position(), 0);
}

#[test]
fn construct_generic_predicate_run() {
    let mut s = CharStream::new("aaab");
    let run = s.construct(|c: char| c == 'a');
    assert_eq!(run, "aaa".to_owned());
    assert_eq!(s.position(), 3);
}
