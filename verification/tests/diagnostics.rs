use chompy::diagnostics::{Builder, Diag, Label, LabelRole, Severity};
use chompy::lex_errors::{InvalidHex, UnexpectedChar, UnterminatedString};
use chompy::location::{Located, Location, Span};
use chompy::parse_errors::{ExpectedToken, UnexpectedEnd, UnexpectedToken};
use chompy::tok::{Tok, Token, TokenKind};

#[derive(Debug, Clone, PartialEq)]
enum TinyKind {
    Word,
}

impl TokenKind for TinyKind {}

fn loc(start: usize, end: usize) -> Location {
    Location::new(3, Span::new(start, end))
}

#[test]
fn builder_accumulates_additively() {
    let b = Builder::new(Severity::Warning)
        .title("something odd".to_owned())
        .label(Label::primary(loc(1, 2), "here".to_owned()))
        .label(Label::secondary(loc(4, 6), "and here".to_owned()))
        .note("a first note".to_owned())
        .note("a second note".to_owned());
    assert_eq!(b.severity, Severity::Warning);
    assert_eq!(b.title, "something odd");
    assert_eq!(b.labels.len(), 2);
    assert_eq!(b.labels[0].role, LabelRole::Primary);
    assert_eq!(b.labels[0].location, loc(1, 2));
    assert_eq!(b.labels[0].message, "here");
    assert_eq!(b.labels[1].role, LabelRole::Secondary);
    assert_eq!(b.labels[1].message, "and here");
    assert_eq!(b.notes, vec!["a first note".to_owned(), "a second note".to_owned()]);
}

#[test]
fn builder_starts_empty() {
    let b = Builder::new(Severity::Bug);
    assert_eq!(b.severity, Severity::Bug);
    assert_eq!(b.title, "");
    assert!(b.labels.is_empty());
    assert!(b.notes.is_empty());
}

#[test]
fn unterminated_string_diag() {
    let err = UnterminatedString(loc(0, 9));
    assert_eq!(err.severity(), Severity::Error);
    assert_eq!(err.location(), loc(0, 9));
    let b = err.build(Builder::new(err.severity()));
    assert_eq!(b.title, "unterminated string");
    assert_eq!(b.labels.len(), 1);
    assert_eq!(b.labels[0].role, LabelRole::Primary);
    assert_eq!(b.labels[0].location, loc(0, 9));
    assert_eq!(b.labels[0].message, "this string was never terminated");
}

#[test]
fn invalid_hex_diag() {
    let err = InvalidHex(loc(2, 4));
    assert_eq!(err.severity(), Severity::Error);
    let b = err.build(Builder::new(Severity::Error));
    assert_eq!(b.title, "invalid hexadecimal");
    assert_eq!(b.labels.len(), 1);
    assert_eq!(b.labels[0].location, loc(2, 4));
    assert_eq!(b.labels[0].message, "this is not a valid hexadecimal value");
}

#[test]
fn unexpected_char_diag() {
    let err = UnexpectedChar(loc(5, 6));
    assert_eq!(err.severity(), Severity::Error);
    let b = err.build(Builder::new(Severity::Error));
    assert_eq!(b.labels.len(), 1);
    assert_eq!(b.labels[0].message, "did not expect this character in this position");
}

#[test]
fn unexpected_end_diag() {
    let err = UnexpectedEnd(loc(7, 7));
    assert_eq!(err.severity(), Severity::Error);
    assert_eq!(err.span(), Span::new(7, 7));
    assert_eq!(err.file_id(), 3);
    let b = err.build(Builder::new(Severity::Error));
    assert_eq!(b.labels.len(), 1);
    assert_eq!(
        b.labels[0].message,
        "reached the end of the file in the middle of parsing a statement"
    );
}

#[test]
fn unexpected_token_diag_points_at_the_token() {
    let tok = Tok::new(TinyKind::Word, loc(3, 8));
    let err = UnexpectedToken(tok);
    assert_eq!(err.severity(), Severity::Error);
    assert_eq!(err.location(), loc(3, 8));
    let b = err.build(Builder::new(Severity::Error));
    assert_eq!(b.labels.len(), 1);
    assert_eq!(b.labels[0].location, loc(3, 8));
}

#[test]
fn expected_token_diag_points_at_the_location() {
    let err = ExpectedToken(TinyKind::Word, loc(1, 4));
    assert_eq!(err.severity(), Severity::Error);
    assert_eq!(err.location(), loc(1, 4));
    let b = err.build(Builder::new(Severity::Error));
    assert_eq!(b.labels.len(), 1);
    assert_eq!(b.labels[0].role, LabelRole::Primary);
    assert_eq!(b.labels[0].location, loc(1, 4));
}

#[test]
fn build_preserves_what_the_builder_held() {
    let err = UnexpectedChar(loc(0, 1));
    let b = Builder::new(Severity::Error)
        .label(Label::secondary(loc(9, 10), "earlier".to_owned()))
        .note("kept".to_owned());
    let b = err.build(b);
    assert_eq!(b.labels.len(), 2);
    assert_eq!(b.labels[0].message, "earlier");
    assert_eq!(b.labels[1].role, LabelRole::Primary);
    assert_eq!(b.notes, vec!["kept".to_owned()]);
}

#[test]
fn located_labels_carry_the_location() {
    let l = loc(2, 5);
    let p = l.primary("main point".to_owned());
    assert_eq!(p.role, LabelRole::Primary);
    assert_eq!(p.location, l);
    assert_eq!(p.message, "main point");
    let s = l.secondary("aside".to_owned());
    assert_eq!(s.role, LabelRole::Secondary);
    assert_eq!(s.location, l);
}

#[test]
fn span_accessors_and_until() {
    let a = Span::new(2, 5);
    assert_eq!(a.start(), 2);
    assert_eq!(a.end(), 5);
    let b = Span::new(9, 12);
    let c = a.until(b);
    assert_eq!(c.start(), 2);
    assert_eq!(c.end(), 12);
    // Inverted spans are representable: `until` composes without checking.
    let d = b.until(a);
    assert_eq!(d.start(), 9);
    assert_eq!(d.end(), 5);
    assert_eq!(Span::default(), Span::new(0, 0));
}

#[test]
fn location_accessors() {
    let l = Location::new(4, Span::new(1, 2));
    assert_eq!(l.file_id(), 4);
    assert_eq!(l.span(), Span::new(1, 2));
    assert_eq!(Location::default(), Location::new(0, Span::new(0, 0)));
}

#[test]
fn tok_carries_kind_and_location() {
    let t = Tok::new(TinyKind::Word, loc(0, 4));
    assert_eq!(*t.kind_ref(), TinyKind::Word);
    assert_eq!(t.location(), loc(0, 4));
    assert_eq!(t.kind, TinyKind::Word);
    assert_eq!(t.clone().kind(), TinyKind::Word);
}

#[test]
fn tok_equality_ignores_location() {
    let a = Tok::new(TinyKind::Word, loc(0, 4));
    let b = Tok::new(TinyKind::Word, loc(9, 12));
    assert_eq!(a, b);
}
