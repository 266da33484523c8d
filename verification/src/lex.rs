use crate::char_stream::{byte_offset, chars_of, string_of, CharStream};
use crate::lex_errors::{InvalidHex, UnterminatedString};
use crate::location::{FileId, Location, Span};
use vstd::prelude::*;

verus! {

// ---------------------------------------------------------------------------
// Character classes
// ---------------------------------------------------------------------------
/// Whether `char::is_alphanumeric` accepts the character: membership in
/// Unicode's alphabetic or numeric classes.  The class is far too large to
/// state here, but it depends on the character alone, so it is given a name
/// that the contracts below share.
pub uninterp spec fn alphanumeric(c: char) -> bool;

/// Relies on `char::is_alphanumeric`: the result depends on the character
/// alone, and is the class that identifier runs are made of.
#[verifier::external_body]
fn alphanumeric_exec(c: char) -> (b: bool)
    ensures
        b == alphanumeric(c),
{
    c.is_alphanumeric()
}

/// An ASCII decimal digit.
pub open spec fn is_ascii_digit(c: char) -> bool {
    ('0' as u32) <= (c as u32) && (c as u32) <= ('9' as u32)
}

/// An ASCII hexadecimal digit, either case.
pub open spec fn is_hex_digit(c: char) -> bool {
    ||| is_ascii_digit(c)
    ||| ('a' as u32) <= (c as u32) && (c as u32) <= ('f' as u32)
    ||| ('A' as u32) <= (c as u32) && (c as u32) <= ('F' as u32)
}

/// A character that ends a line.
pub open spec fn is_line_term(c: char) -> bool {
    c == '\n' || c == '\r'
}

/// A character that may appear in an identifier: alphanumeric or underscore.
pub open spec fn is_ident_char(c: char) -> bool {
    alphanumeric(c) || c == '_'
}

/// A character that may appear in a number run: an ASCII digit, or an
/// underscore when underscores are allowed.
pub open spec fn is_int_char(c: char, allow_underscore: bool) -> bool {
    is_ascii_digit(c) || (c == '_' && allow_underscore)
}

fn digit_exec(c: char) -> (b: bool)
    ensures
        b == is_ascii_digit(c),
{
    let u = c as u32;
    48 <= u && u <= 57
}

fn hex_digit_exec(c: char) -> (b: bool)
    ensures
        b == is_hex_digit(c),
{
    let u = c as u32;
    (48 <= u && u <= 57) || (97 <= u && u <= 102) || (65 <= u && u <= 70)
}

fn ident_char_exec(c: char) -> (b: bool)
    ensures
        b == is_ident_char(c),
{
    alphanumeric_exec(c) || c == '_'
}

/// Whether the slice holds the character.
fn contains_char(cs: &[char], c: char) -> (b: bool)
    ensures
        b == cs@.contains(c),
{
    let mut i: usize = 0;
    while i < cs.len()
        invariant
            i <= cs@.len(),
            forall|j: int| 0 <= j < i ==> cs@[j] != c,
        decreases cs@.len() - i,
    {
        if cs[i] == c {
            assert(cs@.contains(c));
            return true;
        }
        i = i + 1;
    }
    assert(!cs@.contains(c));
    false
}

// ---------------------------------------------------------------------------
// Maximal runs
// ---------------------------------------------------------------------------
/// The end of the maximal run of characters satisfying `p`, starting at `i`:
/// the first index at or after `i` whose character fails `p`, or the end of
/// the text.
pub open spec fn run_end(s: Seq<char>, i: int, p: spec_fn(char) -> bool) -> int
    decreases s.len() - i,
    when 0 <= i <= s.len()
{
    if i < s.len() && p(s[i]) {
        run_end(s, i + 1, p)
    } else {
        i
    }
}

/// The defining properties of `run_end`: it stays within the text, every
/// character before it satisfies `p`, and the character at it (if any) does
/// not.
pub proof fn lemma_run_end(s: Seq<char>, i: int, p: spec_fn(char) -> bool)
    requires
        0 <= i <= s.len(),
    ensures
        i <= run_end(s, i, p) <= s.len(),
        forall|j: int| i <= j < run_end(s, i, p) ==> p(#[trigger] s[j]),
        run_end(s, i, p) == s.len() || !p(s[run_end(s, i, p)]),
    decreases s.len() - i,
{
    if i < s.len() && p(s[i]) {
        lemma_run_end(s, i + 1, p);
    }
}

/// Any index with the defining properties of `run_end` is `run_end`.
pub proof fn lemma_run_end_unique(s: Seq<char>, i: int, p: spec_fn(char) -> bool, e: int)
    requires
        0 <= i <= e <= s.len(),
        forall|j: int| i <= j < e ==> p(#[trigger] s[j]),
        e == s.len() || !p(s[e]),
    ensures
        run_end(s, i, p) == e,
    decreases e - i,
{
    if i < e {
        lemma_run_end_unique(s, i + 1, p, e);
    }
}

impl CharStream {
    /// Consumes the maximal run of characters satisfying the provided test,
    /// continuing from the speculative cursor, then commits everything from
    /// the committed cursor and returns it.  This is the generic consumer
    /// that the fixed recipes reduce to.
    pub fn construct<F: Fn(char) -> bool>(&mut self, f: F) -> (r: String)
        requires
            old(self).wf(),
            forall|c: char| #[trigger] f.requires((c,)),
        ensures
            final(self).wf(),
            final(self).chars() == old(self).chars(),
            old(self).char_peek_pos() <= final(self).char_pos() <= final(self).chars().len(),
            final(self).char_peek_pos() == final(self).char_pos(),
            r@ == old(self).chars().subrange(old(self).char_pos(), final(self).char_pos()),
            forall|j: int|
                old(self).char_peek_pos() <= j < final(self).char_pos() ==> f.ensures(
                    (old(self).chars()[j],),
                    true,
                ),
            final(self).char_pos() < final(self).chars().len() ==> f.ensures(
                (old(self).chars()[final(self).char_pos()],),
                false,
            ),
    {
        loop
            invariant
                self.wf(),
                self.chars() == old(self).chars(),
                self.char_pos() == old(self).char_pos(),
                old(self).char_peek_pos() <= self.char_peek_pos(),
                forall|c: char| #[trigger] f.requires((c,)),
                forall|j: int|
                    old(self).char_peek_pos() <= j < self.char_peek_pos() ==> f.ensures(
                        (old(self).chars()[j],),
                        true,
                    ),
            ensures
                self.wf(),
                self.chars() == old(self).chars(),
                self.char_pos() == old(self).char_pos(),
                old(self).char_peek_pos() <= self.char_peek_pos(),
                forall|j: int|
                    old(self).char_peek_pos() <= j < self.char_peek_pos() ==> f.ensures(
                        (old(self).chars()[j],),
                        true,
                    ),
                self.char_peek_pos() < self.chars().len() ==> f.ensures(
                    (self.chars()[self.char_peek_pos()],),
                    false,
                ),
            decreases self.chars().len() - self.char_peek_pos(),
        {
            match self.peek() {
                Some(c) => {
                    if f(c) {
                        self.advance();
                    } else {
                        break ;
                    }
                },
                None => {
                    break ;
                },
            }
        }
        self.chomp_peeks()
    }

    /// Scans an identifier: if the next character is alphanumeric or an
    /// underscore, consumes the maximal run of such characters and returns
    /// it; otherwise reports "not applicable" and leaves the stream
    /// untouched.
    pub fn construct_ident(&mut self) -> (r: Option<String>)
        requires
            old(self).wf(),
            old(self).char_peek_pos() == old(self).char_pos(),
        ensures
            final(self).wf(),
            final(self).chars() == old(self).chars(),
            ({
                let s = old(self).chars();
                let start = old(self).char_pos();
                let e = run_end(s, start, |c: char| is_ident_char(c));
                if start < s.len() && is_ident_char(s[start]) {
                    &&& r matches Some(text) && text@ == s.subrange(start, e)
                    &&& final(self).char_pos() == e
                    &&& final(self).char_peek_pos() == e
                } else {
                    &&& r is None
                    &&& final(self).char_pos() == start
                    &&& final(self).char_peek_pos() == start
                }
            }),
    {
        let ghost s = self.chars();
        let ghost start = self.char_pos();
        let t1 = |c: char| -> (b: bool)
            ensures
                b == is_ident_char(c),
            { ident_char_exec(c) };
        if self.match_peek_with(t1) {
            let t2 = |c: char| -> (b: bool)
                ensures
                    b == is_ident_char(c),
                { ident_char_exec(c) };
            let text = self.construct(t2);
            proof {
                lemma_run_end_unique(s, start, |c: char| is_ident_char(c), self.char_pos());
            }
            Some(text)
        } else {
            None
        }
    }

    /// Consumes every character until a line terminator is reached; the
    /// terminator itself is consumed and included in the returned text.  At
    /// end of input, stops there.  The consumption is committed: this is a
    /// building block for recipes that have already committed to a
    /// construct.
    pub fn chomp_line(&mut self) -> (r: String)
        requires
            old(self).wf(),
            old(self).char_peek_pos() == old(self).char_pos(),
        ensures
            final(self).wf(),
            final(self).chars() == old(self).chars(),
            final(self).char_pos() == line_end(old(self).chars(), old(self).char_pos()),
            final(self).char_peek_pos() == final(self).char_pos(),
            r@ == old(self).chars().subrange(old(self).char_pos(), final(self).char_pos()),
    {
        let ghost s = self.chars();
        let start = self.char_position();
        loop
            invariant_except_break
                self.wf(),
                self.chars() == s,
                self.char_peek_pos() == self.char_pos(),
                start <= self.char_pos() <= s.len(),
                forall|j: int| start <= j < self.char_pos() ==> !is_line_term(#[trigger] s[j]),
            ensures
                self.wf(),
                self.chars() == s,
                self.char_peek_pos() == self.char_pos(),
                start <= self.char_pos() <= s.len(),
                self.char_pos() == line_end(s, start as int),
            decreases s.len() - self.char_pos(),
        {
            let ghost before = self.char_pos();
            match self.chomp() {
                Some(c) => {
                    if c == '\n' || c == '\r' {
                        proof {
                            lemma_run_end_unique(
                                s,
                                start as int,
                                |ch: char| !is_line_term(ch),
                                before,
                            );
                        }
                        break ;
                    }
                },
                None => {
                    proof {
                        lemma_run_end_unique(
                            s,
                            start as int,
                            |ch: char| !is_line_term(ch),
                            before,
                        );
                    }
                    break ;
                },
            }
        }
        let pos = self.char_position();
        self.slice_chars(start, pos)
    }

    /// Tests whether the characters at the speculative cursor spell out the
    /// provided pattern.  On a match the speculative cursor rests just past
    /// the pattern; otherwise it is reset to the committed cursor.
    fn match_prefix_peek(&mut self, pattern: &str) -> (b: bool)
        requires
            old(self).wf(),
            old(self).char_peek_pos() == old(self).char_pos(),
        ensures
            final(self).wf(),
            final(self).chars() == old(self).chars(),
            final(self).char_pos() == old(self).char_pos(),
            b == matches_at(old(self).chars(), old(self).char_pos(), pattern@),
            b ==> final(self).char_peek_pos() == old(self).char_pos() + pattern@.len(),
            !b ==> final(self).char_peek_pos() == old(self).char_pos(),
    {
        let ghost s = self.chars();
        let ghost start = self.char_pos();
        let pv = chars_of(pattern);
        let mut k: usize = 0;
        while k < pv.len()
            invariant
                self.wf(),
                self.chars() == s,
                self.char_pos() == start,
                old(self).chars() == s,
                old(self).char_pos() == start,
                pv@ == pattern@,
                k <= pv@.len(),
                self.char_peek_pos() == start + k,
                s.subrange(start, start + k) == pv@.subrange(0, k as int),
            decreases pv@.len() - k,
        {
            let ghost peek_before = self.char_peek_pos();
            if !self.match_peek(pv[k]) {
                proof {
                    if matches_at(s, start, pattern@) {
                        assert(s.subrange(start, start + pattern@.len())[k as int] == s[start + k]);
                    }
                }
                self.reset_peeks();
                return false;
            }
            proof {
                assert(s.subrange(start, start + (k + 1)) =~= s.subrange(start, start + k).push(
                    s[start + k],
                ));
                assert(pv@.subrange(0, k + 1) =~= pv@.subrange(0, k as int).push(pv@[k as int]));
            }
            k = k + 1;
        }
        proof {
            assert(s.subrange(start, start + pattern@.len()) == pv@.subrange(
                0,
                pattern@.len() as int,
            ));
            assert(pv@.subrange(0, pattern@.len() as int) =~= pattern@);
        }
        true
    }

    /// Consumes the next characters if they continuously fulfill the
    /// provided pattern; otherwise consumes nothing.
    pub fn chomp_pattern(&mut self, pattern: &str) -> (b: bool)
        requires
            old(self).wf(),
            old(self).char_peek_pos() == old(self).char_pos(),
        ensures
            final(self).wf(),
            final(self).chars() == old(self).chars(),
            b == matches_at(old(self).chars(), old(self).char_pos(), pattern@),
            b ==> final(self).char_pos() == old(self).char_pos() + pattern@.len(),
            !b ==> final(self).char_pos() == old(self).char_pos(),
            final(self).char_peek_pos() == final(self).char_pos(),
    {
        if self.match_prefix_peek(pattern) {
            let _ = self.chomp_peeks();
            true
        } else {
            false
        }
    }
}

/// The numeric value of one ASCII digit.
pub open spec fn digit_val(c: char) -> int {
    (c as u32) - 48
}

/// The value of a sequence of ASCII digits read in base ten.
pub open spec fn digits_val(s: Seq<char>) -> int
    decreases s.len(),
{
    if s.len() == 0 {
        0
    } else {
        digits_val(s.drop_last()) * 10 + digit_val(s.last())
    }
}

/// The sequence with every underscore removed.
pub open spec fn strip_underscores(s: Seq<char>) -> Seq<char>
    decreases s.len(),
{
    if s.len() == 0 {
        Seq::empty()
    } else if s.last() == '_' {
        strip_underscores(s.drop_last())
    } else {
        strip_underscores(s.drop_last()).push(s.last())
    }
}

/// The value of a digit sequence is never negative.
pub proof fn lemma_digits_val_nonneg(s: Seq<char>)
    requires
        forall|j: int| 0 <= j < s.len() ==> is_ascii_digit(#[trigger] s[j]),
    ensures
        digits_val(s) >= 0,
    decreases s.len(),
{
    if s.len() > 0 {
        lemma_digits_val_nonneg(s.drop_last());
    }
}

/// Extending a digit sequence on the right never decreases its value.
pub proof fn lemma_digits_val_prefix_le(s: Seq<char>, t: Seq<char>)
    requires
        forall|j: int| 0 <= j < s.len() ==> is_ascii_digit(#[trigger] s[j]),
        forall|j: int| 0 <= j < t.len() ==> is_ascii_digit(#[trigger] t[j]),
    ensures
        digits_val(s) <= digits_val(s + t),
    decreases t.len(),
{
    if t.len() == 0 {
        assert(s + t =~= s);
    } else {
        lemma_digits_val_prefix_le(s, t.drop_last());
        assert((s + t).drop_last() =~= s + t.drop_last());
        assert(forall|j: int|
            0 <= j < (s + t.drop_last()).len() ==> is_ascii_digit(#[trigger] (s + t.drop_last())[j]));
        lemma_digits_val_nonneg(s + t.drop_last());
        assert((s + t).last() == t.last());
    }
}

/// Reads a base-ten value out of a sequence of ASCII digits, reporting
/// `None` exactly when the value does not fit in an `i64`.
fn digits_to_i64(digits: &Vec<char>) -> (r: Option<i64>)
    requires
        forall|j: int| 0 <= j < digits@.len() ==> is_ascii_digit(#[trigger] digits@[j]),
    ensures
        match r {
            Some(v) => v == digits_val(digits@) && digits_val(digits@) <= i64::MAX,
            None => digits_val(digits@) > i64::MAX,
        },
{
    proof {
        lemma_digits_val_nonneg(digits@);
    }
    let mut acc: i64 = 0;
    let mut i: usize = 0;
    assert(digits@.subrange(0, 0) =~= Seq::<char>::empty());
    while i < digits.len()
        invariant
            forall|j: int| 0 <= j < digits@.len() ==> is_ascii_digit(#[trigger] digits@[j]),
            i <= digits@.len(),
            0 <= acc,
            acc == digits_val(digits@.subrange(0, i as int)),
        decreases digits@.len() - i,
    {
        let c = digits[i];
        let d = ((c as u32) - 48) as i64;
        let ghost prefix = digits@.subrange(0, i as int);
        let ghost prefix1 = digits@.subrange(0, i + 1);
        proof {
            assert(prefix1.drop_last() =~= prefix);
            assert(prefix1.last() == digits@[i as int]);
            assert(digits_val(prefix1) == digits_val(prefix) * 10 + d);
        }
        let next = match acc.checked_mul(10) {
            Some(m) => m.checked_add(d),
            None => None,
        };
        match next {
            Some(v) => {
                acc = v;
            },
            None => {
                proof {
                    assert(digits_val(prefix1) > i64::MAX);
                    assert(digits@ =~= prefix1 + digits@.subrange(i + 1, digits@.len() as int));
                    assert(forall|j: int|
                        0 <= j < prefix1.len() ==> is_ascii_digit(#[trigger] prefix1[j]));
                    let rest = digits@.subrange(i + 1, digits@.len() as int);
                    assert(forall|j: int| 0 <= j < rest.len() ==> is_ascii_digit(#[trigger] rest[j]));
                    lemma_digits_val_prefix_le(prefix1, rest);
                }
                return None;
            },
        }
        i = i + 1;
    }
    proof {
        assert(digits@.subrange(0, digits@.len() as int) =~= digits@);
    }
    Some(acc)
}

fn int_char_exec(c: char, allow_underscore: bool) -> (b: bool)
    ensures
        b == is_int_char(c, allow_underscore),
{
    digit_exec(c) || (c == '_' && allow_underscore)
}

impl CharStream {
    /// Scans an integer literal: if the next character is an ASCII digit,
    /// consumes the maximal run of digits (and underscores, when allowed),
    /// strips the underscores and reads the run in base ten.  Reports "not
    /// applicable" both when no digit starts the run and when the stripped
    /// run does not fit in an `i64`; in both cases the stream is left
    /// untouched, so nothing is consumed on overflow.
    pub fn construct_integer(&mut self, allow_underscore: bool) -> (r: Option<i64>)
        requires
            old(self).wf(),
            old(self).char_peek_pos() == old(self).char_pos(),
        ensures
            final(self).wf(),
            final(self).chars() == old(self).chars(),
            ({
                let s = old(self).chars();
                let start = old(self).char_pos();
                let e = run_end(s, start, |c: char| is_int_char(c, allow_underscore));
                let v = digits_val(strip_underscores(s.subrange(start, e)));
                if start < s.len() && is_ascii_digit(s[start]) && v <= i64::MAX {
                    &&& r == Some(v as i64)
                    &&& final(self).char_pos() == e
                    &&& final(self).char_peek_pos() == e
                } else {
                    &&& r is None
                    &&& final(self).char_pos() == start
                    &&& final(self).char_peek_pos() == start
                }
            }),
    {
        let ghost s = self.chars();
        let ghost start = self.char_pos();
        let applicable = match self.peek() {
            Some(c) => digit_exec(c),
            None => false,
        };
        if !applicable {
            return None;
        }
        let mut digits: Vec<char> = Vec::new();
        assert(s.subrange(start, start) =~= Seq::<char>::empty());
        loop
            invariant
                self.wf(),
                self.chars() == s,
                self.char_pos() == start,
                old(self).chars() == s,
                old(self).char_pos() == start,
                start <= self.char_peek_pos() <= s.len(),
                run_end(s, start, |c: char| is_int_char(c, allow_underscore)) == run_end(
                    s,
                    self.char_peek_pos(),
                    |c: char| is_int_char(c, allow_underscore),
                ),
                digits@ == strip_underscores(s.subrange(start, self.char_peek_pos())),
                forall|j: int| 0 <= j < digits@.len() ==> is_ascii_digit(#[trigger] digits@[j]),
            ensures
                self.wf(),
                self.chars() == s,
                self.char_pos() == start,
                old(self).chars() == s,
                old(self).char_pos() == start,
                self.char_peek_pos() == run_end(s, start, |c: char| is_int_char(c, allow_underscore)),
                digits@ == strip_underscores(s.subrange(start, self.char_peek_pos())),
                forall|j: int| 0 <= j < digits@.len() ==> is_ascii_digit(#[trigger] digits@[j]),
            decreases s.len() - self.char_peek_pos(),
        {
            let ghost peek = self.char_peek_pos();
            let c_opt = self.peek();
            let keep_going = match c_opt {
                Some(c) => int_char_exec(c, allow_underscore),
                None => false,
            };
            if !keep_going {
                break ;
            }
            let c = c_opt.unwrap();
            if c != '_' {
                digits.push(c);
            }
            self.advance();
            proof {
                let sub = s.subrange(start, peek);
                let sub1 = s.subrange(start, peek + 1);
                assert(sub1 =~= sub.push(s[peek]));
                assert(sub1.drop_last() =~= sub);
            }
        }
        let ghost e = self.char_peek_pos();
        proof {
            lemma_run_end(s, start as int, |c: char| is_int_char(c, allow_underscore));
            lemma_digits_val_nonneg(digits@);
        }
        match digits_to_i64(&digits) {
            Some(v) => {
                let _ = self.chomp_peeks();
                Some(v)
            },
            None => {
                self.reset_peeks();
                None
            },
        }
    }
}

/// One step at a time, the scanner for the body of a float literal after
/// its leading digit: underscores are skipped where allowed, one dot may
/// appear, and the run succeeds at the first character that extends it no
/// further, provided the dot and at least one digit after it were seen.
/// Returns the index just past the accepted run, or `None` when the text
/// from `i` is not a well-formed float body.
pub open spec fn float_scan(
    s: Seq<char>,
    i: int,
    found_dot: bool,
    found_trailing: bool,
    allow_underscore: bool,
) -> Option<int>
    decreases s.len() - i,
    when 0 <= i <= s.len()
{
    if i < s.len() && s[i] == '_' && allow_underscore {
        float_scan(s, i + 1, found_dot, found_trailing, allow_underscore)
    } else if i < s.len() && s[i] == '.' && !found_dot {
        float_scan(s, i + 1, true, found_trailing, allow_underscore)
    } else if i < s.len() && is_ascii_digit(s[i]) {
        float_scan(s, i + 1, found_dot, found_trailing || found_dot, allow_underscore)
    } else if found_dot && found_trailing {
        Some(i)
    } else {
        None
    }
}

impl CharStream {
    /// Scans a float literal: a leading ASCII digit, then a run of digits,
    /// a single dot, and at least one digit after the dot, with underscores
    /// permitted mid-run when allowed.  On success returns the matched text
    /// with underscores stripped, which always reads as a decimal number.
    /// Any deviation reports "not applicable" with the stream fully rolled
    /// back: no partial float text is ever committed.
    pub fn construct_float(&mut self, allow_underscore: bool) -> (r: Option<String>)
        requires
            old(self).wf(),
            old(self).char_peek_pos() == old(self).char_pos(),
        ensures
            final(self).wf(),
            final(self).chars() == old(self).chars(),
            ({
                let s = old(self).chars();
                let start = old(self).char_pos();
                if start < s.len() && is_ascii_digit(s[start]) {
                    match float_scan(s, start + 1, false, false, allow_underscore) {
                        Some(e) => {
                            &&& r matches Some(text) && text@ == strip_underscores(
                                s.subrange(start, e),
                            )
                            &&& final(self).char_pos() == e
                            &&& final(self).char_peek_pos() == e
                        },
                        None => {
                            &&& r is None
                            &&& final(self).char_pos() == start
                            &&& final(self).char_peek_pos() == start
                        },
                    }
                } else {
                    &&& r is None
                    &&& final(self).char_pos() == start
                    &&& final(self).char_peek_pos() == start
                }
            }),
    {
        let ghost s = self.chars();
        let ghost start = self.char_pos();
        let first = match self.peek() {
            Some(c) => if digit_exec(c) {
                Some(c)
            } else {
                None
            },
            None => None,
        };
        match first {
            None => None,
            Some(c0) => {
                self.advance();
                let mut out: Vec<char> = Vec::new();
                out.push(c0);
                proof {
                    let sub = s.subrange(start, start + 1);
                    assert(sub.drop_last() =~= Seq::<char>::empty());
                    assert(sub.last() == c0);
                    assert(c0 != '_');
                    assert(strip_underscores(Seq::<char>::empty()) =~= Seq::<char>::empty());
                    assert(strip_underscores(sub) =~= Seq::<char>::empty().push(c0));
                    assert(out@ =~= Seq::<char>::empty().push(c0));
                }
                let mut found_dot = false;
                let mut found_trailing = false;
                loop
                    invariant
                        self.wf(),
                        self.chars() == s,
                        self.char_pos() == start,
                        old(self).chars() == s,
                        old(self).char_pos() == start,
                        start + 1 <= self.char_peek_pos() <= s.len(),
                        float_scan(s, start + 1, false, false, allow_underscore) == float_scan(
                            s,
                            self.char_peek_pos(),
                            found_dot,
                            found_trailing,
                            allow_underscore,
                        ),
                        out@ == strip_underscores(s.subrange(start, self.char_peek_pos())),
                    ensures
                        self.wf(),
                        self.chars() == s,
                        self.char_pos() == start,
                        old(self).chars() == s,
                        old(self).char_pos() == start,
                        start + 1 <= self.char_peek_pos() <= s.len(),
                        out@ == strip_underscores(s.subrange(start, self.char_peek_pos())),
                        float_scan(s, start + 1, false, false, allow_underscore) == (
                        if found_dot && found_trailing {
                            Some(self.char_peek_pos())
                        } else {
                            None
                        }),
                    decreases s.len() - self.char_peek_pos(),
                {
                    let ghost peek = self.char_peek_pos();
                    let c_opt = self.peek();
                    match c_opt {
                        Some(c) => {
                            if c == '_' && allow_underscore {
                                self.advance();
                                proof {
                                    let sub = s.subrange(start, peek);
                                    let sub1 = s.subrange(start, peek + 1);
                                    assert(sub1 =~= sub.push(s[peek]));
                                    assert(sub1.drop_last() =~= sub);
                                }
                            } else if c == '.' && !found_dot {
                                found_dot = true;
                                out.push(c);
                                self.advance();
                                proof {
                                    let sub = s.subrange(start, peek);
                                    let sub1 = s.subrange(start, peek + 1);
                                    assert(sub1 =~= sub.push(s[peek]));
                                    assert(sub1.drop_last() =~= sub);
                                }
                            } else if digit_exec(c) {
                                if found_dot {
                                    found_trailing = true;
                                }
                                out.push(c);
                                self.advance();
                                proof {
                                    let sub = s.subrange(start, peek);
                                    let sub1 = s.subrange(start, peek + 1);
                                    assert(sub1 =~= sub.push(s[peek]));
                                    assert(sub1.drop_last() =~= sub);
                                }
                            } else {
                                break ;
                            }
                        },
                        None => {
                            break ;
                        },
                    }
                }
                if found_dot && found_trailing {
                    let _ = self.chomp_peeks();
                    Some(string_of(out.as_slice()))
                } else {
                    self.reset_peeks();
                    None
                }
            },
        }
    }
}

/// Whether the text spells out the pattern `p` starting at index `i`.
pub open spec fn matches_at(s: Seq<char>, i: int, p: Seq<char>) -> bool {
    0 <= i && i + p.len() <= s.len() && s.subrange(i, i + p.len()) == p
}

/// The index just past the line that starts at `i`: just past the first line
/// terminator at or after `i`, or the end of the text if none remains.
pub open spec fn line_end(s: Seq<char>, i: int) -> int {
    let e = run_end(s, i, |c: char| !is_line_term(c));
    if e < s.len() {
        e + 1
    } else {
        e
    }
}

/// The scanner for the body of a string literal, after the opening
/// delimiter: the run ends just past the first unescaped occurrence of the
/// opening delimiter, an escape character suppresses the delimiter role of
/// the following character for one step, and running out of input before
/// the closing delimiter is a failure.
pub open spec fn string_scan(
    s: Seq<char>,
    open: char,
    escapes: Seq<char>,
    i: int,
    in_escape: bool,
) -> Option<int>
    decreases s.len() - i,
    when 0 <= i <= s.len()
{
    if i >= s.len() {
        None
    } else if in_escape {
        string_scan(s, open, escapes, i + 1, false)
    } else if s[i] == open {
        Some(i + 1)
    } else if escapes.contains(s[i]) {
        string_scan(s, open, escapes, i + 1, true)
    } else {
        string_scan(s, open, escapes, i + 1, false)
    }
}

/// Every pattern in the set has at least one character.
pub open spec fn nonempty_patterns(ps: Seq<Seq<char>>) -> bool {
    forall|k: int| 0 <= k < ps.len() ==> (#[trigger] ps[k]).len() >= 1
}

/// Whether some pattern of the set is spelled out at index `i`.
pub open spec fn any_pattern_at(s: Seq<char>, ps: Seq<Seq<char>>, i: int) -> bool {
    exists|k: int| 0 <= k < ps.len() && matches_at(s, i, #[trigger] ps[k])
}

/// The end of the comment block that starts at `i`: for as long as one of
/// the patterns is spelled out at the current position, the rest of that
/// line is taken and the scan continues on the next line, so consecutive
/// comment lines merge into one block.
pub open spec fn comment_end(s: Seq<char>, ps: Seq<Seq<char>>, i: int) -> int
    decreases s.len() - i,
    when 0 <= i <= s.len() && nonempty_patterns(ps)
    via comment_end_decreases
{
    if any_pattern_at(s, ps, i) {
        comment_end(s, ps, line_end(s, i))
    } else {
        i
    }
}

#[via_fn]
proof fn comment_end_decreases(s: Seq<char>, ps: Seq<Seq<char>>, i: int) {
    if 0 <= i <= s.len() && nonempty_patterns(ps) && any_pattern_at(s, ps, i) {
        let k = choose|k: int| 0 <= k < ps.len() && matches_at(s, i, #[trigger] ps[k]);
        assert(ps[k].len() >= 1);
        assert(i < s.len());
        lemma_run_end(s, i, |c: char| !is_line_term(c));
    }
}

impl CharStream {
    /// Tests whether any of the provided patterns is spelled out at the
    /// committed cursor.  The speculative cursor is reset either way.
    fn match_any_prefix(&mut self, prefixes: &[&str]) -> (b: bool)
        requires
            old(self).wf(),
            old(self).char_peek_pos() == old(self).char_pos(),
        ensures
            final(self).wf(),
            final(self).chars() == old(self).chars(),
            final(self).char_pos() == old(self).char_pos(),
            final(self).char_peek_pos() == old(self).char_pos(),
            b == any_pattern_at(
                old(self).chars(),
                prefixes@.map_values(|p: &str| p@),
                old(self).char_pos(),
            ),
    {
        let ghost s = self.chars();
        let ghost start = self.char_pos();
        let ghost ps = prefixes@.map_values(|p: &str| p@);
        let mut k: usize = 0;
        while k < prefixes.len()
            invariant
                self.wf(),
                self.chars() == s,
                self.char_pos() == start,
                self.char_peek_pos() == start,
                old(self).chars() == s,
                old(self).char_pos() == start,
                ps == prefixes@.map_values(|p: &str| p@),
                k <= prefixes@.len(),
                forall|j: int| 0 <= j < k ==> !matches_at(s, start, #[trigger] ps[j]),
            decreases prefixes@.len() - k,
        {
            if self.match_prefix_peek(prefixes[k]) {
                self.reset_peeks();
                proof {
                    assert(ps[k as int] == prefixes@[k as int]@);
                    assert(matches_at(s, start, ps[k as int]));
                }
                return true;
            }
            proof {
                assert(ps[k as int] == prefixes@[k as int]@);
            }
            k = k + 1;
        }
        proof {
            assert(!any_pattern_at(s, ps, start));
        }
        false
    }

    /// Scans a string literal: if the next character is one of
    /// `quote_chars`, that exact character becomes the required closing
    /// delimiter, with characters in `escape_chars` suppressing the
    /// delimiter role of the following character for one step.  On success
    /// the returned text excludes both delimiters.  Reaching the end of
    /// input before the closing delimiter is a malformed construct: the
    /// error's location spans from the opening delimiter to the end of the
    /// input, nothing is committed, and the speculative cursor is left at
    /// the end of the input.
    pub fn construct_string(
        &mut self,
        file_id: FileId,
        quote_chars: &[char],
        escape_chars: &[char],
    ) -> (r: Option<Result<String, UnterminatedString>>)
        requires
            old(self).wf(),
            old(self).char_peek_pos() == old(self).char_pos(),
        ensures
            final(self).wf(),
            final(self).chars() == old(self).chars(),
            ({
                let s = old(self).chars();
                let start = old(self).char_pos();
                if start < s.len() && quote_chars@.contains(s[start]) {
                    match string_scan(s, s[start], escape_chars@, start + 1, false) {
                        Some(e) => {
                            &&& r matches Some(res) && res matches Ok(text) && text@ == s.subrange(
                                start + 1,
                                e - 1,
                            )
                            &&& final(self).char_pos() == e
                            &&& final(self).char_peek_pos() == e
                        },
                        None => {
                            &&& r matches Some(res) && res matches Err(err) && err == (
                            UnterminatedString(
                                Location {
                                    file_id,
                                    span: Span(
                                        byte_offset(s, start) as usize,
                                        byte_offset(s, s.len() as int) as usize,
                                    ),
                                },
                            ))
                            &&& final(self).char_pos() == start
                            &&& final(self).char_peek_pos() == s.len()
                        },
                    }
                } else {
                    &&& r is None
                    &&& final(self).char_pos() == start
                    &&& final(self).char_peek_pos() == start
                }
            }),
    {
        let ghost s = self.chars();
        let ghost start = self.char_pos();
        let start_chars = self.char_position();
        let start_byte = self.position();
        match self.peek() {
            None => None,
            Some(open) => {
                if !contains_char(quote_chars, open) {
                    return None;
                }
                self.advance();
                let mut in_escape = false;
                loop
                    invariant
                        self.wf(),
                        self.chars() == s,
                        self.char_pos() == start,
                        old(self).chars() == s,
                        old(self).char_pos() == start,
                        start_chars == start,
                        start_byte == byte_offset(s, start),
                        start < s.len(),
                        open == s[start],
                        quote_chars@.contains(s[start]),
                        start + 1 <= self.char_peek_pos() <= s.len(),
                        string_scan(s, open, escape_chars@, start + 1, false) == string_scan(
                            s,
                            open,
                            escape_chars@,
                            self.char_peek_pos(),
                            in_escape,
                        ),
                    decreases s.len() - self.char_peek_pos(),
                {
                    let ghost peek = self.char_peek_pos();
                    match self.peek_move() {
                        None => {
                            let n = self.len();
                            return Some(
                                Err(
                                    UnterminatedString(
                                        Location::new(file_id, Span::new(start_byte, n)),
                                    ),
                                ),
                            );
                        },
                        Some(c) => {
                            if in_escape {
                                in_escape = false;
                            } else if c == open {
                                let end = self.char_peek_position();
                                let text = self.slice_chars(start_chars + 1, end - 1);
                                let _ = self.chomp_peeks();
                                return Some(Ok(text));
                            } else if contains_char(escape_chars, c) {
                                in_escape = true;
                            }
                        },
                    }
                }
            },
        }
    }

    /// Scans a hexadecimal literal: requires an exact match of `prefix`,
    /// then consumes the maximal run of hex digits (either case) and
    /// returns them, excluding the prefix.  An unmatched prefix reports
    /// "not applicable"; a matched prefix followed by no digit at all is a
    /// malformed construct whose location covers the prefix, which stays
    /// committed.
    pub fn construct_hex(&mut self, file_id: FileId, prefix: &str) -> (r: Option<
        Result<String, InvalidHex>,
    >)
        requires
            old(self).wf(),
            old(self).char_peek_pos() == old(self).char_pos(),
        ensures
            final(self).wf(),
            final(self).chars() == old(self).chars(),
            ({
                let s = old(self).chars();
                let start = old(self).char_pos();
                let p = prefix@;
                if matches_at(s, start, p) {
                    let e = run_end(s, start + p.len(), |c: char| is_hex_digit(c));
                    if e == start + p.len() {
                        &&& r matches Some(res) && res matches Err(err) && err == (InvalidHex(
                            Location {
                                file_id,
                                span: Span(
                                    byte_offset(s, start) as usize,
                                    byte_offset(s, start + p.len()) as usize,
                                ),
                            },
                        ))
                        &&& final(self).char_pos() == start + p.len()
                        &&& final(self).char_peek_pos() == start + p.len()
                    } else {
                        &&& r matches Some(res) && res matches Ok(text) && text@ == s.subrange(
                            start + p.len(),
                            e,
                        )
                        &&& final(self).char_pos() == e
                        &&& final(self).char_peek_pos() == e
                    }
                } else {
                    &&& r is None
                    &&& final(self).char_pos() == start
                    &&& final(self).char_peek_pos() == start
                }
            }),
    {
        let ghost s = self.chars();
        let ghost start = self.char_pos();
        let start_byte = self.position();
        if !self.match_prefix_peek(prefix) {
            return None;
        }
        let after_prefix = self.char_peek_position();
        let after_byte = self.peek_position();
        loop
            invariant
                self.wf(),
                self.chars() == s,
                self.char_pos() == start,
                old(self).chars() == s,
                old(self).char_pos() == start,
                start_byte == byte_offset(s, start),
                matches_at(s, start, prefix@),
                after_prefix == start + prefix@.len(),
                after_byte == byte_offset(s, after_prefix as int),
                after_prefix <= self.char_peek_pos() <= s.len(),
                run_end(s, after_prefix as int, |c: char| is_hex_digit(c)) == run_end(
                    s,
                    self.char_peek_pos(),
                    |c: char| is_hex_digit(c),
                ),
            ensures
                self.wf(),
                self.chars() == s,
                self.char_pos() == start,
                old(self).chars() == s,
                old(self).char_pos() == start,
                start_byte == byte_offset(s, start),
                after_byte == byte_offset(s, after_prefix as int),
                after_prefix <= self.char_peek_pos() <= s.len(),
                self.char_peek_pos() == run_end(s, after_prefix as int, |c: char| is_hex_digit(c)),
            decreases s.len() - self.char_peek_pos(),
        {
            let c_opt = self.peek();
            let keep_going = match c_opt {
                Some(c) => hex_digit_exec(c),
                None => false,
            };
            if !keep_going {
                break ;
            }
            self.advance();
        }
        let e = self.char_peek_position();
        let text = self.slice_chars(after_prefix, e);
        let _ = self.chomp_peeks();
        if e == after_prefix {
            Some(Err(InvalidHex(Location::new(file_id, Span::new(start_byte, after_byte)))))
        } else {
            Some(Ok(text))
        }
    }

    /// Scans a comment block: for as long as the upcoming characters
    /// exactly match one of `prefixes`, consumes the remainder of that line
    /// (terminator included, if the line has one) and loops, so consecutive
    /// comment lines merge into one block.  Reports "not applicable" if no
    /// prefix matches at the start, leaving the stream untouched.
    pub fn construct_comment(&mut self, prefixes: &[&str]) -> (r: Option<String>)
        requires
            old(self).wf(),
            old(self).char_peek_pos() == old(self).char_pos(),
            forall|k: int| 0 <= k < prefixes@.len() ==> (#[trigger] prefixes@[k])@.len() >= 1,
        ensures
            final(self).wf(),
            final(self).chars() == old(self).chars(),
            ({
                let s = old(self).chars();
                let start = old(self).char_pos();
                let ps = prefixes@.map_values(|p: &str| p@);
                let e = comment_end(s, ps, start);
                if e == start {
                    &&& r is None
                    &&& final(self).char_pos() == start
                    &&& final(self).char_peek_pos() == start
                } else {
                    &&& r matches Some(text) && text@ == s.subrange(start, e)
                    &&& final(self).char_pos() == e
                    &&& final(self).char_peek_pos() == e
                }
            }),
    {
        let ghost s = self.chars();
        let ghost start = self.char_pos();
        let ghost ps = prefixes@.map_values(|p: &str| p@);
        proof {
            assert forall|k: int| 0 <= k < ps.len() implies (#[trigger] ps[k]).len() >= 1 by {
                assert(ps[k] == prefixes@[k]@);
            }
        }
        let start_chars = self.char_position();
        let mut found_any = false;
        loop
            invariant_except_break
                self.wf(),
                self.chars() == s,
                self.char_peek_pos() == self.char_pos(),
                old(self).chars() == s,
                old(self).char_pos() == start,
                start_chars == start,
                start <= self.char_pos() <= s.len(),
                ps == prefixes@.map_values(|p: &str| p@),
                nonempty_patterns(ps),
                forall|k: int| 0 <= k < prefixes@.len() ==> (#[trigger] prefixes@[k])@.len() >= 1,
                comment_end(s, ps, start as int) == comment_end(s, ps, self.char_pos()),
                found_any == (self.char_pos() != start),
            ensures
                self.wf(),
                self.chars() == s,
                self.char_peek_pos() == self.char_pos(),
                old(self).chars() == s,
                old(self).char_pos() == start,
                start <= self.char_pos() <= s.len(),
                self.char_pos() == comment_end(s, ps, start as int),
                found_any == (self.char_pos() != start),
            decreases s.len() - self.char_pos(),
        {
            if !self.match_any_prefix(prefixes) {
                proof {
                    assert(comment_end(s, ps, self.char_pos()) == self.char_pos());
                }
                break ;
            }
            found_any = true;
            let ghost before = self.char_pos();
            let _ = self.chomp_line();
            proof {
                let k = choose|k: int| 0 <= k < ps.len() && matches_at(s, before, #[trigger] ps[k]);
                assert(ps[k].len() >= 1);
                assert(before < s.len());
                lemma_run_end(s, before, |c: char| !is_line_term(c));
            }
        }
        if found_any {
            let pos = self.char_position();
            Some(self.slice_chars(start_chars, pos))
        } else {
            None
        }
    }
}

} // verus!
