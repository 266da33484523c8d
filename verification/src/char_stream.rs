use vstd::prelude::*;

verus! {

/// The number of bytes UTF-8 uses to encode the character: one below
/// U+0080, two below U+0800, three below U+10000, four beyond.
pub open spec fn char_utf8_len(c: char) -> int {
    if (c as u32) < 0x80 {
        1
    } else if (c as u32) < 0x800 {
        2
    } else if (c as u32) < 0x10000 {
        3
    } else {
        4
    }
}

/// The byte offset at which the `i`th character of `s` starts in the UTF-8
/// encoding of `s`; at `i == s.len()`, the total byte length of `s`.
pub open spec fn byte_offset(s: Seq<char>, i: int) -> int
    decreases i,
    when 0 <= i <= s.len()
{
    if i <= 0 {
        0
    } else {
        byte_offset(s, i - 1) + char_utf8_len(s[i - 1])
    }
}

/// Whether `b` is the byte offset of a character boundary of `s`.
pub open spec fn is_char_boundary(s: Seq<char>, b: int) -> bool {
    exists|i: int| 0 <= i <= s.len() && byte_offset(s, i) == b
}

/// The character index whose byte offset is `b`; meaningful only where `b`
/// is a character boundary of `s`.
pub open spec fn char_index_of(s: Seq<char>, b: int) -> int {
    choose|i: int| 0 <= i <= s.len() && byte_offset(s, i) == b
}

/// Byte offsets grow with the character index: by at least one byte and at
/// most four bytes per character.
pub proof fn lemma_byte_offset_mono(s: Seq<char>, i: int, j: int)
    requires
        0 <= i <= j <= s.len(),
    ensures
        byte_offset(s, i) + (j - i) <= byte_offset(s, j) <= byte_offset(s, i) + 4 * (j - i),
    decreases j - i,
{
    if i < j {
        lemma_byte_offset_mono(s, i, j - 1);
    }
}

/// Each character index is the only one at its byte offset, so
/// `char_index_of` inverts `byte_offset`.
pub proof fn lemma_char_index_of(s: Seq<char>, i: int)
    requires
        0 <= i <= s.len(),
    ensures
        is_char_boundary(s, byte_offset(s, i)),
        char_index_of(s, byte_offset(s, i)) == i,
{
    assert(is_char_boundary(s, byte_offset(s, i)));
    let j = char_index_of(s, byte_offset(s, i));
    if j < i {
        lemma_byte_offset_mono(s, j, i);
    } else if j > i {
        lemma_byte_offset_mono(s, i, j);
    }
}

/// Relies on `str::chars` (and `collect`): the iterator yields exactly the
/// characters of the slice, in order, so the collected vector's view equals
/// the string's view.  The characters' UTF-8 lengths sum to the slice's
/// byte length, which is a `usize`, so that sum fits in `usize`.
#[verifier::external_body]
pub(crate) fn chars_of(s: &str) -> (v: Vec<char>)
    ensures
        v@ == s@,
        byte_offset(v@, v@.len() as int) <= usize::MAX,
{
    s.chars().collect()
}

/// Relies on `String`'s `FromIterator<char>` (via `collect`): the built
/// string holds exactly the characters of the slice, in order.
#[verifier::external_body]
pub(crate) fn string_of(chars: &[char]) -> (s: String)
    ensures
        s@ == chars@,
{
    chars.iter().collect()
}

/// The number of bytes UTF-8 uses to encode the character.
pub(crate) fn utf8_len(c: char) -> (r: usize)
    ensures
        r == char_utf8_len(c),
        1 <= r <= 4,
{
    let u = c as u32;
    if u < 0x80 {
        1
    } else if u < 0x800 {
        2
    } else if u < 0x10000 {
        3
    } else {
        4
    }
}

/// A backtracking-capable cursor over a fixed buffer of characters.
///
/// The stream keeps two cursors: `true_cursor` is the committed read
/// position, and `peek_cursor` is a speculative position used to test
/// multi-character patterns before committing.  Both are byte offsets into
/// the UTF-8 encoding of the source, and each advances by the byte length
/// of the character it passes — one to four bytes — never by a fixed
/// increment.  The invariant `true_cursor <= peek_cursor <= byte length`
/// holds at all times, both cursors always rest on character boundaries,
/// and the speculative cursor stops at the end of the buffer rather than
/// running past it.  Save-points are flat, not nested: there is one
/// speculative run at a time, which is either committed as a whole
/// (`chomp_peeks`) or discarded as a whole (`reset_peeks`).
pub struct CharStream {
    src: Vec<char>,
    src_bytes: usize,
    true_chars: usize,
    true_cursor: usize,
    peek_chars: usize,
    peek_cursor: usize,
}

impl CharStream {
    /// The characters of the source buffer.
    pub closed spec fn chars(&self) -> Seq<char> {
        self.src@
    }

    /// The committed cursor, as a character index: the next character
    /// `chomp` would consume.
    pub closed spec fn char_pos(&self) -> int {
        self.true_chars as int
    }

    /// The speculative cursor, as a character index: the next character
    /// `peek` would inspect.
    pub closed spec fn char_peek_pos(&self) -> int {
        self.peek_chars as int
    }

    /// The committed cursor, as a byte offset into the UTF-8 encoding of
    /// the source.
    pub open spec fn pos(&self) -> int {
        byte_offset(self.chars(), self.char_pos())
    }

    /// The speculative cursor, as a byte offset into the UTF-8 encoding of
    /// the source.
    pub open spec fn peek_pos(&self) -> int {
        byte_offset(self.chars(), self.char_peek_pos())
    }

    /// The stored byte cursors agree with the character cursors.
    pub closed spec fn cursors_ok(&self) -> bool {
        &&& self.true_cursor == byte_offset(self.src@, self.true_chars as int)
        &&& self.peek_cursor == byte_offset(self.src@, self.peek_chars as int)
        &&& self.src_bytes == byte_offset(self.src@, self.src@.len() as int)
    }

    /// The cursor invariant: committed at or before speculative, both
    /// within the buffer, byte and character views in step, and the whole
    /// encoding no longer than a `usize` can address.
    pub open spec fn wf(&self) -> bool {
        &&& 0 <= self.char_pos() <= self.char_peek_pos() <= self.chars().len()
        &&& byte_offset(self.chars(), self.chars().len() as int) <= usize::MAX
        &&& self.cursors_ok()
    }

    /// Creates a new stream over the provided source text, with both
    /// cursors at the start.
    pub fn new(source: &str) -> (s: Self)
        ensures
            s.chars() == source@,
            s.char_pos() == 0,
            s.char_peek_pos() == 0,
            s.pos() == 0,
            s.peek_pos() == 0,
            s.wf(),
    {
        let src = chars_of(source);
        let mut total: usize = 0;
        let mut i: usize = 0;
        while i < src.len()
            invariant
                i <= src@.len(),
                byte_offset(src@, src@.len() as int) <= usize::MAX,
                total == byte_offset(src@, i as int),
            decreases src@.len() - i,
        {
            let w = utf8_len(src[i]);
            proof {
                lemma_byte_offset_mono(src@, i + 1, src@.len() as int);
            }
            total = total + w;
            i = i + 1;
        }
        CharStream {
            src,
            src_bytes: total,
            true_chars: 0,
            true_cursor: 0,
            peek_chars: 0,
            peek_cursor: 0,
        }
    }

    /// Consumes exactly one character at the committed cursor, advances it
    /// by that character's byte length, and resets the speculative cursor
    /// to the new committed position, discarding any outstanding
    /// speculative advance.  Returns `None` at end of input, leaving the
    /// stream untouched.
    pub fn chomp(&mut self) -> (r: Option<char>)
        requires
            old(self).wf(),
        ensures
            final(self).wf(),
            final(self).chars() == old(self).chars(),
            old(self).char_pos() < old(self).chars().len() ==> {
                &&& r == Some(old(self).chars()[old(self).char_pos()])
                &&& final(self).char_pos() == old(self).char_pos() + 1
                &&& final(self).pos() == old(self).pos() + char_utf8_len(
                    old(self).chars()[old(self).char_pos()],
                )
                &&& final(self).char_peek_pos() == final(self).char_pos()
            },
            old(self).char_pos() == old(self).chars().len() ==> {
                &&& r is None
                &&& final(self).char_pos() == old(self).char_pos()
                &&& final(self).char_peek_pos() == old(self).char_peek_pos()
            },
    {
        if self.true_chars < self.src.len() {
            let c = self.src[self.true_chars];
            let w = utf8_len(c);
            proof {
                lemma_byte_offset_mono(self.src@, self.true_chars + 1, self.src@.len() as int);
            }
            self.true_chars = self.true_chars + 1;
            self.true_cursor = self.true_cursor + w;
            self.peek_chars = self.true_chars;
            self.peek_cursor = self.true_cursor;
            Some(c)
        } else {
            None
        }
    }

    /// Returns the character at the speculative cursor without moving it.
    pub fn peek(&self) -> (r: Option<char>)
        requires
            self.wf(),
        ensures
            self.char_peek_pos() < self.chars().len() ==> r == Some(
                self.chars()[self.char_peek_pos()],
            ),
            self.char_peek_pos() == self.chars().len() ==> r is None,
    {
        if self.peek_chars < self.src.len() {
            Some(self.src[self.peek_chars])
        } else {
            None
        }
    }

    /// Advances the speculative cursor forward by one character — that is,
    /// by the character's byte length; at end of input it stays in place.
    pub fn advance(&mut self)
        requires
            old(self).wf(),
        ensures
            final(self).wf(),
            final(self).chars() == old(self).chars(),
            final(self).char_pos() == old(self).char_pos(),
            old(self).char_peek_pos() < old(self).chars().len() ==> {
                &&& final(self).char_peek_pos() == old(self).char_peek_pos() + 1
                &&& final(self).peek_pos() == old(self).peek_pos() + char_utf8_len(
                    old(self).chars()[old(self).char_peek_pos()],
                )
            },
            old(self).char_peek_pos() == old(self).chars().len() ==> final(self).char_peek_pos()
                == old(self).char_peek_pos(),
    {
        if self.peek_chars < self.src.len() {
            let w = utf8_len(self.src[self.peek_chars]);
            proof {
                lemma_byte_offset_mono(self.src@, self.peek_chars + 1, self.src@.len() as int);
            }
            self.peek_chars = self.peek_chars + 1;
            self.peek_cursor = self.peek_cursor + w;
        }
    }

    /// Returns the character at the speculative cursor, then advances that
    /// cursor by one character.
    pub fn peek_move(&mut self) -> (r: Option<char>)
        requires
            old(self).wf(),
        ensures
            final(self).wf(),
            final(self).chars() == old(self).chars(),
            final(self).char_pos() == old(self).char_pos(),
            old(self).char_peek_pos() < old(self).chars().len() ==> {
                &&& r == Some(old(self).chars()[old(self).char_peek_pos()])
                &&& final(self).char_peek_pos() == old(self).char_peek_pos() + 1
            },
            old(self).char_peek_pos() == old(self).chars().len() ==> {
                &&& r is None
                &&& final(self).char_peek_pos() == old(self).char_peek_pos()
            },
    {
        let peek = self.peek();
        self.advance();
        peek
    }

    /// If the character at the speculative cursor equals `expected`,
    /// advances that cursor by one character and returns true; otherwise
    /// leaves it untouched and returns false.
    pub fn match_peek(&mut self, expected: char) -> (b: bool)
        requires
            old(self).wf(),
        ensures
            final(self).wf(),
            final(self).chars() == old(self).chars(),
            final(self).char_pos() == old(self).char_pos(),
            b <==> (old(self).char_peek_pos() < old(self).chars().len() && old(self).chars()[old(
                self,
            ).char_peek_pos()] == expected),
            b ==> final(self).char_peek_pos() == old(self).char_peek_pos() + 1,
            !b ==> final(self).char_peek_pos() == old(self).char_peek_pos(),
    {
        match self.peek() {
            Some(c) => if c == expected {
                self.advance();
                true
            } else {
                false
            },
            None => false,
        }
    }

    /// If the character at the speculative cursor satisfies the provided
    /// test, advances that cursor by one character and returns true;
    /// otherwise leaves it untouched and returns false.
    pub fn match_peek_with<F: FnOnce(char) -> bool>(&mut self, f: F) -> (b: bool)
        requires
            old(self).wf(),
            forall|c: char| #[trigger] f.requires((c,)),
        ensures
            final(self).wf(),
            final(self).chars() == old(self).chars(),
            final(self).char_pos() == old(self).char_pos(),
            b ==> {
                &&& old(self).char_peek_pos() < old(self).chars().len()
                &&& f.ensures((old(self).chars()[old(self).char_peek_pos()],), true)
                &&& final(self).char_peek_pos() == old(self).char_peek_pos() + 1
            },
            !b ==> {
                &&& final(self).char_peek_pos() == old(self).char_peek_pos()
                &&& (old(self).char_peek_pos() == old(self).chars().len() || f.ensures(
                    (old(self).chars()[old(self).char_peek_pos()],),
                    false,
                ))
            },
    {
        match self.peek() {
            Some(c) => if f(c) {
                self.advance();
                true
            } else {
                false
            },
            None => false,
        }
    }

    /// Consumes the next character if it equals the expected one.  The
    /// speculative match is committed immediately, so the stream must carry
    /// no outstanding speculative advance.
    pub fn match_chomp(&mut self, expected: char) -> (b: bool)
        requires
            old(self).wf(),
            old(self).char_peek_pos() == old(self).char_pos(),
        ensures
            final(self).wf(),
            final(self).chars() == old(self).chars(),
            b <==> (old(self).char_pos() < old(self).chars().len() && old(self).chars()[old(
                self,
            ).char_pos()] == expected),
            b ==> final(self).char_pos() == old(self).char_pos() + 1,
            !b ==> final(self).char_pos() == old(self).char_pos(),
            final(self).char_peek_pos() == final(self).char_pos(),
    {
        if self.match_peek(expected) {
            self.chomp().is_some()
        } else {
            let b = false;
            b
        }
    }

    /// Consumes the next character if it satisfies the provided test.  The
    /// speculative match is committed immediately, so the stream must carry
    /// no outstanding speculative advance.
    pub fn match_chomp_with<F: FnOnce(char) -> bool>(&mut self, f: F) -> (b: bool)
        requires
            old(self).wf(),
            old(self).char_peek_pos() == old(self).char_pos(),
            forall|c: char| #[trigger] f.requires((c,)),
        ensures
            final(self).wf(),
            final(self).chars() == old(self).chars(),
            b ==> {
                &&& old(self).char_pos() < old(self).chars().len()
                &&& f.ensures((old(self).chars()[old(self).char_pos()],), true)
                &&& final(self).char_pos() == old(self).char_pos() + 1
            },
            !b ==> {
                &&& final(self).char_pos() == old(self).char_pos()
                &&& (old(self).char_pos() == old(self).chars().len() || f.ensures(
                    (old(self).chars()[old(self).char_pos()],),
                    false,
                ))
            },
            final(self).char_peek_pos() == final(self).char_pos(),
    {
        if self.match_peek_with(f) {
            self.chomp().is_some()
        } else {
            let b = false;
            b
        }
    }

    /// Commit: moves the committed cursor to the speculative cursor and
    /// returns the text between the two, making the speculative advance
    /// permanent.
    pub fn chomp_peeks(&mut self) -> (r: String)
        requires
            old(self).wf(),
        ensures
            final(self).wf(),
            final(self).chars() == old(self).chars(),
            r@ == old(self).chars().subrange(old(self).char_pos(), old(self).char_peek_pos()),
            final(self).char_pos() == old(self).char_peek_pos(),
            final(self).char_peek_pos() == old(self).char_peek_pos(),
    {
        let slice = self.slice_chars(self.true_chars, self.peek_chars);
        self.true_chars = self.peek_chars;
        self.true_cursor = self.peek_cursor;
        slice
    }

    /// Rollback: returns the text between the committed and speculative
    /// cursors, then resets the speculative cursor to the committed one.
    /// No characters are consumed.
    pub fn empty_peeks(&mut self) -> (r: String)
        requires
            old(self).wf(),
        ensures
            final(self).wf(),
            final(self).chars() == old(self).chars(),
            r@ == old(self).chars().subrange(old(self).char_pos(), old(self).char_peek_pos()),
            final(self).char_pos() == old(self).char_pos(),
            final(self).char_peek_pos() == old(self).char_pos(),
    {
        let slice = self.inspect_peeks();
        self.reset_peeks();
        slice
    }

    /// Returns the text between the committed and speculative cursors
    /// without committing anything.
    pub fn inspect_peeks(&self) -> (r: String)
        requires
            self.wf(),
        ensures
            r@ == self.chars().subrange(self.char_pos(), self.char_peek_pos()),
    {
        self.slice_chars(self.true_chars, self.peek_chars)
    }

    /// Rollback: resets the speculative cursor to the committed cursor,
    /// discarding the outstanding speculative advance.
    pub fn reset_peeks(&mut self)
        requires
            old(self).wf(),
        ensures
            final(self).wf(),
            final(self).chars() == old(self).chars(),
            final(self).char_pos() == old(self).char_pos(),
            final(self).char_peek_pos() == old(self).char_pos(),
    {
        self.peek_chars = self.true_chars;
        self.peek_cursor = self.true_cursor;
    }

    /// Returns the position of the committed cursor: a byte offset into
    /// the UTF-8 encoding of the source, always on a character boundary.
    pub fn position(&self) -> (r: usize)
        requires
            self.wf(),
        ensures
            r == self.pos(),
    {
        self.true_cursor
    }

    /// Returns the position of the speculative cursor: a byte offset into
    /// the UTF-8 encoding of the source, always on a character boundary.
    pub fn peek_position(&self) -> (r: usize)
        requires
            self.wf(),
        ensures
            r == self.peek_pos(),
    {
        self.peek_cursor
    }

    /// Returns the committed cursor as a character index into the buffer.
    pub fn char_position(&self) -> (r: usize)
        ensures
            r == self.char_pos(),
    {
        self.true_chars
    }

    /// Returns the speculative cursor as a character index into the
    /// buffer.
    pub fn char_peek_position(&self) -> (r: usize)
        ensures
            r == self.char_peek_pos(),
    {
        self.peek_chars
    }

    /// Returns whether the committed cursor has reached the end of the
    /// buffer, with nothing more to consume.
    pub fn at_end(&self) -> (b: bool)
        ensures
            b <==> self.char_pos() == self.chars().len(),
    {
        self.true_chars == self.src.len()
    }

    /// Returns the length of the source, in bytes of its UTF-8 encoding.
    pub fn len(&self) -> (r: usize)
        requires
            self.wf(),
        ensures
            r == byte_offset(self.chars(), self.chars().len() as int),
    {
        self.src_bytes
    }

    /// Returns the number of characters in the source.
    pub fn char_len(&self) -> (r: usize)
        ensures
            r == self.chars().len(),
    {
        self.src.len()
    }

    /// The character index at the byte offset `b`, which must fall on a
    /// character boundary.
    fn char_index_at(&self, b: usize) -> (r: usize)
        requires
            self.wf(),
            is_char_boundary(self.chars(), b as int),
        ensures
            r <= self.chars().len(),
            byte_offset(self.chars(), r as int) == b,
            r == char_index_of(self.chars(), b as int),
    {
        let ghost s = self.src@;
        let ghost i0 = char_index_of(s, b as int);
        proof {
            assert(0 <= i0 <= s.len() && byte_offset(s, i0) == b);
        }
        let mut k: usize = 0;
        let mut acc: usize = 0;
        while acc < b
            invariant
                self.wf(),
                self.chars() == s,
                0 <= i0 <= s.len(),
                byte_offset(s, i0) == b,
                k <= s.len(),
                acc == byte_offset(s, k as int),
                k <= i0,
            decreases b - acc,
        {
            proof {
                if k == i0 {
                    assert(acc == b);
                }
                assert(k < i0);
                lemma_byte_offset_mono(s, 0, s.len() as int);
                assert(s.len() <= usize::MAX);
                lemma_byte_offset_mono(s, k as int, i0);
                assert(k < s.len());
                lemma_byte_offset_mono(s, k + 1, i0);
            }
            let w = utf8_len(self.src[k]);
            acc = acc + w;
            k = k + 1;
        }
        proof {
            if k < i0 {
                lemma_byte_offset_mono(s, k as int, i0);
            }
            assert(k == i0);
            lemma_char_index_of(s, k as int);
        }
        k
    }

    /// Returns a copy of the characters between two character indices.
    pub(crate) fn slice_chars(&self, start: usize, end: usize) -> (r: String)
        requires
            start <= end <= self.chars().len(),
        ensures
            r@ == self.chars().subrange(start as int, end as int),
    {
        let mut out: Vec<char> = Vec::new();
        let mut i: usize = start;
        while i < end
            invariant
                start <= i <= end,
                end <= self.src@.len(),
                out@ == self.src@.subrange(start as int, i as int),
            decreases end - i,
        {
            out.push(self.src[i]);
            proof {
                assert(self.src@.subrange(start as int, i + 1 as int) =~= self.src@.subrange(
                    start as int,
                    i as int,
                ).push(self.src@[i as int]));
            }
            i = i + 1;
        }
        string_of(out.as_slice())
    }

    /// Returns a copy of the source text within the provided byte range.
    /// Both offsets must fall on UTF-8 character boundaries — every offset
    /// this stream hands out does.
    pub fn slice(&self, start: usize, end: usize) -> (r: String)
        requires
            self.wf(),
            start <= end,
            is_char_boundary(self.chars(), start as int),
            is_char_boundary(self.chars(), end as int),
        ensures
            r@ == self.chars().subrange(
                char_index_of(self.chars(), start as int),
                char_index_of(self.chars(), end as int),
            ),
    {
        let i = self.char_index_at(start);
        let j = self.char_index_at(end);
        proof {
            if j < i {
                lemma_byte_offset_mono(self.chars(), j as int, i as int);
            }
        }
        self.slice_chars(i, j)
    }

    /// Returns a copy of the stream's whole source text.
    pub fn source(&self) -> (r: String)
        ensures
            r@ == self.chars(),
    {
        let n = self.char_len();
        let r = self.slice_chars(0, n);
        proof {
            assert(self.chars().subrange(0, self.chars().len() as int) =~= self.chars());
        }
        r
    }
}

/// Utility for keeping track of the current position of a lexer.
#[derive(Debug)]
pub struct Cursor(pub usize);

impl Cursor {
    /// Returns the current position of the cursor.
    pub fn position(&self) -> (r: usize)
        ensures
            r == self.0,
    {
        self.0
    }

    /// Returns the next position the cursor will encounter.
    pub fn next(&self) -> (r: usize)
        requires
            self.0 < usize::MAX,
        ensures
            r == self.0 + 1,
    {
        self.0 + 1
    }
}

impl Default for Cursor {
    /// A cursor at the start of its stream.
    fn default() -> (c: Self)
        ensures
            c.0 == 0,
    {
        Cursor(0)
    }
}

} // verus!
