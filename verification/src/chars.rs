//! A character stream that counts lines as it goes.

use vstd::prelude::*;
use vstd::string::StrSliceExecFns;
use vstd::string::StringSliceAdditionalSpecFns;
use vstd::utf8::{char_is_scalar, encode_scalar, encode_utf8};

verus! {

/// How many of the first `k` characters of `s` are newlines.
pub open spec fn newline_count(s: Seq<char>, k: int) -> int
    decreases k,
{
    if k <= 0 {
        0
    } else {
        newline_count(s, k - 1) + (if s[k - 1] == '\n' {
            1int
        } else {
            0int
        })
    }
}

/// How many bytes the UTF-8 encoding of `c` takes.
pub open spec fn char_width(c: char) -> int {
    encode_scalar(c as u32).len() as int
}

/// The byte offset at which the character at `k` starts: the length of the
/// UTF-8 encoding of the first `k` characters.
pub open spec fn byte_offset(s: Seq<char>, k: int) -> int
    decreases k,
{
    if k <= 0 {
        0
    } else {
        char_width(s[0]) + byte_offset(s.drop_first(), k - 1)
    }
}

/// A prefix of a text never encodes to more bytes than the whole of it.
proof fn lemma_byte_offset_le(s: Seq<char>, k: int)
    requires
        0 <= k <= s.len(),
    ensures
        byte_offset(s, k) <= encode_utf8(s).len(),
    decreases k,
{
    if k > 0 {
        lemma_byte_offset_le(s.drop_first(), k - 1);
    }
}

/// Passing the character at `k` moves the byte offset by its width.
proof fn lemma_byte_offset_step(s: Seq<char>, k: int)
    requires
        0 <= k < s.len(),
    ensures
        byte_offset(s, k + 1) == byte_offset(s, k) + char_width(s[k]),
    decreases k,
{
    if k > 0 {
        lemma_byte_offset_step(s.drop_first(), k - 1);
        assert(s.drop_first()[k - 1] == s[k]);
    } else {
        assert(byte_offset(s, 0) == 0);
        assert(byte_offset(s.drop_first(), 0) == 0);
    }
}

/// Computes the width of one character's UTF-8 encoding.
fn width_of(c: char) -> (w: usize)
    ensures
        w == char_width(c),
        1 <= w <= 4,
{
    proof {
        char_is_scalar(c);
    }
    let u = c as u32;
    if u < 0x80 {
        1
    } else if u < 0x800 {
        2
    } else if u < 0x10000 {
        3
    } else {
        4
    }
}

/// A character stream over a source string, yielding each character with the
/// byte offset at which it starts, counting the lines passed.
pub struct CharStream<'source> {
    /// The text being streamed.
    pub source: &'source str,
    char_pos: usize,
    byte_pos: usize,
    /// How many newlines have been passed.
    pub lineno: usize,
    /// The most recently yielded offset and character.
    pub last_char: Option<(usize, char)>,
}

impl<'source> CharStream<'source> {
    /// The cursor stays within the source, the byte cursor is the byte
    /// offset of the character cursor, the line count never exceeds either,
    /// and the remembered character is the one just before the cursor.
    pub closed spec fn wf(&self) -> bool {
        &&& self.char_pos <= self.source@.len()
        &&& self.byte_pos == byte_offset(self.source@, self.char_pos as int)
        &&& self.lineno == newline_count(self.source@, self.char_pos as int)
        &&& self.lineno <= self.char_pos
        &&& (match self.last_char {
            Some(p) => self.char_pos > 0 && p.0 == byte_offset(
                self.source@,
                self.char_pos - 1,
            ) && p.1 == self.source@[self.char_pos - 1],
            None => self.char_pos == 0,
        })
    }

    /// The position of the next character to yield, in characters.
    pub closed spec fn spec_pos(&self) -> int {
        self.char_pos as int
    }

    /// The characters of the source.
    pub closed spec fn spec_source(&self) -> Seq<char> {
        self.source@
    }

    /// How many newlines have been passed.
    pub closed spec fn spec_lineno(&self) -> int {
        self.lineno as int
    }

    /// The most recently yielded offset and character.
    pub closed spec fn spec_last(&self) -> Option<(usize, char)> {
        self.last_char
    }

    /// Creates a character stream at the start of `source`.
    pub fn new(source: &'source str) -> (cs: CharStream<'source>)
        ensures
            cs.wf(),
            cs.spec_source() == source@,
            cs.spec_pos() == 0,
            cs.spec_lineno() == 0,
            cs.spec_last() is None,
    {
        CharStream { source, char_pos: 0, byte_pos: 0, lineno: 0, last_char: None }
    }

    /// Yields the next character with the byte offset at which it starts, or
    /// `None` at the end. The line count rises by one exactly when the
    /// character is a newline.
    pub fn next(&mut self) -> (r: Option<(usize, char)>)
        requires
            old(self).wf(),
        ensures
            final(self).wf(),
            final(self).spec_source() == old(self).spec_source(),
            r is Some <==> old(self).spec_pos() < old(self).spec_source().len(),
            r is None ==> *final(self) == *old(self),
            r matches Some(p) ==> {
                &&& p.0 == byte_offset(old(self).spec_source(), old(self).spec_pos())
                &&& p.1 == old(self).spec_source()[old(self).spec_pos()]
                &&& final(self).spec_pos() == old(self).spec_pos() + 1
                &&& final(self).spec_last() == Some(p)
                &&& final(self).spec_lineno() == old(self).spec_lineno() + (if p.1 == '\n' {
                    1int
                } else {
                    0int
                })
            },
    {
        let n = self.source.unicode_len();
        if self.char_pos >= n {
            return None;
        }
        let c = self.source.get_char(self.char_pos);
        let at = self.byte_pos;
        let w = width_of(c);
        // The whole source's encoding fits in memory, so the byte cursor,
        // which never runs past it, cannot overflow.
        let encoding = self.source.as_bytes();
        let total_bytes = encoding.len();
        proof {
            vstd::slice::axiom_spec_len(encoding);
            assert(encoding@ == encode_utf8(self.source@));
            lemma_byte_offset_step(self.source@, self.char_pos as int);
            lemma_byte_offset_le(self.source@, self.char_pos as int + 1);
            assert(self.byte_pos + w <= total_bytes);
        }
        self.byte_pos = self.byte_pos + w;
        self.char_pos = self.char_pos + 1;
        if c == '\n' {
            self.lineno = self.lineno + 1;
        }
        self.last_char = Some((at, c));
        self.last_char
    }
}

} // verus!
