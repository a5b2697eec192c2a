//! A byte buffer with a write cursor, for composing text in place.

use crate::text::{
    all_blank, blank_bytes, encode_char, larger, lemma_encode_spaces, lemma_repeated_blank,
    repeated, spaces, BLANK,
};
use vstd::prelude::*;
use vstd::string::*;
use vstd::utf8::*;

verus! {

/// `buf` with `data` written over it from position `at` on. What lay beyond
/// the end of `data` stays; where `data` runs past the end of `buf`, the
/// result is longer than `buf`.
pub open spec fn overwrite(buf: Seq<u8>, at: int, data: Seq<u8>) -> Seq<u8> {
    buf.take(at) + data + (if at + data.len() <= buf.len() {
        buf.skip(at + data.len())
    } else {
        Seq::empty()
    })
}

/// `buf`, extended with blanks up to length `n` where it is shorter.
pub open spec fn padded(buf: Seq<u8>, n: nat) -> Seq<u8> {
    if buf.len() >= n {
        buf
    } else {
        buf + blank_bytes((n - buf.len()) as nat)
    }
}

/// Mutable string buffer represented internally with a byte vector.
///
/// The buffer may be filled in advance. Writing replaces what is under the
/// cursor and extends the buffer where it ends; moving the cursor by a fixed
/// width leaves what was there before in place.
pub struct StringBuffer {
    buffer: Vec<u8>,
    index: usize,
}

/// Turns bytes into a `String` with `String::from_utf8`.
///
/// The contract is taken on trust from the documentation of that function:
/// the conversion succeeds exactly when the bytes are well-formed UTF-8, and
/// the string then encodes to those same bytes.
#[verifier::external_body]
fn string_from_utf8(bytes: Vec<u8>) -> (text: Option<String>)
    ensures
        text is Some <==> valid_utf8(bytes@),
        text matches Some(s) ==> encode_utf8(s@) == bytes@,
{
    match String::from_utf8(bytes) {
        Ok(s) => Some(s),
        Err(_) => None,
    }
}

impl StringBuffer {
    /// All the bytes that the buffer holds, before and after the cursor.
    pub closed spec fn bytes(&self) -> Seq<u8> {
        self.buffer@
    }

    /// The position at which the next write begins.
    pub closed spec fn cursor(&self) -> nat {
        self.index as nat
    }

    /// The cursor lies within the buffer or at its end.
    pub open spec fn wf(&self) -> bool {
        self.cursor() <= self.bytes().len()
    }

    /// The bytes before the cursor: the text composed so far.
    pub open spec fn written(&self) -> Seq<u8> {
        self.bytes().take(self.cursor() as int)
    }

    /// The bytes from the cursor on.
    pub open spec fn pending(&self) -> Seq<u8> {
        self.bytes().skip(self.cursor() as int)
    }

    /// Every byte from the cursor on is a blank: what is written next lands
    /// on blanks, or behind the end of the buffer.
    pub open spec fn blank_ahead(&self) -> bool {
        all_blank(self.pending())
    }

    /// Returns a StringBuffer that holds `num_chars` copies of `fill_char`,
    /// with the cursor at its start.
    pub fn with_capacity_fill(num_chars: usize, fill_char: char) -> (buf: StringBuffer)
        ensures
            buf.wf(),
            buf.cursor() == 0,
            buf.bytes() == repeated(encode_utf8(seq![fill_char]), num_chars as nat),
            fill_char == ' ' ==> buf.bytes() == blank_bytes(num_chars as nat) && buf.blank_ahead(),
    {
        let unit = encode_char(fill_char);
        proof {
            if fill_char == ' ' {
                lemma_encode_spaces(1);
                assert(spaces(1) =~= seq![' ']);
                assert(blank_bytes(1) =~= seq![BLANK]);
                lemma_repeated_blank(num_chars as nat);
            }
        }
        let mut buffer: Vec<u8> = Vec::with_capacity(num_chars);
        let mut i: usize = 0;
        while i < num_chars
            invariant
                i <= num_chars,
                buffer@ == repeated(unit@, i as nat),
            decreases num_chars - i,
        {
            let ghost before = buffer@;
            let mut j: usize = 0;
            while j < unit.len()
                invariant
                    j <= unit.len(),
                    buffer@ == before + unit@.take(j as int),
                decreases unit.len() - j,
            {
                buffer.push(unit[j]);
                j = j + 1;
            }
            i = i + 1;
        }
        StringBuffer { buffer, index: 0 }
    }

    /// Creates a new, empty string buffer with room for `num_chars` bytes.
    ///
    /// `num_chars` only asks for memory to be set aside: whatever it is, the
    /// buffer holds nothing and its cursor is at the start.
    pub fn with_capacity(num_chars: usize) -> (buf: StringBuffer)
        ensures
            buf.wf(),
            buf.cursor() == 0,
            buf.bytes() == Seq::<u8>::empty(),
    {
        StringBuffer { buffer: Vec::with_capacity(num_chars), index: 0 }
    }

    /// Writes a byte slice at the cursor and returns the position behind it.
    ///
    /// This function does not move the cursor.
    fn write(&mut self, bytes: &[u8]) -> (end: usize)
        requires
            old(self).wf(),
        ensures
            final(self).cursor() == old(self).cursor(),
            final(self).bytes() == overwrite(old(self).bytes(), old(self).cursor() as int, bytes@),
            end == old(self).cursor() + bytes@.len(),
            end <= final(self).bytes().len(),
    {
        let ghost start = self.buffer@;
        let ghost at = self.index as int;
        let mut pos: usize = self.index;
        let mut i: usize = 0;
        while i < bytes.len()
            invariant
                i <= bytes.len(),
                self.index == at,
                at <= start.len(),
                pos == at + i,
                pos <= self.buffer@.len(),
                self.buffer@ == overwrite(start, at, bytes@.take(i as int)),
            decreases bytes.len() - i,
        {
            if pos < self.buffer.len() {
                self.buffer.set(pos, bytes[i]);
            } else {
                self.buffer.push(bytes[i]);
            }
            assert(pos < self.buffer.len());
            i = i + 1;
            pos = pos + 1;
        }
        pos
    }

    /// Writes a byte slice at the cursor, then moves the cursor by `num_chars`
    /// or by the length of the slice, whichever is more.
    ///
    /// What the buffer held between the end of the slice and the new cursor
    /// stays in place; where the buffer ends before the new cursor, it is
    /// extended with blanks.
    pub fn push_bytes_fixed_width(&mut self, c: &[u8], num_chars: usize)
        requires
            old(self).wf(),
        ensures
            final(self).wf(),
            final(self).cursor() == old(self).cursor() + larger(c@.len(), num_chars as nat),
            final(self).bytes() == padded(
                overwrite(old(self).bytes(), old(self).cursor() as int, c@),
                final(self).cursor(),
            ),
            final(self).bytes().len() == larger(old(self).bytes().len(), final(self).cursor()),
            old(self).blank_ahead() ==> final(self).blank_ahead() && final(self).written() == old(
                self,
            ).written() + c@ + blank_bytes((larger(c@.len(), num_chars as nat) - c@.len()) as nat),
    {
        proof {
            if self.blank_ahead() {
                lemma_field_over_blanks(
                    self.bytes(),
                    self.cursor() as int,
                    c@,
                    larger(c@.len(), num_chars as nat),
                );
            }
        }
        let end = self.write(c);
        let ghost laid = self.buffer@;
        if num_chars <= c.len() {
            self.index = end;
        } else {
            let rest: usize = num_chars - c.len();
            let room: usize = self.buffer.len() - end;
            if rest <= room {
                self.index = end + rest;
            } else {
                let mut missing: usize = rest - room;
                while missing > 0
                    invariant
                        laid.len() == end + room,
                        missing <= rest - room,
                        self.buffer@ == laid + blank_bytes((rest - room - missing) as nat),
                    decreases missing,
                {
                    self.buffer.push(BLANK);
                    missing = missing - 1;
                }
                self.index = self.buffer.len();
            }
        }
    }

    /// Writes a byte slice at the cursor and moves the cursor behind it.
    pub fn push_bytes(&mut self, c: &[u8])
        requires
            old(self).wf(),
        ensures
            final(self).wf(),
            final(self).cursor() == old(self).cursor() + c@.len(),
            final(self).bytes() == overwrite(old(self).bytes(), old(self).cursor() as int, c@),
            final(self).bytes().len() == larger(old(self).bytes().len(), final(self).cursor()),
            old(self).blank_ahead() ==> final(self).blank_ahead() && final(self).written() == old(
                self,
            ).written() + c@,
    {
        proof {
            if self.blank_ahead() {
                lemma_write_over_blanks(self.bytes(), self.cursor() as int, c@);
            }
        }
        let end = self.write(c);
        self.index = end;
    }

    /// Writes the bytes of a string slice, as `push_bytes` does.
    pub fn push_chars(&mut self, c: &str)
        requires
            old(self).wf(),
        ensures
            final(self).wf(),
            final(self).cursor() == old(self).cursor() + encode_utf8(c@).len(),
            final(self).bytes() == overwrite(
                old(self).bytes(),
                old(self).cursor() as int,
                encode_utf8(c@),
            ),
            final(self).bytes().len() == larger(old(self).bytes().len(), final(self).cursor()),
            old(self).blank_ahead() ==> final(self).blank_ahead() && final(self).written() == old(
                self,
            ).written() + encode_utf8(c@),
    {
        self.push_bytes(c.as_bytes())
    }

    /// Writes the bytes of a string slice, as `push_bytes_fixed_width` does.
    pub fn push_chars_fixed_width(&mut self, c: &str, num_chars: usize)
        requires
            old(self).wf(),
        ensures
            final(self).wf(),
            final(self).cursor() == old(self).cursor() + larger(
                encode_utf8(c@).len(),
                num_chars as nat,
            ),
            final(self).bytes() == padded(
                overwrite(old(self).bytes(), old(self).cursor() as int, encode_utf8(c@)),
                final(self).cursor(),
            ),
            final(self).bytes().len() == larger(old(self).bytes().len(), final(self).cursor()),
            old(self).blank_ahead() ==> final(self).blank_ahead() && final(self).written() == old(
                self,
            ).written() + encode_utf8(c@) + blank_bytes(
                (larger(encode_utf8(c@).len(), num_chars as nat) - encode_utf8(c@).len()) as nat,
            ),
    {
        self.push_bytes_fixed_width(c.as_bytes(), num_chars)
    }

    /// The bytes written so far, without what lies behind the cursor.
    pub fn into_buffer(self) -> (bytes: Vec<u8>)
        requires
            self.wf(),
        ensures
            bytes@ == self.written(),
    {
        let mut buffer = self.buffer;
        buffer.truncate(self.index);
        buffer
    }

    /// The text written so far, or `None` where the bytes before the cursor
    /// are not well-formed UTF-8.
    pub fn to_string(&self) -> (text: Option<String>)
        requires
            self.wf(),
        ensures
            text is Some <==> valid_utf8(self.written()),
            text matches Some(s) ==> encode_utf8(s@) == self.written(),
    {
        let mut bytes: Vec<u8> = Vec::with_capacity(self.index);
        let mut i: usize = 0;
        while i < self.index
            invariant
                i <= self.index,
                self.index <= self.buffer@.len(),
                bytes@ == self.buffer@.take(i as int),
            decreases self.index - i,
        {
            bytes.push(self.buffer[i]);
            i = i + 1;
        }
        string_from_utf8(bytes)
    }
}

/// Writing into a buffer whose bytes from the cursor on are blank appends to
/// the text and leaves blanks behind the cursor.
pub proof fn lemma_write_over_blanks(buf: Seq<u8>, at: int, data: Seq<u8>)
    requires
        0 <= at <= buf.len(),
        all_blank(buf.skip(at)),
    ensures
        overwrite(buf, at, data).take(at + data.len()) == buf.take(at) + data,
        all_blank(overwrite(buf, at, data).skip(at + data.len())),
{
    let out = overwrite(buf, at, data);
    let tail = out.skip(at + data.len());
    assert forall|i: int| 0 <= i < tail.len() implies #[trigger] tail[i] == BLANK by {
        assert(tail[i] == buf.skip(at)[data.len() + i]);
    }
}

/// Writing a field of fixed width into a buffer whose bytes from the cursor on
/// are blank appends the data and then blanks up to the width.
pub proof fn lemma_field_over_blanks(buf: Seq<u8>, at: int, data: Seq<u8>, width: nat)
    requires
        0 <= at <= buf.len(),
        all_blank(buf.skip(at)),
        data.len() <= width,
    ensures
        padded(overwrite(buf, at, data), (at + width) as nat).take(at + width) == buf.take(at)
            + data + blank_bytes((width - data.len()) as nat),
        all_blank(padded(overwrite(buf, at, data), (at + width) as nat).skip(at + width)),
{
    let laid = overwrite(buf, at, data);
    let out = padded(laid, (at + width) as nat);
    lemma_write_over_blanks(buf, at, data);
    assert forall|i: int| at + data.len() <= i < out.len() implies #[trigger] out[i]
        == BLANK by {
        if i < laid.len() {
            assert(out[i] == laid.skip(at + data.len())[i - at - data.len()]);
        }
    }
}

} // verus!
