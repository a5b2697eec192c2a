//! Text measured in UTF-8 bytes: the width of a cell, runs of blanks, and the
//! facts that tie a sequence of characters to its encoding.

use vstd::prelude::*;
use vstd::utf8::*;

verus! {

/// The byte that encodes a blank.
pub const BLANK: u8 = 0x20u8;

/// The width of `text`: the number of bytes of its UTF-8 encoding.
pub open spec fn text_width(text: Seq<char>) -> nat {
    encode_utf8(text).len()
}

/// The larger of two lengths.
pub open spec fn larger(a: nat, b: nat) -> nat {
    if a >= b {
        a
    } else {
        b
    }
}

/// `n` blanks.
pub open spec fn spaces(n: nat) -> Seq<char> {
    Seq::new(n, |i: int| ' ')
}

/// `n` bytes, each the encoding of a blank.
pub open spec fn blank_bytes(n: nat) -> Seq<u8> {
    Seq::new(n, |i: int| BLANK)
}

/// Every byte of `bytes` encodes a blank.
pub open spec fn all_blank(bytes: Seq<u8>) -> bool {
    forall|i: int| 0 <= i < bytes.len() ==> bytes[i] == BLANK
}

/// `unit` written `n` times in a row.
pub open spec fn repeated<T>(unit: Seq<T>, n: nat) -> Seq<T>
    decreases n,
{
    if n == 0 {
        Seq::empty()
    } else {
        repeated(unit, (n - 1) as nat) + unit
    }
}

/// The first `n` of `parts`, each with `sep` behind it.
pub open spec fn closed_parts<T>(parts: Seq<Seq<T>>, sep: Seq<T>, n: nat) -> Seq<T>
    decreases n,
{
    if n == 0 {
        Seq::empty()
    } else {
        closed_parts(parts, sep, (n - 1) as nat) + parts[n - 1] + sep
    }
}

/// `parts` with `sep` between each two, and none at the end.
pub open spec fn joined_with<T>(parts: Seq<Seq<T>>, sep: Seq<T>) -> Seq<T> {
    if parts.len() == 0 {
        Seq::empty()
    } else {
        closed_parts(parts, sep, (parts.len() - 1) as nat) + parts.last()
    }
}

/// The encoding of each of `parts`.
pub open spec fn encoded(parts: Seq<Seq<char>>) -> Seq<Seq<u8>> {
    Seq::new(parts.len(), |i: int| encode_utf8(parts[i]))
}

/// The encoding of one character is the encoding of its scalar value.
pub proof fn lemma_encode_single(c: char)
    ensures
        encode_utf8(seq![c]) == encode_scalar(c as u32),
{
    reveal_with_fuel(encode_utf8, 2);
}

/// Encoding distributes over concatenation.
pub proof fn lemma_encode_concat(a: Seq<char>, b: Seq<char>)
    ensures
        encode_utf8(a + b) == encode_utf8(a) + encode_utf8(b),
    decreases a.len(),
{
    if a.len() > 0 {
        lemma_encode_concat(a.drop_first(), b);
        assert((a + b).drop_first() =~= a.drop_first() + b);
    }
}

/// Widths add up under concatenation.
pub proof fn lemma_width_concat(a: Seq<char>, b: Seq<char>)
    ensures
        text_width(a + b) == text_width(a) + text_width(b),
{
    lemma_encode_concat(a, b);
}

/// Two texts with the same encoding are the same text.
pub proof fn lemma_encode_injective(a: Seq<char>, b: Seq<char>)
    requires
        encode_utf8(a) == encode_utf8(b),
    ensures
        a == b,
{
    encode_utf8_decode_utf8(a);
    encode_utf8_decode_utf8(b);
}

/// A run of blanks encodes to as many blank bytes.
pub proof fn lemma_encode_spaces(n: nat)
    ensures
        encode_utf8(spaces(n)) == blank_bytes(n),
        text_width(spaces(n)) == n,
{
    is_ascii_chars_encode_utf8(spaces(n));
}

/// A text of plain ASCII is as wide as it is long.
pub proof fn lemma_ascii_width(text: Seq<char>)
    requires
        is_ascii_chars(text),
    ensures
        text_width(text) == text.len(),
{
    is_ascii_chars_encode_utf8(text);
}

/// Repeating a single blank byte gives a run of blank bytes.
pub proof fn lemma_repeated_blank(n: nat)
    ensures
        repeated(seq![BLANK], n) == blank_bytes(n),
    decreases n,
{
    if n > 0 {
        lemma_repeated_blank((n - 1) as nat);
    }
}

/// A repeated text encodes to the repetition of its encoding.
pub proof fn lemma_encode_repeated(unit: Seq<char>, n: nat)
    ensures
        encode_utf8(repeated(unit, n)) == repeated(encode_utf8(unit), n),
    decreases n,
{
    if n > 0 {
        lemma_encode_repeated(unit, (n - 1) as nat);
        lemma_encode_concat(repeated(unit, (n - 1) as nat), unit);
    }
}

/// Parts closed by a separator encode to the encoded parts closed by the
/// encoded separator.
pub proof fn lemma_encode_closed(parts: Seq<Seq<char>>, sep: Seq<char>, n: nat)
    requires
        n <= parts.len(),
    ensures
        encode_utf8(closed_parts(parts, sep, n)) == closed_parts(
            encoded(parts),
            encode_utf8(sep),
            n,
        ),
    decreases n,
{
    if n > 0 {
        let before = closed_parts(parts, sep, (n - 1) as nat);
        lemma_encode_closed(parts, sep, (n - 1) as nat);
        lemma_encode_concat(before, parts[n - 1]);
        lemma_encode_concat(before + parts[n - 1], sep);
    }
}

/// Joined parts encode to the encoded parts joined by the encoded separator.
pub proof fn lemma_encode_joined(parts: Seq<Seq<char>>, sep: Seq<char>)
    ensures
        encode_utf8(joined_with(parts, sep)) == joined_with(encoded(parts), encode_utf8(sep)),
{
    if parts.len() > 0 {
        let n = (parts.len() - 1) as nat;
        lemma_encode_closed(parts, sep, n);
        lemma_encode_concat(closed_parts(parts, sep, n), parts.last());
    }
}

/// The UTF-8 bytes of one character.
pub fn encode_char(c: char) -> (bytes: Vec<u8>)
    ensures
        bytes@ == encode_utf8(seq![c]),
{
    let u: u32 = c as u32;
    proof {
        lemma_encode_single(c);
        char_is_scalar(c);
    }
    let mut bytes: Vec<u8> = Vec::with_capacity(4);
    if u <= 0x7F {
        let b0: u8 = (u & 0x7F) as u8;
        bytes.push(b0);
    } else if u <= 0x7FF {
        let b0: u8 = 0xC0u8 | (((u >> 6) & 0x1F) as u8);
        let b1: u8 = 0x80u8 | ((u & 0x3F) as u8);
        bytes.push(b0);
        bytes.push(b1);
    } else if u <= 0xFFFF {
        let b0: u8 = 0xE0u8 | (((u >> 12) & 0x0F) as u8);
        let b1: u8 = 0x80u8 | (((u >> 6) & 0x3F) as u8);
        let b2: u8 = 0x80u8 | ((u & 0x3F) as u8);
        bytes.push(b0);
        bytes.push(b1);
        bytes.push(b2);
    } else {
        let b0: u8 = 0xF0u8 | (((u >> 18) & 0x7) as u8);
        let b1: u8 = 0x80u8 | (((u >> 12) & 0x3F) as u8);
        let b2: u8 = 0x80u8 | (((u >> 6) & 0x3F) as u8);
        let b3: u8 = 0x80u8 | ((u & 0x3F) as u8);
        bytes.push(b0);
        bytes.push(b1);
        bytes.push(b2);
        bytes.push(b3);
    }
    bytes
}

} // verus!
