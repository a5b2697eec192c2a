//! Splitting a text at its line breaks, and what that gives for a text that
//! was joined from lines.

use crate::text::{closed_parts, joined_with, repeated};
use vstd::prelude::*;

verus! {

/// The character that ends a line.
pub open spec fn line_break() -> Seq<char> {
    seq!['\n']
}

/// The lines of `text`: what stands between its line breaks. A text without a
/// line break is one line, and so is the empty text.
pub open spec fn lines_of(text: Seq<char>) -> Seq<Seq<char>>
    decreases text.len(),
{
    if text.len() == 0 {
        seq![Seq::empty()]
    } else {
        let before = lines_of(text.drop_last());
        if text.last() == '\n' {
            before.push(Seq::empty())
        } else {
            before.drop_last().push(before.last().push(text.last()))
        }
    }
}

/// `text` holds no line break.
pub open spec fn unbroken(text: Seq<char>) -> bool {
    forall|i: int| 0 <= i < text.len() ==> text[i] != '\n'
}

/// Each of `lines` holds no line break.
pub open spec fn all_unbroken(lines: Seq<Seq<char>>) -> bool {
    forall|k: int| 0 <= k < lines.len() ==> unbroken(#[trigger] lines[k])
}

/// Every text has at least one line.
pub proof fn lemma_lines_of_len(text: Seq<char>)
    ensures
        lines_of(text).len() >= 1,
    decreases text.len(),
{
    if text.len() > 0 {
        lemma_lines_of_len(text.drop_last());
    }
}

/// What is appended without a line break extends the last line.
pub proof fn lemma_lines_of_append(text: Seq<char>, tail: Seq<char>)
    requires
        unbroken(tail),
    ensures
        lines_of(text + tail) == lines_of(text).drop_last().push(lines_of(text).last() + tail),
    decreases tail.len(),
{
    lemma_lines_of_len(text);
    let lines = lines_of(text);
    if tail.len() > 0 {
        let shorter = tail.drop_last();
        assert(unbroken(shorter));
        lemma_lines_of_append(text, shorter);
        assert((text + tail).drop_last() =~= text + shorter);
        let before = lines_of(text + shorter);
        assert(before.last().push(tail.last()) =~= lines.last() + tail);
    }
}

/// A line break begins a new, empty line.
pub proof fn lemma_lines_of_break(text: Seq<char>)
    ensures
        lines_of(text + line_break()) == lines_of(text).push(Seq::empty()),
{
    let whole = text + line_break();
    assert(whole.drop_last() =~= text);
}

/// The lines of a text made of unbroken lines, each closed by a line break,
/// are those lines and an empty one behind them.
pub proof fn lemma_lines_of_closed(lines: Seq<Seq<char>>, n: nat)
    requires
        n <= lines.len(),
        all_unbroken(lines),
    ensures
        lines_of(closed_parts(lines, line_break(), n)) == lines.take(n as int).push(Seq::empty()),
    decreases n,
{
    if n > 0 {
        let before = closed_parts(lines, line_break(), (n - 1) as nat);
        lemma_lines_of_closed(lines, (n - 1) as nat);
        lemma_lines_of_append(before, lines[n - 1]);
        lemma_lines_of_break(before + lines[n - 1]);
    }
}

/// Splitting undoes joining: the lines of a text joined from unbroken lines
/// are those lines.
pub proof fn lemma_lines_of_joined(lines: Seq<Seq<char>>)
    requires
        lines.len() >= 1,
        all_unbroken(lines),
    ensures
        lines_of(joined_with(lines, line_break())) == lines,
{
    let n = (lines.len() - 1) as nat;
    let before = closed_parts(lines, line_break(), n);
    lemma_lines_of_closed(lines, n);
    lemma_lines_of_append(before, lines.last());
}

/// Two unbroken texts in a row are unbroken.
pub proof fn lemma_unbroken_concat(a: Seq<char>, b: Seq<char>)
    requires
        unbroken(a),
        unbroken(b),
    ensures
        unbroken(a + b),
{
}

/// An unbroken text repeated is unbroken.
pub proof fn lemma_unbroken_repeated(unit: Seq<char>, n: nat)
    requires
        unbroken(unit),
    ensures
        unbroken(repeated(unit, n)),
    decreases n,
{
    if n > 0 {
        lemma_unbroken_repeated(unit, (n - 1) as nat);
        lemma_unbroken_concat(repeated(unit, (n - 1) as nat), unit);
    }
}

/// Unbroken parts closed by an unbroken separator are unbroken.
pub proof fn lemma_unbroken_closed(parts: Seq<Seq<char>>, sep: Seq<char>, n: nat)
    requires
        n <= parts.len(),
        all_unbroken(parts),
        unbroken(sep),
    ensures
        unbroken(closed_parts(parts, sep, n)),
    decreases n,
{
    if n > 0 {
        lemma_unbroken_closed(parts, sep, (n - 1) as nat);
        lemma_unbroken_concat(closed_parts(parts, sep, (n - 1) as nat), parts[n - 1]);
        lemma_unbroken_concat(closed_parts(parts, sep, (n - 1) as nat) + parts[n - 1], sep);
    }
}

/// Unbroken parts joined by an unbroken separator are unbroken.
pub proof fn lemma_unbroken_joined(parts: Seq<Seq<char>>, sep: Seq<char>)
    requires
        all_unbroken(parts),
        unbroken(sep),
    ensures
        unbroken(joined_with(parts, sep)),
{
    if parts.len() > 0 {
        lemma_unbroken_closed(parts, sep, (parts.len() - 1) as nat);
        lemma_unbroken_concat(
            closed_parts(parts, sep, (parts.len() - 1) as nat),
            parts.last(),
        );
    }
}

} // verus!
