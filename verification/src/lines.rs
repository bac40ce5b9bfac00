//! The line framing of the protocol: how a byte stream splits into lines and
//! how one line decodes into an attribute.

use vstd::prelude::*;
use crate::bytes::{EQ, NL};

verus! {

/// The length of the first line of `stream`: everything up to and including
/// the first terminator, or the whole stream when no terminator is left.
pub open spec fn line_len(stream: Seq<u8>) -> nat
    decreases stream.len(),
{
    if stream.len() == 0 {
        0
    } else if stream[0] == NL {
        1
    } else {
        line_len(stream.skip(1)) + 1
    }
}

/// The first line of a non-empty stream has between 1 byte and the whole
/// stream.
pub proof fn lemma_line_len_bounds(stream: Seq<u8>)
    ensures
        stream.len() == 0 ==> line_len(stream) == 0,
        stream.len() > 0 ==> 1 <= line_len(stream) <= stream.len(),
    decreases stream.len(),
{
    if stream.len() > 0 && stream[0] != NL {
        lemma_line_len_bounds(stream.skip(1));
    }
}

/// When the first terminator stands at `at`, the first line is everything
/// through it.
pub proof fn lemma_line_len_terminated(stream: Seq<u8>, at: int)
    requires
        0 <= at < stream.len(),
        stream[at] == NL,
        forall|j: int| 0 <= j < at ==> stream[j] != NL,
    ensures
        line_len(stream) == at + 1,
    decreases at,
{
    if at > 0 {
        lemma_line_len_terminated(stream.skip(1), at - 1);
    }
}

/// A stream without a terminator is one line.
pub proof fn lemma_line_len_unterminated(stream: Seq<u8>)
    requires
        forall|j: int| 0 <= j < stream.len() ==> stream[j] != NL,
    ensures
        line_len(stream) == stream.len(),
    decreases stream.len(),
{
    if stream.len() > 0 {
        lemma_line_len_unterminated(stream.skip(1));
    }
}

/// The stream as the sequence of its lines, in order.
pub open spec fn lines_of(stream: Seq<u8>) -> Seq<Seq<u8>>
    decreases stream.len(),
{
    if stream.len() == 0 {
        Seq::empty()
    } else {
        proof {
            lemma_line_len_bounds(stream);
        }
        seq![stream.take(line_len(stream) as int)] + lines_of(stream.skip(line_len(stream) as int))
    }
}

/// A line that is exactly the terminator: it closes the current request.
pub open spec fn is_blank_line(line: Seq<u8>) -> bool {
    line.len() == 1 && line[0] == NL
}

/// The position of the first separator in `line`, or `line.len()` when there
/// is none.
pub open spec fn eq_pos(line: Seq<u8>) -> int
    decreases line.len(),
{
    if line.len() == 0 {
        0
    } else if line[0] == EQ {
        0
    } else {
        eq_pos(line.skip(1)) + 1
    }
}

/// Whether `line` holds a separator at all.
pub open spec fn has_eq(line: Seq<u8>) -> bool {
    eq_pos(line) < line.len()
}

/// When the first separator stands at `at`, `eq_pos` finds it.
pub proof fn lemma_eq_pos_found(line: Seq<u8>, at: int)
    requires
        0 <= at < line.len(),
        line[at] == EQ,
        forall|j: int| 0 <= j < at ==> line[j] != EQ,
    ensures
        eq_pos(line) == at,
    decreases at,
{
    if at > 0 {
        lemma_eq_pos_found(line.skip(1), at - 1);
    }
}

/// A line without a separator is the whole line long for `eq_pos`.
pub proof fn lemma_eq_pos_missing(line: Seq<u8>)
    requires
        forall|j: int| 0 <= j < line.len() ==> line[j] != EQ,
    ensures
        eq_pos(line) == line.len(),
    decreases line.len(),
{
    if line.len() > 0 {
        lemma_eq_pos_missing(line.skip(1));
    }
}

/// A non-blank line that cannot decode into an attribute: no separator, an
/// empty name before the separator, or a remainder after the separator —
/// value portion plus terminator — of fewer than 2 bytes. In particular a
/// line with no byte at all between the separator and the terminator is
/// malformed.
pub open spec fn line_malformed(line: Seq<u8>) -> bool {
    ||| !has_eq(line)
    ||| eq_pos(line) == 0
    ||| line.len() - eq_pos(line) < 3
}

/// Law: a line without any separator is malformed.
pub proof fn lemma_no_eq_is_malformed(line: Seq<u8>)
    requires
        forall|j: int| 0 <= j < line.len() ==> line[j] != EQ,
    ensures
        line_malformed(line),
{
    lemma_eq_pos_missing(line);
}

/// Law: a line whose name portion is empty — it opens with the separator —
/// is malformed.
pub proof fn lemma_empty_name_is_malformed(line: Seq<u8>)
    requires
        line.len() > 0,
        line[0] == EQ,
    ensures
        line_malformed(line),
{
}

/// The attribute name of a well-formed line: the bytes before the first
/// separator.
pub open spec fn line_name(line: Seq<u8>) -> Seq<u8> {
    line.take(eq_pos(line))
}

/// The attribute value of a well-formed line: the bytes between the first
/// separator and the final byte. The final byte itself — ordinarily the
/// terminator — is stripped.
pub open spec fn line_value(line: Seq<u8>) -> Seq<u8> {
    line.subrange(eq_pos(line) + 1, line.len() - 1)
}

/// Law: a stream that opens with one full line — terminator at its end and
/// nowhere before — splits into that line followed by the lines of the
/// rest. Chained, it takes a whole request from its bytes to the line
/// sequence the engine is specified over.
pub proof fn lemma_lines_of_prepend(line: Seq<u8>, rest: Seq<u8>)
    requires
        line.len() > 0,
        line[line.len() - 1] == NL,
        forall|j: int| 0 <= j < line.len() - 1 ==> line[j] != NL,
    ensures
        lines_of(line + rest) == seq![line] + lines_of(rest),
{
    let s = line + rest;
    lemma_line_len_terminated(s, line.len() as int - 1);
    assert(s.take(line.len() as int) =~= line);
    assert(s.skip(line.len() as int) =~= rest);
}

/// An attribute line as the peer writes it: the name, the separator, the
/// value, and the line terminator.
pub open spec fn attr_line(name: Seq<u8>, value: Seq<u8>) -> Seq<u8> {
    name + seq![EQ] + value + seq![NL]
}

/// Law: an attribute line `name=value` with a non-empty, separator-free name
/// and a non-empty value is well formed and decodes back to exactly that
/// name and that value: the split falls at the first separator, so
/// separators inside the value stay part of it, and only the final
/// terminator is stripped.
pub proof fn lemma_attr_line_round_trip(name: Seq<u8>, value: Seq<u8>)
    requires
        name.len() > 0,
        value.len() > 0,
        forall|j: int| 0 <= j < name.len() ==> name[j] != EQ,
    ensures
        !is_blank_line(attr_line(name, value)),
        !line_malformed(attr_line(name, value)),
        line_name(attr_line(name, value)) == name,
        line_value(attr_line(name, value)) == value,
{
    let line = attr_line(name, value);
    lemma_eq_pos_found(line, name.len() as int);
    assert(line.take(name.len() as int) =~= name);
    assert(line.subrange(name.len() as int + 1, line.len() as int - 1) =~= value);
}

} // verus!

