//! Byte constants of the wire format and small helpers on byte buffers.

use vstd::prelude::*;

verus! {

/// The line terminator `\n`.
pub const NL: u8 = 10;

/// The attribute separator `=`.
pub const EQ: u8 = 61;

/// The space between a decision tag and its payload.
pub const SP: u8 = 32;

/// Appends every byte of `source` to `target`.
pub fn push_all(target: &mut Vec<u8>, source: &[u8])
    ensures
        final(target)@ == old(target)@ + source@,
{
    let mut i: usize = 0;
    while i < source.len()
        invariant
            i <= source@.len(),
            target@ == old(target)@ + source@.take(i as int),
        decreases source@.len() - i,
    {
        target.push(source[i]);
        i = i + 1;
        proof {
            assert(target@ =~= old(target)@ + source@.take(i as int));
        }
    }
    proof {
        assert(target@ =~= old(target)@ + source@);
    }
}

/// Copies the bytes of `source` between `start` (inclusive) and `end`
/// (exclusive) into a fresh buffer.
pub fn copy_range(source: &[u8], start: usize, end: usize) -> (part: Vec<u8>)
    requires
        start <= end <= source@.len(),
    ensures
        part@ == source@.subrange(start as int, end as int),
{
    let mut part: Vec<u8> = Vec::new();
    let mut i: usize = start;
    while i < end
        invariant
            start <= i <= end <= source@.len(),
            part@ == source@.subrange(start as int, i as int),
        decreases end - i,
    {
        part.push(source[i]);
        i = i + 1;
        proof {
            assert(part@ =~= source@.subrange(start as int, i as int));
        }
    }
    part
}

} // verus!
