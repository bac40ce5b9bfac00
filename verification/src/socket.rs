//! An in-memory byte stream: reads come from a fixed input, writes collect
//! into a buffer. The engine runs against it, and tests read the buffer
//! back.

use vstd::prelude::*;
use crate::bytes::{copy_range, push_all, NL};

verus! {

/// A connection whose input is a byte buffer given up front and whose
/// output is collected for later inspection.
pub struct DummySocket {
    input: Vec<u8>,
    pos: usize,
    output: Vec<u8>,
}

impl DummySocket {
    /// Validity: the read position never passes the end of the input.
    pub closed spec fn wf(&self) -> bool {
        self.pos <= self.input@.len()
    }

    /// The bytes not yet read.
    pub closed spec fn remaining(&self) -> Seq<u8> {
        self.input@.skip(self.pos as int)
    }

    /// The bytes written so far.
    pub closed spec fn written(&self) -> Seq<u8> {
        self.output@
    }

    /// Creates a socket that will serve the bytes of `input` and has written
    /// nothing yet.
    pub fn new(input: &[u8]) -> (socket: Self)
        ensures
            socket.wf(),
            socket.remaining() == input@,
            socket.written() == Seq::<u8>::empty(),
    {
        let socket = DummySocket { input: copy_range(input, 0, input.len()), pos: 0, output: Vec::new() };
        proof {
            assert(socket.remaining() =~= input@);
        }
        socket
    }

    /// Consumes the socket and returns everything written into it.
    pub fn get_output(self) -> (output: Vec<u8>)
        ensures
            output@ == self.written(),
    {
        self.output
    }

    /// Reads the next line: everything up to and including the next
    /// terminator, or everything left when no terminator follows. Empty
    /// exactly at the end of the stream.
    pub fn read_line(&mut self) -> (line: Vec<u8>)
        requires
            old(self).wf(),
        ensures
            final(self).wf(),
            final(self).written() == old(self).written(),
            line@ == old(self).remaining().take(
                crate::lines::line_len(old(self).remaining()) as int,
            ),
            final(self).remaining() == old(self).remaining().skip(
                crate::lines::line_len(old(self).remaining()) as int,
            ),
    {
        let ghost rem0 = self.input@.skip(self.pos as int);
        let mut end: usize = self.pos;
        while end < self.input.len() && self.input[end] != NL
            invariant
                self.pos <= end <= self.input@.len(),
                forall|j: int| self.pos <= j < end ==> self.input@[j] != NL,
            decreases self.input@.len() - end,
        {
            end = end + 1;
        }
        let stop: usize = if end < self.input.len() {
            end + 1
        } else {
            end
        };
        proof {
            assert forall|j: int| 0 <= j < end - self.pos implies rem0[j] != NL by {
                assert(self.input@[j + self.pos] != NL);
            }
            if end < self.input@.len() {
                assert(rem0[end - self.pos] == NL);
                crate::lines::lemma_line_len_terminated(rem0, end - self.pos);
            } else {
                crate::lines::lemma_line_len_unterminated(rem0);
            }
            assert(crate::lines::line_len(rem0) == stop - self.pos);
        }
        let line = copy_range(self.input.as_slice(), self.pos, stop);
        self.pos = stop;
        proof {
            let ghost k = stop - old(self).pos;
            assert(line@ =~= rem0.take(k));
            assert(final(self).remaining() =~= rem0.skip(k));
        }
        line
    }

    /// Appends `data` to the written output; the input is untouched.
    pub fn write_all(&mut self, data: &[u8])
        requires
            old(self).wf(),
        ensures
            final(self).wf(),
            final(self).remaining() == old(self).remaining(),
            final(self).written() == old(self).written() + data@,
    {
        push_all(&mut self.output, data);
    }
}

} // verus!
