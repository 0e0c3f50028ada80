//! Outbound message builder: an append-only run of fields, each rendered
//! as its bytes followed by one terminator, consumed once to send.
use vstd::prelude::*;

use crate::constants::FIELD_TERMINATOR;

verus! {

/// One outbound field-delimited payload under construction.
pub struct EMessage {
    buffer: Vec<u8>,
}

impl View for EMessage {
    type V = Seq<u8>;

    closed spec fn view(&self) -> Seq<u8> {
        self.buffer@
    }
}

impl EMessage {
    /// A fresh, empty payload.
    pub fn new() -> (m: EMessage)
        ensures
            m@ == Seq::<u8>::empty(),
    {
        EMessage { buffer: Vec::new() }
    }

    /// Appends one field: its raw bytes followed by exactly one
    /// terminator.  No shape or cardinality checking: the caller must
    /// emit the fields the target message kind expects.
    pub fn push(&mut self, field: &[u8])
        ensures
            final(self)@ == old(self)@ + field@ + seq![FIELD_TERMINATOR],
    {
        let mut i: usize = 0;
        while i < field.len()
            invariant
                i <= field@.len(),
                self.buffer@ == old(self)@ + field@.take(i as int),
            decreases field@.len() - i,
        {
            self.buffer.push(field[i]);
            proof {
                assert(old(self)@ + field@.take(i + 1)
                    =~= (old(self)@ + field@.take(i as int)).push(field@[i as int]));
            }
            i = i + 1;
        }
        self.buffer.push(FIELD_TERMINATOR);
        proof {
            assert(field@.take(field@.len() as int) =~= field@);
            assert(old(self)@ + field@ + seq![FIELD_TERMINATOR]
                =~= (old(self)@ + field@).push(FIELD_TERMINATOR));
        }
    }

    /// Finalizes the payload, handing the built bytes over; the builder
    /// is moved and cannot be reused.
    pub fn consume(self) -> (bytes: Vec<u8>)
        ensures
            bytes@ == self@,
    {
        self.buffer
    }
}

} // verus!
