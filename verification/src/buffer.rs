//! A simple bounded byte sink: bytes are appended one at a time until a
//! fixed capacity is reached, then taken out as one contiguous buffer.

use vstd::prelude::*;
use crate::CommunicationError;

verus! {

/// A byte buffer with a fixed capacity chosen at construction.
pub struct Buffer {
    buffer: Vec<u8>,
    capacity: usize,
}

impl Buffer {
    /// The buffer never outgrows its capacity.
    pub closed spec fn wf(self) -> bool {
        self.buffer@.len() <= self.capacity as int
    }

    /// The bytes written so far.
    pub closed spec fn bytes(self) -> Seq<u8> {
        self.buffer@
    }

    /// The fixed capacity.
    pub closed spec fn cap(self) -> int {
        self.capacity as int
    }

    /// An empty buffer that accepts up to `capacity` bytes.
    pub fn new(capacity: usize) -> (b: Buffer)
        ensures
            b.wf(),
            b.bytes() == Seq::<u8>::empty(),
            b.cap() == capacity as int,
    {
        Buffer { buffer: Vec::new(), capacity }
    }

    /// Append one byte; `BufferFull` if and only if the capacity is already
    /// reached, in which case nothing changes.
    pub fn push(&mut self, byte: u8) -> (r: Result<(), CommunicationError>)
        requires
            old(self).wf(),
        ensures
            final(self).wf(),
            final(self).cap() == old(self).cap(),
            old(self).bytes().len() < old(self).cap() ==> r is Ok && final(self).bytes() == old(
                self,
            ).bytes().push(byte),
            old(self).bytes().len() >= old(self).cap() ==> r == Err::<(), CommunicationError>(
                CommunicationError::BufferFull,
            ) && final(self).bytes() == old(self).bytes(),
    {
        if self.buffer.len() >= self.capacity {
            return Err(CommunicationError::BufferFull);
        }
        self.buffer.push(byte);
        Ok(())
    }

    /// Take the written bytes out.
    pub fn into_buffer(self) -> (r: Vec<u8>)
        ensures
            r@ == self.bytes(),
    {
        self.buffer
    }
}

} // verus!
