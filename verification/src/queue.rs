//! The byte link queue: a fixed-capacity ring buffer of bytes moving raw
//! bytes from the receive interrupt handler to the main loop.
//!
//! The capacity is fixed, and an index wraps around it at most once, so
//! wrapping is one compare and subtract. Enqueue on a full queue drops the byte and reports it; dequeue
//! on an empty queue returns nothing; neither ever blocks.

use vstd::prelude::*;

verus! {

/// How many bytes the queue holds at most: one full frame's encoded length
/// plus headroom for the start of the next.
pub const QUEUE_CAPACITY: usize = 256;

/// A raw index into the ring's storage, wrapped once around the capacity.
pub open spec fn wrap_index(i: int) -> int
    recommends
        0 <= i < 2 * QUEUE_CAPACITY,
{
    if i < QUEUE_CAPACITY as int {
        i
    } else {
        i - QUEUE_CAPACITY as int
    }
}

/// The single-producer single-consumer byte queue.
pub struct Queue {
    buf: Vec<u8>,
    head: usize,
    len: usize,
}

impl Queue {
    /// The ring's storage is full-sized and its cursors are in range.
    pub closed spec fn wf(self) -> bool {
        &&& self.buf@.len() == QUEUE_CAPACITY as int
        &&& self.head < QUEUE_CAPACITY
        &&& self.len <= QUEUE_CAPACITY
    }

    /// The queued bytes, oldest first.
    pub closed spec fn contents(self) -> Seq<u8> {
        Seq::new(self.len as nat, |i: int| self.buf@[wrap_index(self.head + i)])
    }

    /// An empty queue.
    pub fn new() -> (q: Queue)
        ensures
            q.wf(),
            q.contents() == Seq::<u8>::empty(),
    {
        let mut buf: Vec<u8> = Vec::new();
        let mut i: usize = 0;
        while i < QUEUE_CAPACITY
            invariant
                i <= QUEUE_CAPACITY,
                buf@.len() == i as int,
            decreases QUEUE_CAPACITY - i,
        {
            buf.push(0u8);
            i = i + 1;
        }
        let q = Queue { buf, head: 0, len: 0 };
        proof {
            assert(q.contents() =~= Seq::<u8>::empty());
        }
        q
    }

    /// What one enqueue does to the queued bytes: append where there is
    /// room, drop the byte (and say so) where there is none.
    pub open spec fn spec_enqueue(q: Seq<u8>, byte: u8) -> (Seq<u8>, bool) {
        if q.len() < QUEUE_CAPACITY as int {
            (q.push(byte), true)
        } else {
            (q, false)
        }
    }

    /// Push one byte at the tail. Never blocks: on a full queue the byte is
    /// dropped and `false` comes back.
    pub fn enqueue(&mut self, byte: u8) -> (ok: bool)
        requires
            old(self).wf(),
        ensures
            final(self).wf(),
            final(self).contents() == Queue::spec_enqueue(old(self).contents(), byte).0,
            ok == Queue::spec_enqueue(old(self).contents(), byte).1,
    {
        if self.len >= QUEUE_CAPACITY {
            return false;
        }
        let sum = self.head + self.len;
        let idx = if sum >= QUEUE_CAPACITY {
            sum - QUEUE_CAPACITY
        } else {
            sum
        };
        proof {
            assert(idx as int == wrap_index(old(self).head + old(self).len));
        }
        self.buf.set(idx, byte);
        self.len = self.len + 1;
        proof {
            assert(final(self).contents() =~= Queue::spec_enqueue(old(self).contents(), byte).0);
        }
        true
    }

    /// Pop the oldest byte, or nothing where the queue is empty. Never
    /// blocks.
    pub fn dequeue(&mut self) -> (r: Option<u8>)
        requires
            old(self).wf(),
        ensures
            final(self).wf(),
            old(self).contents().len() == 0 ==> r is None && final(self).contents()
                == old(self).contents(),
            old(self).contents().len() > 0 ==> r == Some(old(self).contents()[0])
                && final(self).contents() == old(self).contents().drop_first(),
    {
        if self.len == 0 {
            return None;
        }
        let byte = self.buf[self.head];
        let next = self.head + 1;
        let wrapped = if next >= QUEUE_CAPACITY {
            next - QUEUE_CAPACITY
        } else {
            next
        };
        proof {
            assert(wrapped as int == wrap_index(old(self).head + 1));
        }
        self.head = wrapped;
        self.len = self.len - 1;
        proof {
            assert(final(self).contents() =~= old(self).contents().drop_first());
        }
        Some(byte)
    }

    /// How many bytes are queued.
    pub fn len(&self) -> (r: usize)
        requires
            self.wf(),
        ensures
            r as int == self.contents().len(),
    {
        self.len
    }
}

/// What a whole burst of enqueues does to the queued bytes, first to last.
pub open spec fn spec_enqueue_all(q: Seq<u8>, bytes: Seq<u8>) -> Seq<u8>
    decreases bytes.len(),
{
    if bytes.len() == 0 {
        q
    } else {
        spec_enqueue_all(Queue::spec_enqueue(q, bytes[0]).0, bytes.drop_first())
    }
}

/// Queue bounded loss: a burst of enqueues appends exactly the bytes that
/// fit, in arrival order; only the overflow beyond capacity is dropped.
pub proof fn lemma_queue_bounded_loss(q: Seq<u8>, bytes: Seq<u8>)
    requires
        q.len() <= QUEUE_CAPACITY as int,
    ensures
        ({
            let room = if QUEUE_CAPACITY as int - q.len() <= bytes.len() {
                QUEUE_CAPACITY as int - q.len()
            } else {
                bytes.len() as int
            };
            spec_enqueue_all(q, bytes) == q + bytes.take(room)
        }),
    decreases bytes.len(),
{
    let room = if QUEUE_CAPACITY as int - q.len() <= bytes.len() {
        QUEUE_CAPACITY as int - q.len()
    } else {
        bytes.len() as int
    };
    if bytes.len() == 0 {
        assert(spec_enqueue_all(q, bytes) =~= q + bytes.take(room));
    } else if q.len() < QUEUE_CAPACITY as int {
        lemma_queue_bounded_loss(q.push(bytes[0]), bytes.drop_first());
        assert(q.push(bytes[0]) =~= q + bytes.take(1));
        assert(bytes.drop_first().take(room - 1) =~= bytes.subrange(1, room));
        assert(q + bytes.take(1) + bytes.subrange(1, room) =~= q + bytes.take(room));
    } else {
        lemma_queue_bounded_loss(q, bytes.drop_first());
        assert(bytes.drop_first().take(0) =~= bytes.take(0));
        assert(q + bytes.take(0) =~= q);
    }
}

} // verus!
