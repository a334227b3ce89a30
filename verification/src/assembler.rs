//! The frame assembler: accumulates bytes pulled from the byte link queue
//! until a frame delimiter is seen, then hands the accumulated frame to the
//! codec.
//!
//! The accumulation buffer is bounded. A byte arriving on a full buffer
//! discards the buffer and surfaces `BufferFull`, so a corrupted stream that
//! never produces a delimiter cannot wedge the assembler. Every complete
//! frame yields exactly one outcome — the decoded message or the rejection
//! reason — which the main cycle answers with exactly one `Ack` or `Error`.

use vstd::prelude::*;
use crate::CommunicationError;
use crate::controller::DownstreamMessage;
use crate::codec::spec_decode_downstream;
use crate::codec::decode_downstream;
use crate::codec::spec_encode_downstream;
use crate::codec::downstream_payload;
use crate::codec::body_bytes;
use crate::codec::frame_bytes;
use crate::cobs::cobs_encode_spec;
use crate::cobs::lemma_cobs_encode_len;
use crate::cobs::lemma_cobs_encode_zero_free;
use crate::cobs::zero_free;

verus! {

/// The accumulation buffer's capacity: comfortably above the largest
/// possible encoded downstream frame.
pub const ASSEMBLER_CAPACITY: usize = 64;

/// Accumulates the bytes of one frame at a time.
pub struct Assembler {
    buffer: Vec<u8>,
}

/// One complete frame's worth of bytes as the assembler accepts it: a body
/// free of delimiters, one delimiter at the end, and small enough for the
/// buffer.
pub open spec fn wf_frame(f: Seq<u8>) -> bool {
    &&& f.len() >= 1
    &&& f.len() <= ASSEMBLER_CAPACITY as int
    &&& f.last() == 0u8
    &&& zero_free(f.drop_last())
}

impl Assembler {
    /// The buffer never outgrows its capacity.
    pub closed spec fn wf(self) -> bool {
        self.buffer@.len() <= ASSEMBLER_CAPACITY as int
    }

    /// The bytes accumulated so far for the frame in progress.
    pub closed spec fn buffered(self) -> Seq<u8> {
        self.buffer@
    }

    /// An assembler with an empty buffer.
    pub fn new() -> (a: Assembler)
        ensures
            a.wf(),
            a.buffered() == Seq::<u8>::empty(),
    {
        Assembler { buffer: Vec::new() }
    }

    /// What one byte does to the assembler: a full buffer is discarded with
    /// `BufferFull`; a delimiter completes the frame and yields its decode
    /// outcome; any other byte is accumulated silently.
    pub open spec fn spec_push(buf: Seq<u8>, byte: u8) -> (
        Seq<u8>,
        Option<Result<DownstreamMessage, CommunicationError>>,
    ) {
        if buf.len() >= ASSEMBLER_CAPACITY as int {
            (Seq::empty(), Some(Err(CommunicationError::BufferFull)))
        } else {
            let grown = buf.push(byte);
            if byte == 0u8 {
                (Seq::empty(), Some(spec_decode_downstream(grown)))
            } else {
                (grown, None)
            }
        }
    }

    /// Feed one byte pulled from the queue, as `spec_push` describes.
    pub fn push_byte(&mut self, byte: u8) -> (r: Option<
        Result<DownstreamMessage, CommunicationError>,
    >)
        requires
            old(self).wf(),
        ensures
            final(self).wf(),
            final(self).buffered() == Assembler::spec_push(old(self).buffered(), byte).0,
            r == Assembler::spec_push(old(self).buffered(), byte).1,
    {
        if self.buffer.len() >= ASSEMBLER_CAPACITY {
            self.buffer.clear();
            return Some(Err(CommunicationError::BufferFull));
        }
        self.buffer.push(byte);
        if byte == 0 {
            let outcome = decode_downstream(&self.buffer);
            self.buffer.clear();
            Some(outcome)
        } else {
            None
        }
    }
}

/// Every frame the codec builds for a downstream message is one the
/// assembler accepts whole: delimiter-free but for its terminator, and far
/// below the buffer's capacity.
pub proof fn lemma_encoded_frame_wf(m: DownstreamMessage)
    ensures
        wf_frame(spec_encode_downstream(m)),
{
    let p = downstream_payload(m);
    let body = body_bytes(p);
    assert(p.len() <= 9);
    assert(body.len() <= 11);
    lemma_cobs_encode_zero_free(body);
    lemma_cobs_encode_len(body);
    let f = frame_bytes(p);
    assert(f.len() <= ASSEMBLER_CAPACITY as int);
    assert(f.last() == 0u8);
    assert(f.drop_last() =~= cobs_encode_spec(body));
}

/// End to end: feed the assembler the encodings of any run of messages,
/// back to back, and it hands every message to the dispatcher exactly once,
/// in order — nothing lost, nothing duplicated, nothing corrupted.
pub proof fn lemma_encoded_stream_accounting(messages: Seq<DownstreamMessage>)
    ensures
        ({
            let frames = Seq::new(messages.len(), |i: int| spec_encode_downstream(messages[i]));
            let run = spec_run(Seq::empty(), concat_frames(frames));
            &&& run.0 == Seq::<u8>::empty()
            &&& run.1.len() == messages.len()
            &&& forall|i: int|
                0 <= i < messages.len() ==> run.1[i] == Ok::<DownstreamMessage,
                CommunicationError>(#[trigger] messages[i])
        }),
{
    let frames = Seq::new(messages.len(), |i: int| spec_encode_downstream(messages[i]));
    assert forall|i: int| 0 <= i < frames.len() implies wf_frame(#[trigger] frames[i]) by {
        lemma_encoded_frame_wf(messages[i]);
    }
    lemma_assembler_accounting(frames);
    assert forall|i: int| 0 <= i < messages.len() implies spec_run(
        Seq::empty(),
        concat_frames(frames),
    ).1[i] == Ok::<DownstreamMessage, CommunicationError>(#[trigger] messages[i]) by {
        assert(frames[i] == spec_encode_downstream(messages[i]));
        assert(spec_run(Seq::empty(), concat_frames(frames)).1[i] == spec_decode_downstream(
            frames[i],
        ));
        crate::codec::lemma_round_trip_downstream(messages[i]);
    }
}

/// What a whole run of bytes does to the assembler: the final buffer, and
/// every frame outcome in arrival order.
pub open spec fn spec_run(buf: Seq<u8>, bytes: Seq<u8>) -> (
    Seq<u8>,
    Seq<Result<DownstreamMessage, CommunicationError>>,
)
    decreases bytes.len(),
{
    if bytes.len() == 0 {
        (buf, Seq::empty())
    } else {
        let step = Assembler::spec_push(buf, bytes[0]);
        let rest = spec_run(step.0, bytes.drop_first());
        match step.1 {
            None => rest,
            Some(outcome) => (rest.0, seq![outcome] + rest.1),
        }
    }
}

/// Feeding two runs back to back is feeding their concatenation: the
/// outcomes line up end to end.
pub proof fn lemma_run_append(buf: Seq<u8>, a: Seq<u8>, b: Seq<u8>)
    ensures
        spec_run(buf, a + b).0 == spec_run(spec_run(buf, a).0, b).0,
        spec_run(buf, a + b).1 == spec_run(buf, a).1 + spec_run(spec_run(buf, a).0, b).1,
    decreases a.len(),
{
    if a.len() == 0 {
        assert(a + b =~= b);
        assert(spec_run(buf, a).1 + spec_run(spec_run(buf, a).0, b).1 =~= spec_run(buf, b).1);
    } else {
        let step = Assembler::spec_push(buf, a[0]);
        assert((a + b)[0] == a[0]);
        assert((a + b).drop_first() =~= a.drop_first() + b);
        lemma_run_append(step.0, a.drop_first(), b);
        match step.1 {
            None => {
            },
            Some(outcome) => {
                assert(seq![outcome] + (spec_run(step.0, a.drop_first()).1 + spec_run(
                    spec_run(step.0, a.drop_first()).0,
                    b,
                ).1) =~= (seq![outcome] + spec_run(step.0, a.drop_first()).1) + spec_run(
                    spec_run(step.0, a.drop_first()).0,
                    b,
                ).1);
            },
        }
    }
}

/// Delimiter-free bytes that fit the buffer are accumulated silently.
proof fn lemma_feed_partial(buf: Seq<u8>, bytes: Seq<u8>)
    requires
        zero_free(bytes),
        buf.len() + bytes.len() <= ASSEMBLER_CAPACITY as int,
    ensures
        spec_run(buf, bytes) == (buf + bytes, Seq::<
            Result<DownstreamMessage, CommunicationError>,
        >::empty()),
    decreases bytes.len(),
{
    if bytes.len() == 0 {
        assert(buf + bytes =~= buf);
    } else {
        assert(bytes[0] != 0u8);
        let step = Assembler::spec_push(buf, bytes[0]);
        assert forall|i: int| 0 <= i < bytes.drop_first().len() implies bytes.drop_first()[i]
            != 0u8 by {
            assert(bytes.drop_first()[i] == bytes[i + 1]);
        }
        lemma_feed_partial(buf.push(bytes[0]), bytes.drop_first());
        assert(buf.push(bytes[0]) + bytes.drop_first() =~= buf + bytes);
    }
}

/// One complete frame fed into an empty assembler yields exactly one
/// outcome — its decode result — and leaves the assembler empty again.
pub proof fn lemma_run_one_frame(f: Seq<u8>)
    requires
        wf_frame(f),
    ensures
        spec_run(Seq::empty(), f).0 == Seq::<u8>::empty(),
        spec_run(Seq::empty(), f).1 == seq![spec_decode_downstream(f)],
{
    let body = f.drop_last();
    let tail = seq![0u8];
    assert(f =~= body + tail);
    lemma_feed_partial(Seq::empty(), body);
    lemma_run_append(Seq::empty(), body, tail);
    let after = spec_run(Seq::empty(), body).0;
    assert(after =~= body);
    assert(body.push(0u8) =~= f);
    assert(tail.drop_first() =~= Seq::<u8>::empty());
    assert(spec_run(Seq::<u8>::empty(), Seq::<u8>::empty()) == (Seq::<u8>::empty(), Seq::<
        Result<DownstreamMessage, CommunicationError>,
    >::empty()));
    assert(spec_run(body, tail).0 =~= Seq::<u8>::empty());
    assert(spec_run(body, tail).1 =~= seq![spec_decode_downstream(f)]);
    assert(spec_run(Seq::empty(), f).1 =~= seq![spec_decode_downstream(f)]);
}

/// The concatenation of a sequence of frames, first to last.
pub open spec fn concat_frames(frames: Seq<Seq<u8>>) -> Seq<u8>
    decreases frames.len(),
{
    if frames.len() == 0 {
        Seq::empty()
    } else {
        frames[0] + concat_frames(frames.drop_first())
    }
}

/// Assembler accounting: feeding any number of complete delimiter-ended
/// frames through an empty assembler yields exactly one outcome per frame,
/// in arrival order — the decode result of that frame.
pub proof fn lemma_assembler_accounting(frames: Seq<Seq<u8>>)
    requires
        forall|i: int| 0 <= i < frames.len() ==> wf_frame(#[trigger] frames[i]),
    ensures
        spec_run(Seq::empty(), concat_frames(frames)).0 == Seq::<u8>::empty(),
        spec_run(Seq::empty(), concat_frames(frames)).1.len() == frames.len(),
        forall|i: int| 0 <= i < frames.len() ==> spec_run(Seq::empty(), concat_frames(frames)).1[i]
            == spec_decode_downstream(#[trigger] frames[i]),
    decreases frames.len(),
{
    if frames.len() == 0 {
    } else {
        let f = frames[0];
        let rest = frames.drop_first();
        lemma_run_one_frame(f);
        lemma_run_append(Seq::empty(), f, concat_frames(rest));
        assert(forall|i: int| 0 <= i < rest.len() ==> rest[i] == frames[i + 1]);
        lemma_assembler_accounting(rest);
        let whole = spec_run(Seq::empty(), concat_frames(frames));
        assert(whole.1 == seq![spec_decode_downstream(f)] + spec_run(
            Seq::empty(),
            concat_frames(rest),
        ).1);
        assert forall|i: int| 0 <= i < frames.len() implies whole.1[i] == spec_decode_downstream(
            #[trigger] frames[i],
        ) by {
            if i > 0 {
                assert(whole.1[i] == spec_run(Seq::empty(), concat_frames(rest)).1[i - 1]);
                assert(rest[i - 1] == frames[i]);
            }
        }
    }
}

} // verus!
