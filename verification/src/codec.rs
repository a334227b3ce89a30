//! The frame codec: a typed message becomes a self-delimiting,
//! integrity-checked byte frame, and back.
//!
//! A frame is built in three layers. The payload is a compact tagged
//! encoding of the message (a tag byte followed by the variant's fields,
//! integers in little-endian order). A CRC-16 over the payload is appended
//! in little-endian order. The result is COBS-stuffed so the delimiter byte
//! `0x00` occurs nowhere inside it, and one delimiter is appended as the
//! terminator.

use vstd::prelude::*;
use vstd::arithmetic::div_mod::lemma_fundamental_div_mod;
use crate::CommunicationError;
use crate::controller::VelocityData;
use crate::controller::DownstreamMessage;
use crate::controller::UpstreamMessage;
use crate::controller::UpstreamMessageView;
use crate::cobs::cobs_encode_spec;
use crate::cobs::cobs_decode_spec;
use crate::cobs::cobs_encode;
use crate::cobs::cobs_decode;
use crate::cobs::push_range;
use crate::crc16::crc16;
use crate::crc16::crc16_of;

verus! {

/// The two little-endian bytes of a 16-bit value.
pub open spec fn u16_bytes(n: int) -> Seq<u8>
    recommends
        0 <= n < 0x10000,
{
    seq![(n % 256) as u8, (n / 256) as u8]
}

/// The 16-bit value of two little-endian bytes.
pub open spec fn u16_val(s: Seq<u8>) -> int
    recommends
        s.len() == 2,
{
    s[0] as int + 256 * (s[1] as int)
}

/// A signed 16-bit value mapped onto the wire's unsigned range
/// (two's complement).
pub open spec fn enc_i16(v: int) -> int
    recommends
        -0x8000 <= v < 0x8000,
{
    if v >= 0 {
        v
    } else {
        v + 0x10000
    }
}

/// The signed value a wire word stands for (two's complement).
pub open spec fn dec_i16(u: int) -> int
    recommends
        0 <= u < 0x10000,
{
    if u >= 0x8000 {
        u - 0x10000
    } else {
        u
    }
}

/// Reading back two little-endian bytes gives the value they were made of.
proof fn lemma_u16_round_trip(n: int)
    requires
        0 <= n < 0x10000,
    ensures
        u16_val(u16_bytes(n)) == n,
        u16_bytes(n).len() == 2,
{
    lemma_fundamental_div_mod(n, 256);
}

/// Append a 16-bit value to `out` in little-endian order.
fn push_u16(out: &mut Vec<u8>, n: u16) -> (r: ())
    ensures
        final(out)@ == old(out)@ + u16_bytes(n as int),
{
    out.push((n % 256) as u8);
    out.push((n / 256) as u8);
    proof {
        assert(final(out)@ =~= old(out)@ + u16_bytes(n as int));
    }
}

/// Append a signed 16-bit value to `out` in little-endian two's complement.
fn push_i16(out: &mut Vec<u8>, v: i16)
    ensures
        final(out)@ == old(out)@ + u16_bytes(enc_i16(v as int)),
{
    let u: u16 = if v >= 0 {
        v as u16
    } else {
        ((v as i32) + 0x10000) as u16
    };
    push_u16(out, u);
}

/// Read the 16-bit value stored at `p[i..i + 2]` in little-endian order.
fn read_u16_at(p: &Vec<u8>, i: usize) -> (r: u16)
    requires
        i + 2 <= p@.len(),
    ensures
        r as int == u16_val(p@.subrange(i as int, i as int + 2)),
{
    let n = p.len();
    assert(i + 2 <= n);
    let lo = p[i];
    let hi = p[i + 1];
    lo as u16 + 256 * (hi as u16)
}

/// Read the signed 16-bit value stored at `p[i..i + 2]`.
fn read_i16_at(p: &Vec<u8>, i: usize) -> (r: i16)
    requires
        i + 2 <= p@.len(),
    ensures
        r as int == dec_i16(u16_val(p@.subrange(i as int, i as int + 2))),
{
    let u = read_u16_at(p, i);
    if u >= 0x8000 {
        ((u as i32) - 0x10000) as i16
    } else {
        u as i16
    }
}

/// The body of a frame before stuffing: the payload with its checksum.
pub open spec fn body_bytes(payload: Seq<u8>) -> Seq<u8> {
    payload + u16_bytes(crc16_of(payload) as int)
}

/// The complete wire frame carrying `payload`: the stuffed body followed by
/// the delimiter.
pub open spec fn frame_bytes(payload: Seq<u8>) -> Seq<u8> {
    cobs_encode_spec(body_bytes(payload)) + seq![0u8]
}

/// What decoding a received frame yields: the payload, or the error
/// the frame deserves. One trailing delimiter, if present, is ignored;
/// unstuffing must succeed (`BadData`), the body must hold a checksum and at
/// least one payload byte (`EndOfFrame`), and the checksum computed over the
/// payload must equal the received one (`BadChecksum`).
pub open spec fn spec_decode_frame(s: Seq<u8>) -> Result<Seq<u8>, CommunicationError> {
    let stripped = if s.len() > 0 && s.last() == 0u8 {
        s.drop_last()
    } else {
        s
    };
    match cobs_decode_spec(stripped) {
        None => Err(CommunicationError::BadData),
        Some(body) => {
            if body.len() < 3 {
                Err(CommunicationError::EndOfFrame)
            } else {
                let data = body.take(body.len() - 2);
                let received = u16_val(body.skip(body.len() - 2));
                let computed = crc16_of(data);
                if computed as int == received {
                    Ok(data)
                } else {
                    Err(CommunicationError::BadChecksum(computed, received as u16))
                }
            }
        },
    }
}

/// Build the wire frame that carries `payload`.
pub fn encode_frame(payload: &Vec<u8>) -> (r: Vec<u8>)
    ensures
        r@ == frame_bytes(payload@),
{
    let crc = crc16(payload);
    let mut body: Vec<u8> = Vec::new();
    push_range(&mut body, payload, 0, payload.len());
    proof {
        assert(payload@.subrange(0, payload@.len() as int) =~= payload@);
    }
    push_u16(&mut body, crc);
    let mut out = cobs_encode(&body);
    out.push(0u8);
    proof {
        assert(out@ =~= cobs_encode_spec(body_bytes(payload@)) + seq![0u8]);
    }
    out
}

/// Recover a frame's payload, or say why the frame is rejected, exactly as
/// `spec_decode_frame` describes.
pub fn decode_frame(s: &Vec<u8>) -> (r: Result<Vec<u8>, CommunicationError>)
    ensures
        ({
            let d = spec_decode_frame(s@);
            match r {
                Ok(p) => d == Ok::<Seq<u8>, CommunicationError>(p@),
                Err(e) => d == Err::<Seq<u8>, CommunicationError>(e),
            }
        }),
{
    let n = s.len();
    let end = if n > 0 && s[n - 1] == 0u8 {
        n - 1
    } else {
        n
    };
    let mut stripped: Vec<u8> = Vec::new();
    push_range(&mut stripped, s, 0, end);
    proof {
        if n > 0 && s@.last() == 0u8 {
            assert(stripped@ =~= s@.drop_last());
        } else {
            assert(stripped@ =~= s@);
        }
    }
    let body = match cobs_decode(&stripped) {
        None => {
            return Err(CommunicationError::BadData);
        },
        Some(b) => b,
    };
    if body.len() < 3 {
        return Err(CommunicationError::EndOfFrame);
    }
    let dlen = body.len() - 2;
    let mut data: Vec<u8> = Vec::new();
    push_range(&mut data, &body, 0, dlen);
    proof {
        assert(data@ =~= body@.take(body@.len() - 2));
        assert(body@.subrange(dlen as int, dlen as int + 2) =~= body@.skip(body@.len() - 2));
    }
    let received = read_u16_at(&body, dlen);
    let computed = crc16(&data);
    if computed == received {
        Ok(data)
    } else {
        Err(CommunicationError::BadChecksum(computed, received))
    }
}

/// Decoding a built frame recovers its payload: the checksum written by the
/// encoder is the one the decoder recomputes, and the stuffing is inverted
/// exactly.
pub proof fn lemma_frame_round_trip(payload: Seq<u8>)
    requires
        payload.len() >= 1,
    ensures
        spec_decode_frame(frame_bytes(payload)) == Ok::<Seq<u8>, CommunicationError>(payload),
{
    let body = body_bytes(payload);
    let e = cobs_encode_spec(body);
    let wire = frame_bytes(payload);
    crate::cobs::lemma_cobs_encode_zero_free(body);
    crate::cobs::lemma_cobs_round_trip(body);
    lemma_u16_round_trip(crc16_of(payload) as int);
    assert(wire.last() == 0u8);
    assert(wire.drop_last() =~= e);
    assert(body.len() == payload.len() + 2);
    assert(body.take(body.len() - 2) =~= payload);
    assert(body.skip(body.len() - 2) =~= u16_bytes(crc16_of(payload) as int));
}

/// The eight payload bytes of a velocity vector: the four axes in
/// little-endian two's complement.
pub open spec fn vel_bytes(v: VelocityData) -> Seq<u8> {
    u16_bytes(enc_i16(v.forwards_left as int)) + u16_bytes(enc_i16(v.forwards_right as int))
        + u16_bytes(enc_i16(v.strafing as int)) + u16_bytes(enc_i16(v.vertical as int))
}

/// The velocity vector eight payload bytes stand for.
pub open spec fn vel_of(s: Seq<u8>) -> VelocityData
    recommends
        s.len() == 8,
{
    VelocityData {
        forwards_left: dec_i16(u16_val(s.subrange(0, 2))) as i16,
        forwards_right: dec_i16(u16_val(s.subrange(2, 4))) as i16,
        strafing: dec_i16(u16_val(s.subrange(4, 6))) as i16,
        vertical: dec_i16(u16_val(s.subrange(6, 8))) as i16,
    }
}

/// The tagged payload of a console-to-controller message.
pub open spec fn downstream_payload(m: DownstreamMessage) -> Seq<u8> {
    match m {
        DownstreamMessage::VelocityUpdate(v) => seq![0u8] + vel_bytes(v),
        DownstreamMessage::EmergencyStop => seq![1u8],
        DownstreamMessage::Ping => seq![2u8],
    }
}

/// The message a downstream payload stands for, or `None` where the tag is
/// unknown or the fields do not fit it.
pub open spec fn parse_downstream(s: Seq<u8>) -> Option<DownstreamMessage> {
    if s.len() == 0 {
        None
    } else if s[0] == 0u8 {
        if s.len() == 9 {
            Some(DownstreamMessage::VelocityUpdate(vel_of(s.skip(1))))
        } else {
            None
        }
    } else if s[0] == 1u8 {
        if s.len() == 1 {
            Some(DownstreamMessage::EmergencyStop)
        } else {
            None
        }
    } else if s[0] == 2u8 {
        if s.len() == 1 {
            Some(DownstreamMessage::Ping)
        } else {
            None
        }
    } else {
        None
    }
}

/// The tagged payload of a rejection reason.
pub open spec fn error_bytes(e: CommunicationError) -> Seq<u8> {
    match e {
        CommunicationError::BadData => seq![0u8],
        CommunicationError::BadChecksum(c, r) => seq![1u8] + u16_bytes(c as int) + u16_bytes(
            r as int,
        ),
        CommunicationError::EndOfFrame => seq![2u8],
        CommunicationError::BufferFull => seq![3u8],
        CommunicationError::InternalError => seq![4u8],
    }
}

/// The rejection reason an error payload stands for.
pub open spec fn parse_error(s: Seq<u8>) -> Option<CommunicationError> {
    if s.len() == 0 {
        None
    } else if s[0] == 0u8 {
        if s.len() == 1 {
            Some(CommunicationError::BadData)
        } else {
            None
        }
    } else if s[0] == 1u8 {
        if s.len() == 5 {
            Some(
                CommunicationError::BadChecksum(
                    u16_val(s.subrange(1, 3)) as u16,
                    u16_val(s.subrange(3, 5)) as u16,
                ),
            )
        } else {
            None
        }
    } else if s[0] == 2u8 {
        if s.len() == 1 {
            Some(CommunicationError::EndOfFrame)
        } else {
            None
        }
    } else if s[0] == 3u8 {
        if s.len() == 1 {
            Some(CommunicationError::BufferFull)
        } else {
            None
        }
    } else if s[0] == 4u8 {
        if s.len() == 1 {
            Some(CommunicationError::InternalError)
        } else {
            None
        }
    } else {
        None
    }
}

/// A message the wire format can carry: diagnostic text must fit the 16-bit
/// length field of its payload.
pub open spec fn upstream_valid(m: UpstreamMessageView) -> bool {
    match m {
        UpstreamMessageView::Log(t) => t.len() <= 0xFFFF,
        _ => true,
    }
}

/// The tagged payload of a controller-to-console message.
pub open spec fn upstream_payload(m: UpstreamMessageView) -> Seq<u8>
    recommends
        upstream_valid(m),
{
    match m {
        UpstreamMessageView::Init => seq![0u8],
        UpstreamMessageView::Log(t) => seq![1u8] + u16_bytes(t.len() as int) + t,
        UpstreamMessageView::Ack => seq![2u8],
        UpstreamMessageView::Error(e) => seq![3u8] + error_bytes(e),
        UpstreamMessageView::TotalVelocity(v) => seq![4u8] + vel_bytes(v),
        UpstreamMessageView::EmergencyStopState(b) => seq![
            5u8,
            if b {
                1u8
            } else {
                0u8
            },
        ],
        UpstreamMessageView::Pong => seq![6u8],
    }
}

/// The message an upstream payload stands for, or `None` where the tag is
/// unknown or the fields do not fit it.
pub open spec fn parse_upstream(s: Seq<u8>) -> Option<UpstreamMessageView> {
    if s.len() == 0 {
        None
    } else if s[0] == 0u8 {
        if s.len() == 1 {
            Some(UpstreamMessageView::Init)
        } else {
            None
        }
    } else if s[0] == 1u8 {
        if s.len() >= 3 && s.len() == 3 + u16_val(s.subrange(1, 3)) {
            Some(UpstreamMessageView::Log(s.skip(3)))
        } else {
            None
        }
    } else if s[0] == 2u8 {
        if s.len() == 1 {
            Some(UpstreamMessageView::Ack)
        } else {
            None
        }
    } else if s[0] == 3u8 {
        match parse_error(s.skip(1)) {
            Some(e) => Some(UpstreamMessageView::Error(e)),
            None => None,
        }
    } else if s[0] == 4u8 {
        if s.len() == 9 {
            Some(UpstreamMessageView::TotalVelocity(vel_of(s.skip(1))))
        } else {
            None
        }
    } else if s[0] == 5u8 {
        if s.len() == 2 && (s[1] == 0u8 || s[1] == 1u8) {
            Some(UpstreamMessageView::EmergencyStopState(s[1] == 1u8))
        } else {
            None
        }
    } else if s[0] == 6u8 {
        if s.len() == 1 {
            Some(UpstreamMessageView::Pong)
        } else {
            None
        }
    } else {
        None
    }
}

/// The complete wire frame of a console-to-controller message.
pub open spec fn spec_encode_downstream(m: DownstreamMessage) -> Seq<u8> {
    frame_bytes(downstream_payload(m))
}

/// The complete wire frame of a controller-to-console message.
pub open spec fn spec_encode_upstream(m: UpstreamMessageView) -> Seq<u8>
    recommends
        upstream_valid(m),
{
    frame_bytes(upstream_payload(m))
}

/// What decoding received bytes as a console-to-controller message yields:
/// frame rejection reasons pass through, and a frame whose payload fits no
/// message is `BadData`.
pub open spec fn spec_decode_downstream(s: Seq<u8>) -> Result<
    DownstreamMessage,
    CommunicationError,
> {
    match spec_decode_frame(s) {
        Err(e) => Err(e),
        Ok(p) => match parse_downstream(p) {
            Some(m) => Ok(m),
            None => Err(CommunicationError::BadData),
        },
    }
}

/// What decoding received bytes as a controller-to-console message yields.
pub open spec fn spec_decode_upstream(s: Seq<u8>) -> Result<
    UpstreamMessageView,
    CommunicationError,
> {
    match spec_decode_frame(s) {
        Err(e) => Err(e),
        Ok(p) => match parse_upstream(p) {
            Some(m) => Ok(m),
            None => Err(CommunicationError::BadData),
        },
    }
}

/// Append the eight payload bytes of a velocity vector to `out`.
fn push_vel(out: &mut Vec<u8>, v: &VelocityData)
    ensures
        final(out)@ == old(out)@ + vel_bytes(*v),
{
    push_i16(out, v.forwards_left);
    push_i16(out, v.forwards_right);
    push_i16(out, v.strafing);
    push_i16(out, v.vertical);
    proof {
        assert(final(out)@ =~= old(out)@ + vel_bytes(*v));
    }
}

/// Read the velocity vector stored at `p[i..i + 8]`.
fn read_vel(p: &Vec<u8>, i: usize) -> (r: VelocityData)
    requires
        i + 8 <= p@.len(),
    ensures
        r == vel_of(p@.subrange(i as int, i as int + 8)),
{
    let n = p.len();
    assert(i + 8 <= n);
    let r = VelocityData {
        forwards_left: read_i16_at(p, i),
        forwards_right: read_i16_at(p, i + 2),
        strafing: read_i16_at(p, i + 4),
        vertical: read_i16_at(p, i + 6),
    };
    proof {
        let s = p@.subrange(i as int, i as int + 8);
        assert(s.subrange(0, 2) =~= p@.subrange(i as int, i as int + 2));
        assert(s.subrange(2, 4) =~= p@.subrange(i as int + 2, i as int + 4));
        assert(s.subrange(4, 6) =~= p@.subrange(i as int + 4, i as int + 6));
        assert(s.subrange(6, 8) =~= p@.subrange(i as int + 6, i as int + 8));
    }
    r
}

/// Serialize a console-to-controller message into one complete wire frame.
pub fn encode_downstream(m: &DownstreamMessage) -> (r: Vec<u8>)
    ensures
        r@ == spec_encode_downstream(*m),
{
    let mut payload: Vec<u8> = Vec::new();
    match m {
        DownstreamMessage::VelocityUpdate(v) => {
            payload.push(0u8);
            push_vel(&mut payload, v);
        },
        DownstreamMessage::EmergencyStop => {
            payload.push(1u8);
        },
        DownstreamMessage::Ping => {
            payload.push(2u8);
        },
    }
    proof {
        assert(payload@ =~= downstream_payload(*m));
    }
    encode_frame(&payload)
}

/// Serialize a controller-to-console message into one complete wire frame.
pub fn encode_upstream(m: &UpstreamMessage) -> (r: Vec<u8>)
    requires
        upstream_valid(m@),
    ensures
        r@ == spec_encode_upstream(m@),
{
    let mut payload: Vec<u8> = Vec::new();
    match m {
        UpstreamMessage::Init => {
            payload.push(0u8);
        },
        UpstreamMessage::Log(t) => {
            payload.push(1u8);
            push_u16(&mut payload, t.len() as u16);
            push_range(&mut payload, t, 0, t.len());
            proof {
                assert(t@.subrange(0, t@.len() as int) =~= t@);
            }
        },
        UpstreamMessage::Ack => {
            payload.push(2u8);
        },
        UpstreamMessage::Error(e) => {
            payload.push(3u8);
            match e {
                CommunicationError::BadData => {
                    payload.push(0u8);
                },
                CommunicationError::BadChecksum(c, r) => {
                    payload.push(1u8);
                    push_u16(&mut payload, *c);
                    push_u16(&mut payload, *r);
                },
                CommunicationError::EndOfFrame => {
                    payload.push(2u8);
                },
                CommunicationError::BufferFull => {
                    payload.push(3u8);
                },
                CommunicationError::InternalError => {
                    payload.push(4u8);
                },
            }
        },
        UpstreamMessage::TotalVelocity(v) => {
            payload.push(4u8);
            push_vel(&mut payload, v);
        },
        UpstreamMessage::EmergencyStopState(b) => {
            payload.push(5u8);
            if *b {
                payload.push(1u8);
            } else {
                payload.push(0u8);
            }
        },
        UpstreamMessage::Pong => {
            payload.push(6u8);
        },
    }
    proof {
        assert(payload@ =~= upstream_payload(m@));
    }
    encode_frame(&payload)
}

/// Decode one received frame as a console-to-controller message, exactly as
/// `spec_decode_downstream` describes.
pub fn decode_downstream(s: &Vec<u8>) -> (r: Result<DownstreamMessage, CommunicationError>)
    ensures
        r == spec_decode_downstream(s@),
{
    let p = match decode_frame(s) {
        Err(e) => {
            return Err(e);
        },
        Ok(p) => p,
    };
    let tag = p[0];
    if tag == 0 {
        if p.len() == 9 {
            let v = read_vel(&p, 1);
            proof {
                assert(p@.subrange(1, 9) =~= p@.skip(1));
            }
            Ok(DownstreamMessage::VelocityUpdate(v))
        } else {
            Err(CommunicationError::BadData)
        }
    } else if tag == 1 {
        if p.len() == 1 {
            Ok(DownstreamMessage::EmergencyStop)
        } else {
            Err(CommunicationError::BadData)
        }
    } else if tag == 2 {
        if p.len() == 1 {
            Ok(DownstreamMessage::Ping)
        } else {
            Err(CommunicationError::BadData)
        }
    } else {
        Err(CommunicationError::BadData)
    }
}

/// Decode one received frame as a controller-to-console message, exactly as
/// `spec_decode_upstream` describes.
pub fn decode_upstream(s: &Vec<u8>) -> (r: Result<UpstreamMessage, CommunicationError>)
    ensures
        ({
            let d = spec_decode_upstream(s@);
            match r {
                Ok(m) => d == Ok::<UpstreamMessageView, CommunicationError>(m@),
                Err(e) => d == Err::<UpstreamMessageView, CommunicationError>(e),
            }
        }),
{
    let p = match decode_frame(s) {
        Err(e) => {
            return Err(e);
        },
        Ok(p) => p,
    };
    let tag = p[0];
    if tag == 0 {
        if p.len() == 1 {
            Ok(UpstreamMessage::Init)
        } else {
            Err(CommunicationError::BadData)
        }
    } else if tag == 1 {
        if p.len() >= 3 {
            let llen = read_u16_at(&p, 1);
            if p.len() == 3 + llen as usize {
                let mut t: Vec<u8> = Vec::new();
                push_range(&mut t, &p, 3, p.len());
                proof {
                    assert(p@.subrange(3, p@.len() as int) =~= p@.skip(3));
                }
                Ok(UpstreamMessage::Log(t))
            } else {
                Err(CommunicationError::BadData)
            }
        } else {
            Err(CommunicationError::BadData)
        }
    } else if tag == 2 {
        if p.len() == 1 {
            Ok(UpstreamMessage::Ack)
        } else {
            Err(CommunicationError::BadData)
        }
    } else if tag == 3 {
        proof {
            assert(p@.skip(1).len() == p@.len() - 1);
        }
        if p.len() == 2 || p.len() == 6 {
            let etag = p[1];
            let ghost es = p@.skip(1);
            proof {
                assert(es[0] == p@[1]);
            }
            if etag == 0 && p.len() == 2 {
                Ok(UpstreamMessage::Error(CommunicationError::BadData))
            } else if etag == 1 && p.len() == 6 {
                let c = read_u16_at(&p, 2);
                let rc = read_u16_at(&p, 4);
                proof {
                    assert(es.subrange(1, 3) =~= p@.subrange(2, 4));
                    assert(es.subrange(3, 5) =~= p@.subrange(4, 6));
                }
                Ok(UpstreamMessage::Error(CommunicationError::BadChecksum(c, rc)))
            } else if etag == 2 && p.len() == 2 {
                Ok(UpstreamMessage::Error(CommunicationError::EndOfFrame))
            } else if etag == 3 && p.len() == 2 {
                Ok(UpstreamMessage::Error(CommunicationError::BufferFull))
            } else if etag == 4 && p.len() == 2 {
                Ok(UpstreamMessage::Error(CommunicationError::InternalError))
            } else {
                Err(CommunicationError::BadData)
            }
        } else {
            Err(CommunicationError::BadData)
        }
    } else if tag == 4 {
        if p.len() == 9 {
            let v = read_vel(&p, 1);
            proof {
                assert(p@.subrange(1, 9) =~= p@.skip(1));
            }
            Ok(UpstreamMessage::TotalVelocity(v))
        } else {
            Err(CommunicationError::BadData)
        }
    } else if tag == 5 {
        if p.len() == 2 && (p[1] == 0 || p[1] == 1) {
            Ok(UpstreamMessage::EmergencyStopState(p[1] == 1))
        } else {
            Err(CommunicationError::BadData)
        }
    } else if tag == 6 {
        if p.len() == 1 {
            Ok(UpstreamMessage::Pong)
        } else {
            Err(CommunicationError::BadData)
        }
    } else {
        Err(CommunicationError::BadData)
    }
}

/// Parsing a built downstream payload gives back the message it was built
/// from, and the payload is never empty.
proof fn lemma_parse_downstream(m: DownstreamMessage)
    ensures
        downstream_payload(m).len() >= 1,
        parse_downstream(downstream_payload(m)) == Some(m),
{
    let p = downstream_payload(m);
    match m {
        DownstreamMessage::VelocityUpdate(v) => {
            lemma_u16_round_trip(enc_i16(v.forwards_left as int));
            lemma_u16_round_trip(enc_i16(v.forwards_right as int));
            lemma_u16_round_trip(enc_i16(v.strafing as int));
            lemma_u16_round_trip(enc_i16(v.vertical as int));
            assert(p.len() == 9);
            let s = p.skip(1);
            assert(s.subrange(0, 2) =~= u16_bytes(enc_i16(v.forwards_left as int)));
            assert(s.subrange(2, 4) =~= u16_bytes(enc_i16(v.forwards_right as int)));
            assert(s.subrange(4, 6) =~= u16_bytes(enc_i16(v.strafing as int)));
            assert(s.subrange(6, 8) =~= u16_bytes(enc_i16(v.vertical as int)));
            assert(vel_of(s) == v);
        },
        DownstreamMessage::EmergencyStop => {
        },
        DownstreamMessage::Ping => {
        },
    }
}

/// Parsing a built upstream payload gives back the message it was built
/// from, and the payload is never empty.
proof fn lemma_parse_upstream(m: UpstreamMessageView)
    requires
        upstream_valid(m),
    ensures
        upstream_payload(m).len() >= 1,
        parse_upstream(upstream_payload(m)) == Some(m),
{
    let p = upstream_payload(m);
    match m {
        UpstreamMessageView::Init => {
        },
        UpstreamMessageView::Log(t) => {
            lemma_u16_round_trip(t.len() as int);
            assert(p.len() == 3 + t.len());
            assert(p[0] == 1u8);
            assert(p.subrange(1, 3) =~= u16_bytes(t.len() as int));
            assert(p.skip(3) =~= t);
        },
        UpstreamMessageView::Ack => {
        },
        UpstreamMessageView::Error(e) => {
            let es = p.skip(1);
            assert(es =~= error_bytes(e));
            match e {
                CommunicationError::BadChecksum(c, r) => {
                    lemma_u16_round_trip(c as int);
                    lemma_u16_round_trip(r as int);
                    assert(es.subrange(1, 3) =~= u16_bytes(c as int));
                    assert(es.subrange(3, 5) =~= u16_bytes(r as int));
                    assert(parse_error(es) == Some(e));
                },
                _ => {
                    assert(parse_error(es) == Some(e));
                },
            }
        },
        UpstreamMessageView::TotalVelocity(v) => {
            lemma_u16_round_trip(enc_i16(v.forwards_left as int));
            lemma_u16_round_trip(enc_i16(v.forwards_right as int));
            lemma_u16_round_trip(enc_i16(v.strafing as int));
            lemma_u16_round_trip(enc_i16(v.vertical as int));
            assert(p.len() == 9);
            let s = p.skip(1);
            assert(s.subrange(0, 2) =~= u16_bytes(enc_i16(v.forwards_left as int)));
            assert(s.subrange(2, 4) =~= u16_bytes(enc_i16(v.forwards_right as int)));
            assert(s.subrange(4, 6) =~= u16_bytes(enc_i16(v.strafing as int)));
            assert(s.subrange(6, 8) =~= u16_bytes(enc_i16(v.vertical as int)));
            assert(vel_of(s) == v);
        },
        UpstreamMessageView::EmergencyStopState(b) => {
        },
        UpstreamMessageView::Pong => {
        },
    }
}

/// Round trip, console to controller: every velocity or safety command comes
/// back out of the codec exactly as it went in.
pub proof fn lemma_round_trip_downstream(m: DownstreamMessage)
    ensures
        spec_decode_downstream(spec_encode_downstream(m)) == Ok::<
            DownstreamMessage,
            CommunicationError,
        >(m),
{
    lemma_parse_downstream(m);
    lemma_frame_round_trip(downstream_payload(m));
}

/// Round trip, controller to console: every status or telemetry message that
/// fits the wire format comes back out of the codec exactly as it went in.
pub proof fn lemma_round_trip_upstream(m: UpstreamMessageView)
    requires
        upstream_valid(m),
    ensures
        spec_decode_upstream(spec_encode_upstream(m)) == Ok::<
            UpstreamMessageView,
            CommunicationError,
        >(m),
{
    lemma_parse_upstream(m);
    lemma_frame_round_trip(upstream_payload(m));
}

} // verus!
