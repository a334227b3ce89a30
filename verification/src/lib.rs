//! Communication and control core of a remotely operated vehicle's onboard
//! controller: wire framing with a CRC-16 integrity check and COBS-style byte
//! stuffing, a bounded byte queue bridging the receive interrupt and the main
//! loop, a frame assembler, the robot state machine with its emergency-stop
//! latch, and the encoder for the Sabertooth motor controllers.

use vstd::prelude::*;

pub mod assembler;
pub mod buffer;
pub mod cobs;
pub mod codec;
pub mod controller;
pub mod crc16;
pub mod cycle;
pub mod queue;
pub mod sabertooth;
pub mod state;

verus! {

/// Serial speed of the console link.
pub const BAUD_RATE_CTRL: u32 = 1000000;
/// Serial speed of the auxiliary sensor pass-through link.
pub const BAUD_RATE_FORWARD: u32 = 1000000;
/// Serial speed of the motor controller link.
pub const BAUD_RATE_SABERTOOTH: u32 = 38400;
/// Serial speed of the secondary microcontroller link.
pub const BAUD_RATE_NANO: u32 = 57600;

/// Why a received frame was rejected. Every variant is recoverable: it ends
/// processing of the current frame only and is reported upstream.
#[derive(Debug, Clone, PartialEq, Eq, Structural)]
pub enum CommunicationError {
    /// The payload was malformed: an unknown tag, or fields that do not fit it.
    BadData,
    /// The CRC computed over the payload differs from the received one
    /// (computed, received).
    BadChecksum(u16, u16),
    /// The frame was too short to contain a checksum and a payload.
    EndOfFrame,
    /// A buffer's fixed capacity was exceeded before a terminator was seen.
    BufferFull,
    /// An encoder or decoder fault unrelated to wire content.
    InternalError,
}

/// True exactly on the frame delimiter byte: the COBS stuffing guarantees it
/// occurs nowhere inside an encoded frame.
pub fn end_of_frame(byte: &u8) -> (r: bool)
    ensures
        r == (*byte == 0u8),
{
    *byte == 0x00
}

} // verus!
