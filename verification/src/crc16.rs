//! The 16-bit integrity check appended to every frame.
//!
//! The checksum itself is computed by the `crc` crate with the
//! CRC-16/CDMA2000 algorithm; this module gives its result a name that the
//! codec's contracts speak of. Both the sender and the receiver compute the
//! checksum through the same function, so equality of the names is all the
//! round-trip argument needs.

use vstd::prelude::*;

verus! {

/// The CRC-16/CDMA2000 checksum of a byte sequence. The algorithm is fixed,
/// so the result is a function of the bytes alone.
pub uninterp spec fn crc16_of(data: Seq<u8>) -> u16;

/// Relies on `crc::Crc::<u16>::checksum` with the CRC-16/CDMA2000 algorithm:
/// a deterministic function of the input bytes alone (polynomial 0xC867,
/// initial value 0xFFFF, no reflection, no final xor).
#[verifier::external_body]
pub(crate) fn crc16(data: &Vec<u8>) -> (r: u16)
    ensures
        r == crc16_of(data@),
{
    crc::Crc::<u16>::new(&crc::CRC_16_CDMA2000).checksum(data.as_slice())
}

} // verus!
