//! The motor command encoder: the fixed four-byte packets — address,
//! command, magnitude, checksum — that drive the two Sabertooth motor
//! controllers, plus the one-byte auto-bauding greeting.
//!
//! The checksum is the 7-bit truncated sum of the first three bytes: purely
//! additive, there to catch transmission bit errors on the half-duplex link.

use vstd::prelude::*;
use vstd::arithmetic::div_mod::lemma_fundamental_div_mod;
use vstd::arithmetic::div_mod::lemma_mod_multiples_vanish;
use crate::CommunicationError;

verus! {

/// Address of the first Sabertooth motor controller.
pub const SABERTOOTH_A: u8 = 128;

/// Address of the second Sabertooth motor controller.
pub const SABERTOOTH_B: u8 = 129;

/// A static motor descriptor: controller address, base command offset, and
/// a polarity sign correcting for physical wiring.
#[derive(Debug, Clone, Copy)]
pub struct Motor(u8, u8, i8);

impl Motor {
    /// The controller address this motor answers to.
    pub closed spec fn address(self) -> u8 {
        self.0
    }

    /// The "forward" command offset; "reverse" is one above it.
    pub closed spec fn command(self) -> u8 {
        self.1
    }

    /// The polarity sign, `1` or `-1`.
    pub closed spec fn sign(self) -> i8 {
        self.2
    }

    /// A well-wired motor: the sign is a polarity and the reverse command
    /// offset still fits a byte.
    pub open spec fn wf(self) -> bool {
        &&& (self.sign() == 1i8 || self.sign() == -1i8)
        &&& self.command() < 255
    }
}

/// The value `motor_left` returns.
pub closed spec fn spec_motor_left() -> Motor {
    Motor(SABERTOOTH_A, 4, -1i8)
}

/// The value `motor_right` returns.
pub closed spec fn spec_motor_right() -> Motor {
    Motor(SABERTOOTH_A, 0, 1i8)
}

/// The value `motor_vertical` returns.
pub closed spec fn spec_motor_vertical() -> Motor {
    Motor(SABERTOOTH_B, 0, -1i8)
}

/// The value `motor_strafing` returns.
pub closed spec fn spec_motor_strafing() -> Motor {
    Motor(SABERTOOTH_B, 4, 1i8)
}

/// The port-side forward thruster, wired with reversed polarity.
pub fn motor_left() -> (m: Motor)
    ensures
        m == spec_motor_left(),
        m.wf(),
        m.address() == SABERTOOTH_A,
        m.command() == 4u8,
        m.sign() == -1i8,
{
    Motor(SABERTOOTH_A, 4, -1)
}

/// The starboard-side forward thruster.
pub fn motor_right() -> (m: Motor)
    ensures
        m == spec_motor_right(),
        m.wf(),
        m.address() == SABERTOOTH_A,
        m.command() == 0u8,
        m.sign() == 1i8,
{
    Motor(SABERTOOTH_A, 0, 1)
}

/// The vertical thruster, wired with reversed polarity.
pub fn motor_vertical() -> (m: Motor)
    ensures
        m == spec_motor_vertical(),
        m.wf(),
        m.address() == SABERTOOTH_B,
        m.command() == 0u8,
        m.sign() == -1i8,
{
    Motor(SABERTOOTH_B, 0, -1)
}

/// The strafing thruster.
pub fn motor_strafing() -> (m: Motor)
    ensures
        m == spec_motor_strafing(),
        m.wf(),
        m.address() == SABERTOOTH_B,
        m.command() == 4u8,
        m.sign() == 1i8,
{
    Motor(SABERTOOTH_B, 4, 1)
}

/// The sum of a byte sequence, as an unbounded integer.
pub open spec fn byte_sum(s: Seq<u8>) -> int
    decreases s.len(),
{
    if s.len() == 0 {
        0
    } else {
        byte_sum(s.drop_last()) + s.last()
    }
}

/// The packet `write_speed` emits: address, forward or reverse command by
/// the sign-corrected speed, magnitude, and the 7-bit additive checksum.
pub open spec fn spec_speed_packet(m: Motor, speed: i8) -> Seq<u8> {
    let eff: int = if m.sign() == 1i8 {
        speed as int
    } else {
        -(speed as int)
    };
    let cmd: int = if eff >= 0 {
        m.command() as int
    } else {
        m.command() as int + 1
    };
    let mag: int = if eff >= 0 {
        eff
    } else {
        -eff
    };
    seq![
        m.address(),
        cmd as u8,
        mag as u8,
        ((m.address() as int + cmd + mag) % 128) as u8,
    ]
}

/// The packet `write_min_voltage` emits: one scale step per 200 millivolts
/// above the six-volt floor, saturated to a byte.
pub open spec fn spec_min_voltage_packet(address: u8, millivolts: u32) -> Seq<u8>
    recommends
        millivolts >= 6000,
{
    let raw = (millivolts - 6000) / 200;
    let value: int = if raw > 255 {
        255
    } else {
        raw as int
    };
    seq![address, 2u8, value as u8, ((address as int + 2 + value) % 128) as u8]
}

/// The packet `write_max_voltage` emits: 5.12 scale steps per volt,
/// saturated to a byte.
pub open spec fn spec_max_voltage_packet(address: u8, millivolts: u32) -> Seq<u8> {
    let raw = (millivolts as int) * 512 / 100000;
    let value: int = if raw > 255 {
        255
    } else {
        raw
    };
    seq![address, 3u8, value as u8, ((address as int + 3 + value) % 128) as u8]
}

/// Simple buffer system to communicate with the sabertooth: a bounded byte
/// sink that keeps a running sum for the checksum byte.
struct Buffer {
    buffer: Vec<u8>,
    capacity: usize,
    sum: u8,
}

impl Buffer {
    spec fn wf(self) -> bool {
        &&& self.buffer@.len() <= self.capacity as int
        &&& self.sum as int == byte_sum(self.buffer@) % 256
    }

    spec fn bytes(self) -> Seq<u8> {
        self.buffer@
    }

    spec fn cap(self) -> int {
        self.capacity as int
    }

    fn new(capacity: usize) -> (b: Buffer)
        ensures
            b.wf(),
            b.bytes() == Seq::<u8>::empty(),
            b.cap() == capacity as int,
    {
        Buffer { buffer: Vec::new(), capacity, sum: 0 }
    }

    fn write_byte(&mut self, byte: u8) -> (r: Result<(), CommunicationError>)
        requires
            old(self).wf(),
        ensures
            final(self).wf(),
            final(self).cap() == old(self).cap(),
            old(self).bytes().len() < old(self).cap() ==> r is Ok && final(self).bytes() == old(
                self,
            ).bytes().push(byte),
            old(self).bytes().len() >= old(self).cap() ==> r == Err::<(), CommunicationError>(
                CommunicationError::BufferFull,
            ) && final(self).bytes() == old(self).bytes(),
    {
        if self.buffer.len() >= self.capacity {
            return Err(CommunicationError::BufferFull);
        }
        self.buffer.push(byte);
        self.sum = self.sum.wrapping_add(byte);
        proof {
            let s = old(self).bytes();
            assert(s.push(byte).drop_last() =~= s);
            lemma_mod_multiples_vanish(
                -(byte_sum(s) / 256),
                byte_sum(s) % 256 + byte as int,
                256,
            );
        }
        Ok(())
    }

    #[verifier::rlimit(30)]
    fn write_checksum(self) -> (r: Result<Vec<u8>, CommunicationError>)
        requires
            self.wf(),
        ensures
            self.bytes().len() < self.cap() ==> (match r {
                Ok(v) => v@ == self.bytes().push((byte_sum(self.bytes()) % 128) as u8),
                Err(_) => false,
            }),
            self.bytes().len() >= self.cap() ==> r == Err::<Vec<u8>, CommunicationError>(
                CommunicationError::BufferFull,
            ),
    {
        let mut this = self;
        let running = this.sum;
        let checksum = running & 0b01111111;
        proof {
            let total = byte_sum(self.bytes());
            assert(checksum == running % 128) by (bit_vector)
                requires
                    checksum == running & 0b01111111u8,
            ;
            lemma_fundamental_div_mod(total, 256);
            lemma_mod_multiples_vanish(-2 * (total / 256), total, 128);
            assert(total % 256 == total - 256 * (total / 256));
            assert((total % 256) % 128 == total % 128);
        }
        match this.write_byte(checksum) {
            Ok(()) => Ok(this.into_buffer()),
            Err(e) => Err(e),
        }
    }

    fn into_buffer(self) -> (r: Vec<u8>)
        ensures
            r@ == self.bytes(),
    {
        self.buffer
    }
}

/// Writes the auto bauding char: the one-byte greeting sent once at startup
/// so the controllers lock onto the link's baud rate.
pub fn write_init(capacity: usize) -> (r: Result<Vec<u8>, CommunicationError>)
    ensures
        ({
            match r {
                Ok(v) => capacity >= 1 && v@ == seq![0xAAu8],
                Err(e) => capacity == 0 && e == CommunicationError::BufferFull,
            }
        }),
{
    let mut buffer = Buffer::new(capacity);
    match buffer.write_byte(0xAA) {
        Ok(()) => Ok(buffer.into_buffer()),
        Err(e) => Err(e),
    }
}

/// Updates the speed of a motor: emits the four-byte packet
/// `spec_speed_packet` describes. Encoding never fails for a buffer of at
/// least four bytes.
pub fn write_speed(capacity: usize, motor: Motor, speed: i8) -> (r: Result<
    Vec<u8>,
    CommunicationError,
>)
    requires
        motor.wf(),
        speed != i8::MIN,
    ensures
        capacity >= 4 ==> (match r {
            Ok(v) => v@ == spec_speed_packet(motor, speed),
            Err(_) => false,
        }),
        capacity < 4 ==> r is Err,
{
    let mut buffer = Buffer::new(capacity);
    if let Err(e) = buffer.write_byte(motor.0) {
        return Err(e);
    }
    let eff: i8 = if motor.2 == 1 {
        speed
    } else {
        -speed
    };
    if eff >= 0 {
        if let Err(e) = buffer.write_byte(motor.1) {
            return Err(e);
        }
        if let Err(e) = buffer.write_byte(eff as u8) {
            return Err(e);
        }
    } else {
        if let Err(e) = buffer.write_byte(motor.1 + 1) {
            return Err(e);
        }
        if let Err(e) = buffer.write_byte((-eff) as u8) {
            return Err(e);
        }
    }
    let ghost written = buffer.bytes();
    let r = buffer.write_checksum();
    proof {
        if capacity >= 4 {
            let p = spec_speed_packet(motor, speed);
            lemma_three_byte_sum(p);
            assert(written =~= p.take(3));
            assert(p.take(3).push(p[3]) =~= p);
        }
    }
    r
}

/// Unfold the sum of a packet's first three bytes.
proof fn lemma_three_byte_sum(p: Seq<u8>)
    requires
        p.len() == 4,
    ensures
        byte_sum(p.take(3)) == p[0] + p[1] + p[2],
{
    assert(p.take(3).drop_last() =~= p.take(2));
    assert(p.take(2).drop_last() =~= p.take(1));
    assert(p.take(1).drop_last() =~= Seq::<u8>::empty());
    assert(byte_sum(Seq::<u8>::empty()) == 0);
    assert(byte_sum(p.take(1)) == p[0]);
    assert(byte_sum(p.take(2)) == p[0] + p[1]);
    assert(byte_sum(p.take(3)) == p[0] + p[1] + p[2]);
}

/// Sets the voltage at which the sabertooth will power off: the four-byte
/// packet `spec_min_voltage_packet` describes. The six-volt floor is the
/// hardware's own minimum.
pub fn write_min_voltage(capacity: usize, address: u8, millivolts: u32) -> (r: Result<
    Vec<u8>,
    CommunicationError,
>)
    requires
        millivolts >= 6000,
    ensures
        capacity >= 4 ==> (match r {
            Ok(v) => v@ == spec_min_voltage_packet(address, millivolts),
            Err(_) => false,
        }),
        capacity < 4 ==> r is Err,
{
    let raw = (millivolts - 6000) / 200;
    let value: u8 = if raw > 255 {
        255
    } else {
        raw as u8
    };
    write_config(capacity, address, 2, value, Ghost(spec_min_voltage_packet(address, millivolts)))
}

/// Sets the max voltage the sabertooth will produce during regen braking:
/// the four-byte packet `spec_max_voltage_packet` describes.
pub fn write_max_voltage(capacity: usize, address: u8, millivolts: u32) -> (r: Result<
    Vec<u8>,
    CommunicationError,
>)
    ensures
        capacity >= 4 ==> (match r {
            Ok(v) => v@ == spec_max_voltage_packet(address, millivolts),
            Err(_) => false,
        }),
        capacity < 4 ==> r is Err,
{
    let raw = (millivolts as u64) * 512 / 100000;
    let value: u8 = if raw > 255 {
        255
    } else {
        raw as u8
    };
    write_config(capacity, address, 3, value, Ghost(spec_max_voltage_packet(address, millivolts)))
}

/// Emit one four-byte configuration packet: address, command, value, and
/// the 7-bit additive checksum.
fn write_config(capacity: usize, address: u8, command: u8, value: u8, packet: Ghost<Seq<u8>>) -> (r:
    Result<Vec<u8>, CommunicationError>)
    requires
        packet@ == seq![
            address,
            command,
            value,
            ((address as int + command as int + value as int) % 128) as u8,
        ],
    ensures
        capacity >= 4 ==> (match r {
            Ok(v) => v@ == packet@,
            Err(_) => false,
        }),
        capacity < 4 ==> r is Err,
{
    let mut buffer = Buffer::new(capacity);
    if let Err(e) = buffer.write_byte(address) {
        return Err(e);
    }
    if let Err(e) = buffer.write_byte(command) {
        return Err(e);
    }
    if let Err(e) = buffer.write_byte(value) {
        return Err(e);
    }
    let ghost written = buffer.bytes();
    let r = buffer.write_checksum();
    proof {
        if capacity >= 4 {
            let p = packet@;
            lemma_three_byte_sum(p);
            assert(written =~= p.take(3));
            assert(p.take(3).push(p[3]) =~= p);
        }
    }
    r
}

} // verus!
