//! The typed messages exchanged with the operator console, and the velocity
//! vector they carry.
//!
//! Velocities are fixed-point: an axis value of [`VELOCITY_SCALE`] stands for
//! full speed ahead, `-VELOCITY_SCALE` for full speed astern. After clamping,
//! every axis lies in `[-VELOCITY_SCALE, VELOCITY_SCALE]`.

use vstd::prelude::*;
use crate::CommunicationError;

verus! {

/// The fixed-point representation of 1.0: one full-scale axis command.
pub const VELOCITY_SCALE: i16 = 1000;

/// Four independent axis commands, in fixed-point thousandths of full scale.
#[derive(Debug, Clone, Copy, PartialEq, Eq, Structural)]
pub struct VelocityData {
    pub forwards_left: i16,
    pub forwards_right: i16,
    pub strafing: i16,
    pub vertical: i16,
}

/// One axis value saturated into `[-VELOCITY_SCALE, VELOCITY_SCALE]`.
pub open spec fn clamp_axis(v: int) -> int {
    if v < -(VELOCITY_SCALE as int) {
        -(VELOCITY_SCALE as int)
    } else if v > VELOCITY_SCALE as int {
        VELOCITY_SCALE as int
    } else {
        v
    }
}

/// Saturate one axis into `[-VELOCITY_SCALE, VELOCITY_SCALE]`.
fn clamp_i16(v: i16) -> (r: i16)
    ensures
        r as int == clamp_axis(v as int),
{
    if v < -VELOCITY_SCALE {
        -VELOCITY_SCALE
    } else if v > VELOCITY_SCALE {
        VELOCITY_SCALE
    } else {
        v
    }
}

impl VelocityData {
    /// The all-zero vector: a safe stop.
    pub open spec fn zero_spec() -> VelocityData {
        VelocityData { forwards_left: 0, forwards_right: 0, strafing: 0, vertical: 0 }
    }

    /// What `clamp` returns: every axis saturated individually.
    pub open spec fn clamped(self) -> VelocityData {
        VelocityData {
            forwards_left: clamp_axis(self.forwards_left as int) as i16,
            forwards_right: clamp_axis(self.forwards_right as int) as i16,
            strafing: clamp_axis(self.strafing as int) as i16,
            vertical: clamp_axis(self.vertical as int) as i16,
        }
    }

    /// Every axis lies in `[-VELOCITY_SCALE, VELOCITY_SCALE]`.
    pub open spec fn in_range(self) -> bool {
        &&& -(VELOCITY_SCALE as int) <= self.forwards_left as int <= VELOCITY_SCALE as int
        &&& -(VELOCITY_SCALE as int) <= self.forwards_right as int <= VELOCITY_SCALE as int
        &&& -(VELOCITY_SCALE as int) <= self.strafing as int <= VELOCITY_SCALE as int
        &&& -(VELOCITY_SCALE as int) <= self.vertical as int <= VELOCITY_SCALE as int
    }

    /// Saturate every axis into `[-VELOCITY_SCALE, VELOCITY_SCALE]`.
    pub fn clamp(&self) -> (r: VelocityData)
        ensures
            r == self.clamped(),
            r.in_range(),
    {
        VelocityData {
            forwards_left: clamp_i16(self.forwards_left),
            forwards_right: clamp_i16(self.forwards_right),
            strafing: clamp_i16(self.strafing),
            vertical: clamp_i16(self.vertical),
        }
    }

    /// The all-zero vector: a safe stop.
    pub fn zero() -> (r: VelocityData)
        ensures
            r == VelocityData::zero_spec(),
    {
        VelocityData { forwards_left: 0, forwards_right: 0, strafing: 0, vertical: 0 }
    }
}

impl Default for VelocityData {
    /// The default velocity is the all-zero vector.
    fn default() -> (r: VelocityData)
        ensures
            r == VelocityData::zero_spec(),
    {
        VelocityData::zero()
    }
}

/// Clamping saturates each axis and changes nothing already in range;
/// in particular it is idempotent: clamping a clamped vector is the identity.
pub proof fn lemma_clamp_idempotent(v: VelocityData)
    ensures
        v.clamped().clamped() == v.clamped(),
        v.in_range() ==> v.clamped() == v,
{
}

/// Mix the four raw joystick axes into a clamped velocity vector: the left
/// stick steers the two forward thrusters differentially, the right stick
/// commands strafing and vertical motion.
pub fn joystick_math(lx: i16, ly: i16, rx: i16, ry: i16) -> (r: VelocityData)
    ensures
        r.forwards_left as int == clamp_axis(lx as int - ly as int),
        r.forwards_right as int == clamp_axis(lx as int + ly as int),
        r.strafing as int == clamp_axis(rx as int),
        r.vertical as int == clamp_axis(ry as int),
        r.in_range(),
{
    let forwards_left = lx as i32 - ly as i32;
    let forwards_right = lx as i32 + ly as i32;

    VelocityData {
        forwards_left: clamp_i32(forwards_left),
        forwards_right: clamp_i32(forwards_right),
        strafing: clamp_i16(rx),
        vertical: clamp_i16(ry),
    }
}

/// Saturate a wide intermediate sum into `[-VELOCITY_SCALE, VELOCITY_SCALE]`.
fn clamp_i32(v: i32) -> (r: i16)
    ensures
        r as int == clamp_axis(v as int),
{
    if v < -(VELOCITY_SCALE as i32) {
        -VELOCITY_SCALE
    } else if v > VELOCITY_SCALE as i32 {
        VELOCITY_SCALE
    } else {
        v as i16
    }
}

/// A command from the operator console to the controller.
#[derive(Debug, Clone, Copy, PartialEq, Eq, Structural)]
pub enum DownstreamMessage {
    /// Replace the console's velocity setpoint.
    VelocityUpdate(VelocityData),
    /// Set the emergency-stop latch; it never clears at runtime.
    EmergencyStop,
    /// A latency probe, answered with `Pong`.
    Ping,
}

/// A status or telemetry message from the controller to the console.
#[derive(Debug, Clone, PartialEq, Eq)]
pub enum UpstreamMessage {
    /// Sent once at boot.
    Init,
    /// Free-form diagnostic text, as bytes.
    Log(Vec<u8>),
    /// A frame was received and parsed successfully.
    Ack,
    /// A frame was rejected, and why.
    Error(CommunicationError),
    /// Telemetry of the commanded output velocity.
    TotalVelocity(VelocityData),
    /// Telemetry of the emergency-stop latch.
    EmergencyStopState(bool),
    /// Reply to a `Ping`.
    Pong,
}

/// The mathematical model of an [`UpstreamMessage`]: the same variants, with
/// diagnostic text abstracted to a byte sequence.
pub enum UpstreamMessageView {
    Init,
    Log(Seq<u8>),
    Ack,
    Error(CommunicationError),
    TotalVelocity(VelocityData),
    EmergencyStopState(bool),
    Pong,
}

impl View for UpstreamMessage {
    type V = UpstreamMessageView;

    open spec fn view(&self) -> UpstreamMessageView {
        match self {
            UpstreamMessage::Init => UpstreamMessageView::Init,
            UpstreamMessage::Log(t) => UpstreamMessageView::Log(t@),
            UpstreamMessage::Ack => UpstreamMessageView::Ack,
            UpstreamMessage::Error(e) => UpstreamMessageView::Error(*e),
            UpstreamMessage::TotalVelocity(v) => UpstreamMessageView::TotalVelocity(*v),
            UpstreamMessage::EmergencyStopState(b) => UpstreamMessageView::EmergencyStopState(*b),
            UpstreamMessage::Pong => UpstreamMessageView::Pong,
        }
    }
}

} // verus!
