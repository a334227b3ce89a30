//! The robot state machine: velocity setpoints from the console and the
//! local joystick, the emergency-stop latch, and the pending-ping flag.
//!
//! The emergency-stop latch is monotonic: both the physical button and the
//! remote command OR into it, nothing clears it at runtime, and while it is
//! set the commanded velocity is the zero vector.

use vstd::prelude::*;
use crate::controller::DownstreamMessage;
use crate::controller::VelocityData;
use crate::controller::clamp_axis;

verus! {

/// A struct that keeps track of the robot's current state.
pub struct State {
    motor_sp_pc: VelocityData,
    motor_sp_joystick: VelocityData,
    emergency_stop: bool,
    do_ping: bool,
}

/// The mathematical model of a [`State`].
pub struct StateView {
    pub console_velocity: VelocityData,
    pub joystick_velocity: VelocityData,
    pub emergency_stop: bool,
    pub ping_pending: bool,
}

impl View for State {
    type V = StateView;

    closed spec fn view(&self) -> StateView {
        StateView {
            console_velocity: self.motor_sp_pc,
            joystick_velocity: self.motor_sp_joystick,
            emergency_stop: self.emergency_stop,
            ping_pending: self.do_ping,
        }
    }
}

impl StateView {
    /// The boot state: zero setpoints, latch clear, no ping pending.
    pub open spec fn initial() -> StateView {
        StateView {
            console_velocity: VelocityData::zero_spec(),
            joystick_velocity: VelocityData::zero_spec(),
            emergency_stop: false,
            ping_pending: false,
        }
    }

    /// The velocity the motors are commanded with: the zero vector while the
    /// emergency stop is latched, otherwise each source clamped on its own,
    /// summed, and the sum clamped again.
    pub open spec fn commanded_velocity(self) -> VelocityData {
        if self.emergency_stop {
            VelocityData::zero_spec()
        } else {
            let c = self.console_velocity.clamped();
            let j = self.joystick_velocity.clamped();
            VelocityData {
                forwards_left: clamp_axis(c.forwards_left + j.forwards_left) as i16,
                forwards_right: clamp_axis(c.forwards_right + j.forwards_right) as i16,
                strafing: clamp_axis(c.strafing + j.strafing) as i16,
                vertical: clamp_axis(c.vertical + j.vertical) as i16,
            }
        }
    }
}

/// One mutation of the robot state, as the main cycle performs them.
pub enum StateOp {
    /// `update_pc` with this message.
    UpdatePc(DownstreamMessage),
    /// `update_joystick` with this velocity.
    UpdateJoystick(VelocityData),
    /// `update_emergency_stop` with this button reading.
    UpdateEmergencyStop(bool),
    /// `clear_ping`.
    ClearPing,
}

/// What one state operation does to the model.
pub open spec fn apply_op(s: StateView, op: StateOp) -> StateView {
    match op {
        StateOp::UpdatePc(m) => match m {
            DownstreamMessage::VelocityUpdate(v) => StateView { console_velocity: v, ..s },
            DownstreamMessage::EmergencyStop => StateView { emergency_stop: true, ..s },
            DownstreamMessage::Ping => StateView { ping_pending: true, ..s },
        },
        StateOp::UpdateJoystick(v) => StateView { joystick_velocity: v, ..s },
        StateOp::UpdateEmergencyStop(b) => StateView { emergency_stop: s.emergency_stop || b, ..s },
        StateOp::ClearPing => StateView { ping_pending: false, ..s },
    }
}

/// What a sequence of state operations does to the model, first to last.
pub open spec fn apply_ops(s: StateView, ops: Seq<StateOp>) -> StateView
    decreases ops.len(),
{
    if ops.len() == 0 {
        s
    } else {
        apply_ops(apply_op(s, ops[0]), ops.drop_first())
    }
}

/// Latch monotonicity: once the emergency stop is set, no sequence of state
/// operations — button released, velocity updates, anything — clears it.
pub proof fn lemma_emergency_stop_latch(s: StateView, ops: Seq<StateOp>)
    requires
        s.emergency_stop,
    ensures
        apply_ops(s, ops).emergency_stop,
    decreases ops.len(),
{
    if ops.len() > 0 {
        assert(apply_op(s, ops[0]).emergency_stop);
        lemma_emergency_stop_latch(apply_op(s, ops[0]), ops.drop_first());
    }
}

impl State {
    /// Update the state with info from the connected pc.
    pub fn update_pc(&mut self, message: DownstreamMessage)
        ensures
            final(self)@ == apply_op(old(self)@, StateOp::UpdatePc(message)),
    {
        match message {
            DownstreamMessage::VelocityUpdate(velocity) => {
                self.motor_sp_pc = velocity;
            },
            DownstreamMessage::EmergencyStop => {
                self.emergency_stop = true;
            },
            DownstreamMessage::Ping => {
                self.do_ping = true;
            },
        }
    }

    /// Update the velocity with info from the physical joysticks.
    pub fn update_joystick(&mut self, velocity: VelocityData)
        ensures
            final(self)@ == apply_op(old(self)@, StateOp::UpdateJoystick(velocity)),
    {
        self.motor_sp_joystick = velocity;
    }

    /// Update the emergency stop state with info from the physical button:
    /// it ORs into the latch and can never clear it.
    pub fn update_emergency_stop(&mut self, emergency_stop: bool)
        ensures
            final(self)@ == apply_op(old(self)@, StateOp::UpdateEmergencyStop(emergency_stop)),
    {
        self.emergency_stop = self.emergency_stop || emergency_stop;
    }

    /// Is an emergency stop active.
    pub fn emergency_stop(&self) -> (r: bool)
        ensures
            r == self@.emergency_stop,
    {
        self.emergency_stop
    }

    /// Do we need to respond to a ping.
    pub fn do_ping(&self) -> (r: bool)
        ensures
            r == self@.ping_pending,
    {
        self.do_ping
    }

    /// Clear ping status.
    pub fn clear_ping(&mut self)
        ensures
            final(self)@ == apply_op(old(self)@, StateOp::ClearPing),
    {
        self.do_ping = false;
    }

    /// Compute the motor speed setpoints. While the emergency stop is
    /// latched this is the zero vector, whatever the setpoints say.
    pub fn compute_velocity(&self) -> (r: VelocityData)
        ensures
            r == self@.commanded_velocity(),
            r.in_range(),
            self@.emergency_stop ==> r == VelocityData::zero_spec(),
    {
        if self.emergency_stop {
            return VelocityData::zero();
        }
        let motor_sp_pc = self.motor_sp_pc.clamp();
        let motor_sp_joystick = self.motor_sp_joystick.clamp();

        let sum = VelocityData {
            forwards_left: motor_sp_pc.forwards_left + motor_sp_joystick.forwards_left,
            forwards_right: motor_sp_pc.forwards_right + motor_sp_joystick.forwards_right,
            strafing: motor_sp_pc.strafing + motor_sp_joystick.strafing,
            vertical: motor_sp_pc.vertical + motor_sp_joystick.vertical,
        };
        sum.clamp()
    }
}

impl Default for State {
    /// The boot state: all setpoints zero, latch clear, no ping pending.
    fn default() -> (r: State)
        ensures
            r@ == StateView::initial(),
    {
        State {
            motor_sp_pc: VelocityData::zero(),
            motor_sp_joystick: VelocityData::zero(),
            emergency_stop: false,
            do_ping: false,
        }
    }
}

} // verus!
