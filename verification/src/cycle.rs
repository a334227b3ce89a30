//! One iteration of the main control loop: drain the inbound frames and
//! answer each with exactly one `Ack` or `Error`, sample the joystick and
//! the physical emergency-stop button, report the latch and answer pings,
//! then command the motors and report the commanded velocity.
//!
//! Everything here is a pure decision from state and sampled inputs to new
//! state and outputs; reading the hardware and writing the serial links is
//! the caller's business, so no step can block.

use vstd::prelude::*;
use vstd::pervasive::unreached;
use crate::CommunicationError;
use crate::assembler::Assembler;
use crate::assembler::spec_run;
use crate::controller::DownstreamMessage;
use crate::controller::UpstreamMessage;
use crate::controller::UpstreamMessageView;
use crate::controller::VelocityData;
use crate::codec::upstream_valid;
use crate::queue::Queue;
use crate::sabertooth::Motor;
use crate::sabertooth::motor_left;
use crate::sabertooth::motor_right;
use crate::sabertooth::motor_strafing;
use crate::sabertooth::motor_vertical;
use crate::sabertooth::spec_motor_left;
use crate::sabertooth::spec_motor_right;
use crate::sabertooth::spec_motor_strafing;
use crate::sabertooth::spec_motor_vertical;
use crate::sabertooth::spec_speed_packet;
use crate::sabertooth::write_speed;
use crate::state::State;
use crate::state::StateOp;
use crate::state::StateView;
use crate::state::apply_op;

verus! {

/// The inputs one cycle samples from the hardware.
#[derive(Debug, Clone, Copy)]
pub struct CycleInput {
    /// The active-low joystick-enable pin, already read: sample the
    /// joystick only when true.
    pub joystick_enabled: bool,
    /// The joystick axes, already mixed into a velocity vector.
    pub joystick: VelocityData,
    /// The physical emergency-stop button, already read: true latches.
    pub estop_button: bool,
}

/// Everything one cycle asks the caller to do.
pub struct CycleOutput {
    /// Status and telemetry messages for the console link, in order.
    pub upstream: Vec<UpstreamMessage>,
    /// The four motor command packets for the motor controller link.
    pub motor_frames: Vec<Vec<u8>>,
    /// Drive the controllers' active-low hardware stop lines low.
    pub assert_stop_lines: bool,
}

/// The signed seven-bit speed a clamped axis value maps to: scaled by
/// 127/1000 and truncated towards zero.
pub open spec fn axis_speed(v: int) -> int
    recommends
        -1000 <= v <= 1000,
{
    if v >= 0 {
        v * 127 / 1000
    } else {
        -((-v) * 127 / 1000)
    }
}

/// Map one clamped axis to the seven-bit speed the motor controllers take.
pub fn speed_of_axis(v: i16) -> (r: i8)
    requires
        -1000 <= v as int <= 1000,
    ensures
        r as int == axis_speed(v as int),
        -127 <= r as int <= 127,
{
    if v >= 0 {
        proof {
            assert((v as int) * 127 / 1000 <= 127 && (v as int) * 127 / 1000 >= 0)
                by (nonlinear_arith)
                requires
                    0 <= v as int,
                    v as int <= 1000,
            ;
        }
        (((v as i32) * 127) / 1000) as i8
    } else {
        proof {
            assert((-(v as int)) * 127 / 1000 <= 127 && (-(v as int)) * 127 / 1000 >= 0)
                by (nonlinear_arith)
                requires
                    -1000 <= v as int,
                    (v as int) < 0,
            ;
        }
        (-(((-(v as i32)) * 127) / 1000)) as i8
    }
}

/// The state after dispatching a sequence of frame outcomes: every decoded
/// message is applied, every rejection leaves the state untouched.
pub open spec fn apply_outcomes(
    s: StateView,
    outcomes: Seq<Result<DownstreamMessage, CommunicationError>>,
) -> StateView
    decreases outcomes.len(),
{
    if outcomes.len() == 0 {
        s
    } else {
        let next = match outcomes[0] {
            Ok(m) => apply_op(s, StateOp::UpdatePc(m)),
            Err(_) => s,
        };
        apply_outcomes(next, outcomes.drop_first())
    }
}

/// Dispatching one more outcome is one more step.
proof fn lemma_apply_outcomes_push(
    s: StateView,
    outcomes: Seq<Result<DownstreamMessage, CommunicationError>>,
    outcome: Result<DownstreamMessage, CommunicationError>,
)
    ensures
        apply_outcomes(s, outcomes.push(outcome)) == (match outcome {
            Ok(m) => apply_op(apply_outcomes(s, outcomes), StateOp::UpdatePc(m)),
            Err(_) => apply_outcomes(s, outcomes),
        }),
    decreases outcomes.len(),
{
    let next0 = match outcome {
        Ok(m) => apply_op(s, StateOp::UpdatePc(m)),
        Err(_) => s,
    };
    if outcomes.len() == 0 {
        assert(outcomes.push(outcome)[0] == outcome);
        assert(outcomes.push(outcome).drop_first() =~= Seq::<
            Result<DownstreamMessage, CommunicationError>,
        >::empty());
        assert(apply_outcomes(next0, outcomes.push(outcome).drop_first()) == next0);
    } else {
        assert(outcomes.push(outcome)[0] == outcomes[0]);
        assert(outcomes.push(outcome).drop_first() =~= outcomes.drop_first().push(outcome));
        let next = match outcomes[0] {
            Ok(m) => apply_op(s, StateOp::UpdatePc(m)),
            Err(_) => s,
        };
        lemma_apply_outcomes_push(next, outcomes.drop_first(), outcome);
    }
}

/// The answer one frame outcome deserves: `Ack` for a dispatched message,
/// `Error` with the reason for a rejected frame.
pub open spec fn ack_of(outcome: Result<DownstreamMessage, CommunicationError>) -> UpstreamMessageView {
    match outcome {
        Ok(_) => UpstreamMessageView::Ack,
        Err(e) => UpstreamMessageView::Error(e),
    }
}

/// The one-to-one accounting answers: `Ack` for every dispatched message,
/// `Error` with the reason for every rejected frame, in arrival order.
pub open spec fn acks_of(outcomes: Seq<Result<DownstreamMessage, CommunicationError>>) -> Seq<
    UpstreamMessageView,
>
    decreases outcomes.len(),
{
    if outcomes.len() == 0 {
        Seq::empty()
    } else {
        acks_of(outcomes.drop_last()).push(ack_of(outcomes.last()))
    }
}

/// `acks_of` answers element for element.
pub proof fn lemma_acks_of(outcomes: Seq<Result<DownstreamMessage, CommunicationError>>)
    ensures
        acks_of(outcomes).len() == outcomes.len(),
        forall|i: int| 0 <= i < outcomes.len() ==> acks_of(outcomes)[i] == ack_of(
            #[trigger] outcomes[i],
        ),
    decreases outcomes.len(),
{
    if outcomes.len() > 0 {
        lemma_acks_of(outcomes.drop_last());
        assert forall|i: int| 0 <= i < outcomes.len() implies acks_of(outcomes)[i] == ack_of(
            #[trigger] outcomes[i],
        ) by {
            if i < outcomes.len() - 1 {
                assert(outcomes.drop_last()[i] == outcomes[i]);
            }
        }
    }
}

/// Everything one cycle does, as a function of the starting state, the
/// assembler's buffered bytes, the queued bytes, and the sampled inputs.
pub open spec fn spec_cycle(
    s0: StateView,
    b0: Seq<u8>,
    q0: Seq<u8>,
    input: CycleInput,
) -> CycleView {
    let run = spec_run(b0, q0);
    let dispatched = apply_outcomes(s0, run.1);
    let joystick = if input.joystick_enabled {
        input.joystick
    } else {
        VelocityData::zero_spec()
    };
    let sampled = apply_op(
        apply_op(dispatched, StateOp::UpdateJoystick(joystick)),
        StateOp::UpdateEmergencyStop(input.estop_button),
    );
    let pong = sampled.ping_pending;
    let end_state = if pong {
        apply_op(sampled, StateOp::ClearPing)
    } else {
        sampled
    };
    let v = end_state.commanded_velocity();
    CycleView {
        state: end_state,
        buffered: run.0,
        upstream: acks_of(run.1) + seq![
            UpstreamMessageView::EmergencyStopState(sampled.emergency_stop),
        ] + (if pong {
            seq![UpstreamMessageView::Pong]
        } else {
            Seq::empty()
        }) + seq![UpstreamMessageView::TotalVelocity(v)],
        motor_frames: seq![
            spec_speed_packet(spec_motor_left(), axis_speed(v.forwards_left as int) as i8),
            spec_speed_packet(spec_motor_right(), axis_speed(v.forwards_right as int) as i8),
            spec_speed_packet(spec_motor_strafing(), axis_speed(v.strafing as int) as i8),
            spec_speed_packet(spec_motor_vertical(), axis_speed(v.vertical as int) as i8),
        ],
        assert_stop_lines: sampled.emergency_stop,
    }
}

/// Dispatching inbound messages can set the emergency-stop latch, never
/// clear it.
proof fn lemma_apply_outcomes_keep_latch(
    s: StateView,
    outcomes: Seq<Result<DownstreamMessage, CommunicationError>>,
)
    requires
        s.emergency_stop,
    ensures
        apply_outcomes(s, outcomes).emergency_stop,
    decreases outcomes.len(),
{
    if outcomes.len() > 0 {
        let next = match outcomes[0] {
            Ok(m) => apply_op(s, StateOp::UpdatePc(m)),
            Err(_) => s,
        };
        lemma_apply_outcomes_keep_latch(next, outcomes.drop_first());
    }
}

/// Emergency-stop dominance over a whole cycle: once the latch is set,
/// every later cycle — whatever frames arrive, whatever the joystick or the
/// button says — keeps the latch, asserts the hardware stop lines, and
/// commands and reports the zero velocity.
pub proof fn lemma_cycle_emergency_stop(s0: StateView, b0: Seq<u8>, q0: Seq<u8>, input: CycleInput)
    requires
        s0.emergency_stop,
    ensures
        ({
            let cv = spec_cycle(s0, b0, q0, input);
            &&& cv.state.emergency_stop
            &&& cv.assert_stop_lines
            &&& cv.upstream.last() == UpstreamMessageView::TotalVelocity(VelocityData::zero_spec())
        }),
{
    lemma_apply_outcomes_keep_latch(s0, spec_run(b0, q0).1);
}

/// The model of one cycle's outcome.
pub struct CycleView {
    pub state: StateView,
    pub buffered: Seq<u8>,
    pub upstream: Seq<UpstreamMessageView>,
    pub motor_frames: Seq<Seq<u8>>,
    pub assert_stop_lines: bool,
}

/// Encode one motor's packet; the buffer is always big enough, so this
/// never fails.
fn speed_frame(motor: Motor, speed: i8) -> (r: Vec<u8>)
    requires
        motor.wf(),
        speed != i8::MIN,
    ensures
        r@ == spec_speed_packet(motor, speed),
{
    match write_speed(16, motor, speed) {
        Ok(f) => f,
        Err(_) => unreached(),
    }
}

/// Run one iteration of the main loop, as `spec_cycle` describes: drain the
/// queue through the assembler, dispatch and answer every complete frame,
/// sample the inputs, and produce this cycle's outputs. The queue is left
/// empty; nothing blocks.
pub fn run_cycle(
    state: &mut State,
    assembler: &mut Assembler,
    queue: &mut Queue,
    input: CycleInput,
) -> (out: CycleOutput)
    requires
        old(queue).wf(),
        old(assembler).wf(),
    ensures
        final(queue).wf(),
        final(assembler).wf(),
        final(queue).contents() == Seq::<u8>::empty(),
        ({
            let cv = spec_cycle(
                old(state)@,
                old(assembler).buffered(),
                old(queue).contents(),
                input,
            );
            &&& final(state)@ == cv.state
            &&& final(assembler).buffered() == cv.buffered
            &&& out.upstream@.len() == cv.upstream.len()
            &&& forall|i: int|
                0 <= i < out.upstream@.len() ==> (#[trigger] out.upstream@[i])@ == cv.upstream[i]
            &&& out.motor_frames@.len() == cv.motor_frames.len()
            &&& forall|i: int|
                0 <= i < out.motor_frames@.len() ==> (#[trigger] out.motor_frames@[i])@
                    == cv.motor_frames[i]
            &&& out.assert_stop_lines == cv.assert_stop_lines
        }),
        forall|i: int| 0 <= i < out.upstream@.len() ==> upstream_valid(#[trigger] out.upstream@[i]@),
{
    let ghost s0 = old(state)@;
    let ghost b0 = old(assembler).buffered();
    let ghost q0 = old(queue).contents();
    let ghost total = spec_run(b0, q0);
    let mut upstream: Vec<UpstreamMessage> = Vec::new();
    let ghost mut done: Seq<Result<DownstreamMessage, CommunicationError>> = Seq::empty();

    // Drain inbound frames: one Ack or Error per completed frame.
    loop
        invariant
            queue.wf(),
            assembler.wf(),
            total == spec_run(b0, q0),
            total.0 == spec_run(assembler.buffered(), queue.contents()).0,
            total.1 == done + spec_run(assembler.buffered(), queue.contents()).1,
            state@ == apply_outcomes(s0, done),
            upstream@.len() == done.len(),
            forall|i: int| 0 <= i < done.len() ==> (#[trigger] upstream@[i])@ == ack_of(done[i]),
            forall|i: int| 0 <= i < upstream@.len() ==> upstream_valid(#[trigger] upstream@[i]@),
        ensures
            queue.contents().len() == 0,
            queue.wf(),
            assembler.wf(),
            assembler.buffered() == total.0,
            done == total.1,
            state@ == apply_outcomes(s0, done),
            upstream@.len() == done.len(),
            forall|i: int| 0 <= i < done.len() ==> (#[trigger] upstream@[i])@ == ack_of(done[i]),
            forall|i: int| 0 <= i < upstream@.len() ==> upstream_valid(#[trigger] upstream@[i]@),
        decreases queue.contents().len(),
    {
        let ghost q_before = queue.contents();
        let ghost buf_before = assembler.buffered();
        let byte = match queue.dequeue() {
            None => {
                proof {
                    assert(spec_run(assembler.buffered(), queue.contents()).1 =~= Seq::<
                        Result<DownstreamMessage, CommunicationError>,
                    >::empty());
                    assert(done + spec_run(assembler.buffered(), queue.contents()).1 =~= done);
                }
                break ;
            },
            Some(b) => b,
        };
        proof {
            assert(q_before[0] == byte);
            assert(q_before.drop_first() == queue.contents());
        }
        let outcome = assembler.push_byte(byte);
        proof {
            let step = Assembler::spec_push(buf_before, byte);
            assert(spec_run(buf_before, q_before) == (match step.1 {
                None => spec_run(step.0, q_before.drop_first()),
                Some(o) => (
                    spec_run(step.0, q_before.drop_first()).0,
                    seq![o] + spec_run(step.0, q_before.drop_first()).1,
                ),
            }));
        }
        match outcome {
            None => {
            },
            Some(Ok(message)) => {
                state.update_pc(message);
                upstream.push(UpstreamMessage::Ack);
                proof {
                    lemma_apply_outcomes_push(s0, done, Ok(message));
                    done = done.push(Ok(message));
                    assert(done + spec_run(assembler.buffered(), queue.contents()).1 =~= total.1);
                }
            },
            Some(Err(e)) => {
                upstream.push(UpstreamMessage::Error(e));
                proof {
                    lemma_apply_outcomes_push(s0, done, Err(e));
                    done = done.push(Err(e));
                    assert(done + spec_run(assembler.buffered(), queue.contents()).1 =~= total.1);
                }
            },
        }
    }

    // Sample the joystick, or feed the safe zero vector while it is
    // disabled.
    let joystick = if input.joystick_enabled {
        input.joystick
    } else {
        VelocityData::zero()
    };
    state.update_joystick(joystick);

    // Sample the physical emergency-stop button; it can only latch.
    state.update_emergency_stop(input.estop_button);

    // Report the latch every cycle, change or not, so the console can tell
    // stale telemetry from a live link.
    let estop = state.emergency_stop();
    upstream.push(UpstreamMessage::EmergencyStopState(estop));

    // Answer at most one ping per cycle.
    let pong = state.do_ping();
    if pong {
        upstream.push(UpstreamMessage::Pong);
        state.clear_ping();
    }

    // Command the motors with the computed velocity and report it.
    let v = state.compute_velocity();
    let mut motor_frames: Vec<Vec<u8>> = Vec::new();
    motor_frames.push(speed_frame(motor_left(), speed_of_axis(v.forwards_left)));
    motor_frames.push(speed_frame(motor_right(), speed_of_axis(v.forwards_right)));
    motor_frames.push(speed_frame(motor_strafing(), speed_of_axis(v.strafing)));
    motor_frames.push(speed_frame(motor_vertical(), speed_of_axis(v.vertical)));
    upstream.push(UpstreamMessage::TotalVelocity(v));

    let out = CycleOutput { upstream, motor_frames, assert_stop_lines: estop };
    proof {
        let cv = spec_cycle(s0, b0, q0, input);
        lemma_acks_of(total.1);
        assert(out.upstream@.len() == cv.upstream.len());
        assert forall|i: int| 0 <= i < out.upstream@.len() implies (#[trigger] out.upstream@[i])@
            == cv.upstream[i] by {
            let n = total.1.len() as int;
            if i < n {
                assert(cv.upstream[i] == acks_of(total.1)[i]);
            }
        }
    }
    out
}

} // verus!
