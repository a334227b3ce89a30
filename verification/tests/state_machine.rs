use rovctl::controller::joystick_math;
use rovctl::controller::DownstreamMessage;
use rovctl::controller::VelocityData;
use rovctl::state::State;

fn velocity(fl: i16, fr: i16, st: i16, vt: i16) -> VelocityData {
    VelocityData { forwards_left: fl, forwards_right: fr, strafing: st, vertical: vt }
}

#[test]
fn clamp_saturates_and_is_idempotent() {
    let v = velocity(2000, -2000, 500, -500);
    let clamped = v.clamp();
    assert_eq!(clamped, velocity(1000, -1000, 500, -500));
    assert_eq!(clamped.clamp(), clamped);

    let in_range = velocity(-1000, 0, 999, 1);
    assert_eq!(in_range.clamp(), in_range);
}

#[test]
fn default_velocity_is_zero() {
    assert_eq!(VelocityData::default(), velocity(0, 0, 0, 0));
    assert_eq!(VelocityData::zero(), velocity(0, 0, 0, 0));
}

#[test]
fn sum_then_clamp() {
    let mut state = State::default();
    state.update_pc(DownstreamMessage::VelocityUpdate(velocity(1000, 1000, 1000, 1000)));
    state.update_joystick(velocity(1000, 1000, 1000, 1000));
    assert_eq!(state.compute_velocity(), velocity(1000, 1000, 1000, 1000));
}

#[test]
fn each_source_is_clamped_before_the_sum() {
    let mut state = State::default();
    // An out-of-range console command cannot be disguised by cancellation.
    state.update_pc(DownstreamMessage::VelocityUpdate(velocity(5000, 0, 0, 0)));
    state.update_joystick(velocity(-1000, 500, 200, -200));
    assert_eq!(state.compute_velocity(), velocity(0, 500, 200, -200));
}

#[test]
fn emergency_stop_dominates() {
    let mut state = State::default();
    state.update_pc(DownstreamMessage::VelocityUpdate(velocity(800, -800, 400, -400)));
    state.update_joystick(velocity(100, 100, 100, 100));
    state.update_emergency_stop(true);
    assert!(state.emergency_stop());
    assert_eq!(state.compute_velocity(), velocity(0, 0, 0, 0));
}

#[test]
fn emergency_stop_latches_from_the_message() {
    let mut state = State::default();
    state.update_pc(DownstreamMessage::EmergencyStop);
    assert!(state.emergency_stop());
}

#[test]
fn emergency_stop_never_clears() {
    let mut state = State::default();
    state.update_emergency_stop(true);
    for _ in 0..10 {
        state.update_emergency_stop(false);
        state.update_pc(DownstreamMessage::VelocityUpdate(velocity(1, 2, 3, 4)));
        state.update_joystick(velocity(5, 6, 7, 8));
        state.clear_ping();
        assert!(state.emergency_stop());
    }
    assert_eq!(state.compute_velocity(), velocity(0, 0, 0, 0));
}

#[test]
fn button_release_does_not_latch() {
    let mut state = State::default();
    state.update_emergency_stop(false);
    assert!(!state.emergency_stop());
}

#[test]
fn ping_is_consumed_once() {
    let mut state = State::default();
    assert!(!state.do_ping());
    state.update_pc(DownstreamMessage::Ping);
    assert!(state.do_ping());
    state.clear_ping();
    assert!(!state.do_ping());
}

#[test]
fn joystick_math_mixes_and_clamps() {
    let v = joystick_math(1000, 1000, 300, -300);
    assert_eq!(v, velocity(0, 1000, 300, -300));

    let w = joystick_math(-1000, 1000, 2000, 0);
    assert_eq!(w, velocity(-1000, 0, 1000, 0));
}
