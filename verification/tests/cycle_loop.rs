use rovctl::assembler::Assembler;
use rovctl::codec::encode_downstream;
use rovctl::controller::DownstreamMessage;
use rovctl::controller::UpstreamMessage;
use rovctl::controller::VelocityData;
use rovctl::cycle::run_cycle;
use rovctl::cycle::speed_of_axis;
use rovctl::cycle::CycleInput;
use rovctl::queue::Queue;
use rovctl::sabertooth::motor_left;
use rovctl::sabertooth::motor_right;
use rovctl::sabertooth::motor_strafing;
use rovctl::sabertooth::motor_vertical;
use rovctl::sabertooth::write_speed;
use rovctl::state::State;
use rovctl::CommunicationError;

fn velocity(fl: i16, fr: i16, st: i16, vt: i16) -> VelocityData {
    VelocityData { forwards_left: fl, forwards_right: fr, strafing: st, vertical: vt }
}

fn quiet_input() -> CycleInput {
    CycleInput { joystick_enabled: false, joystick: velocity(0, 0, 0, 0), estop_button: false }
}

fn enqueue_frames(queue: &mut Queue, messages: &[DownstreamMessage]) {
    for m in messages {
        for byte in encode_downstream(m) {
            assert!(queue.enqueue(byte));
        }
    }
}

fn expected_motor_frames(v: VelocityData) -> Vec<Vec<u8>> {
    vec![
        write_speed(16, motor_left(), speed_of_axis(v.forwards_left)).unwrap(),
        write_speed(16, motor_right(), speed_of_axis(v.forwards_right)).unwrap(),
        write_speed(16, motor_strafing(), speed_of_axis(v.strafing)).unwrap(),
        write_speed(16, motor_vertical(), speed_of_axis(v.vertical)).unwrap(),
    ]
}

#[test]
fn axis_speeds_scale_and_truncate_towards_zero() {
    assert_eq!(speed_of_axis(1000), 127);
    assert_eq!(speed_of_axis(-1000), -127);
    assert_eq!(speed_of_axis(999), 126);
    assert_eq!(speed_of_axis(500), 63);
    assert_eq!(speed_of_axis(-500), -63);
    assert_eq!(speed_of_axis(7), 0);
    assert_eq!(speed_of_axis(-8), -1);
    assert_eq!(speed_of_axis(0), 0);
}

#[test]
fn a_cycle_answers_each_frame_and_reports_telemetry() {
    let mut state = State::default();
    let mut assembler = Assembler::new();
    let mut queue = Queue::new();

    let commanded = velocity(500, -500, 250, -250);
    enqueue_frames(
        &mut queue,
        &[DownstreamMessage::VelocityUpdate(commanded), DownstreamMessage::Ping],
    );

    let out = run_cycle(&mut state, &mut assembler, &mut queue, quiet_input());

    assert_eq!(
        out.upstream,
        vec![
            UpstreamMessage::Ack,
            UpstreamMessage::Ack,
            UpstreamMessage::EmergencyStopState(false),
            UpstreamMessage::Pong,
            UpstreamMessage::TotalVelocity(commanded),
        ]
    );
    assert_eq!(out.motor_frames, expected_motor_frames(commanded));
    assert!(!out.assert_stop_lines);
    assert_eq!(queue.dequeue(), None);
    // The ping was answered exactly once.
    assert!(!state.do_ping());
}

#[test]
fn a_corrupt_frame_is_answered_with_its_error() {
    let mut state = State::default();
    let mut assembler = Assembler::new();
    let mut queue = Queue::new();

    for byte in [5u8, 5u8, 0u8] {
        assert!(queue.enqueue(byte));
    }

    let out = run_cycle(&mut state, &mut assembler, &mut queue, quiet_input());

    assert_eq!(
        out.upstream,
        vec![
            UpstreamMessage::Error(CommunicationError::BadData),
            UpstreamMessage::EmergencyStopState(false),
            // The rejected frame never touches the state.
            UpstreamMessage::TotalVelocity(velocity(0, 0, 0, 0)),
        ]
    );
}

#[test]
fn the_stop_lines_follow_the_latch() {
    let mut state = State::default();
    let mut assembler = Assembler::new();
    let mut queue = Queue::new();

    enqueue_frames(
        &mut queue,
        &[DownstreamMessage::VelocityUpdate(velocity(900, 900, 900, 900))],
    );

    let mut input = quiet_input();
    input.estop_button = true;
    let out = run_cycle(&mut state, &mut assembler, &mut queue, input);

    assert!(out.assert_stop_lines);
    assert_eq!(
        out.upstream,
        vec![
            UpstreamMessage::Ack,
            UpstreamMessage::EmergencyStopState(true),
            UpstreamMessage::TotalVelocity(velocity(0, 0, 0, 0)),
        ]
    );
    assert_eq!(out.motor_frames, expected_motor_frames(velocity(0, 0, 0, 0)));

    // The latch outlives the button: the next cycle still stops everything.
    let out2 = run_cycle(&mut state, &mut assembler, &mut queue, quiet_input());
    assert!(out2.assert_stop_lines);
    assert_eq!(
        out2.upstream,
        vec![
            UpstreamMessage::EmergencyStopState(true),
            UpstreamMessage::TotalVelocity(velocity(0, 0, 0, 0)),
        ]
    );
}

#[test]
fn the_joystick_feeds_zero_while_disabled() {
    let mut state = State::default();
    let mut assembler = Assembler::new();
    let mut queue = Queue::new();

    let mut input = quiet_input();
    input.joystick = velocity(700, 700, 0, 0);
    let out = run_cycle(&mut state, &mut assembler, &mut queue, input);
    assert_eq!(
        out.upstream.last(),
        Some(&UpstreamMessage::TotalVelocity(velocity(0, 0, 0, 0)))
    );

    let mut input2 = quiet_input();
    input2.joystick_enabled = true;
    input2.joystick = velocity(700, 700, 0, 0);
    let out2 = run_cycle(&mut state, &mut assembler, &mut queue, input2);
    assert_eq!(
        out2.upstream.last(),
        Some(&UpstreamMessage::TotalVelocity(velocity(700, 700, 0, 0)))
    );
}

#[test]
fn a_frame_split_across_cycles_is_finished_by_the_next() {
    let mut state = State::default();
    let mut assembler = Assembler::new();
    let mut queue = Queue::new();

    let frame = encode_downstream(&DownstreamMessage::Ping);
    let (head, tail) = frame.split_at(2);

    for &byte in head {
        assert!(queue.enqueue(byte));
    }
    let out = run_cycle(&mut state, &mut assembler, &mut queue, quiet_input());
    // No frame completed yet: no Ack, no Pong.
    assert_eq!(
        out.upstream,
        vec![
            UpstreamMessage::EmergencyStopState(false),
            UpstreamMessage::TotalVelocity(velocity(0, 0, 0, 0)),
        ]
    );

    for &byte in tail {
        assert!(queue.enqueue(byte));
    }
    let out2 = run_cycle(&mut state, &mut assembler, &mut queue, quiet_input());
    assert_eq!(
        out2.upstream,
        vec![
            UpstreamMessage::Ack,
            UpstreamMessage::EmergencyStopState(false),
            UpstreamMessage::Pong,
            UpstreamMessage::TotalVelocity(velocity(0, 0, 0, 0)),
        ]
    );
}
