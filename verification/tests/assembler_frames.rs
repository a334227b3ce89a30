use rovctl::assembler::Assembler;
use rovctl::assembler::ASSEMBLER_CAPACITY;
use rovctl::codec::encode_downstream;
use rovctl::controller::DownstreamMessage;
use rovctl::controller::VelocityData;
use rovctl::CommunicationError;

#[test]
fn one_outcome_per_frame_in_order() {
    let messages = vec![
        DownstreamMessage::VelocityUpdate(VelocityData {
            forwards_left: 100,
            forwards_right: 200,
            strafing: 300,
            vertical: 400,
        }),
        DownstreamMessage::Ping,
        DownstreamMessage::EmergencyStop,
    ];

    let mut stream: Vec<u8> = Vec::new();
    for m in &messages {
        stream.extend(encode_downstream(m));
    }

    let mut assembler = Assembler::new();
    let mut outcomes = Vec::new();
    for byte in stream {
        if let Some(outcome) = assembler.push_byte(byte) {
            outcomes.push(outcome);
        }
    }

    assert_eq!(outcomes.len(), messages.len());
    for (outcome, message) in outcomes.into_iter().zip(messages) {
        assert_eq!(outcome, Ok(message));
    }
}

#[test]
fn bad_frame_yields_one_error() {
    let mut assembler = Assembler::new();
    assert_eq!(assembler.push_byte(5), None);
    assert_eq!(assembler.push_byte(5), None);
    assert_eq!(
        assembler.push_byte(0),
        Some(Err(CommunicationError::BadData))
    );
}

#[test]
fn overrun_discards_and_reports_buffer_full() {
    let mut assembler = Assembler::new();
    for _ in 0..ASSEMBLER_CAPACITY {
        assert_eq!(assembler.push_byte(7), None);
    }
    assert_eq!(
        assembler.push_byte(7),
        Some(Err(CommunicationError::BufferFull))
    );

    // The assembler recovers: the next complete frame decodes normally.
    let frame = encode_downstream(&DownstreamMessage::Ping);
    let mut outcome = None;
    for byte in frame {
        outcome = assembler.push_byte(byte);
    }
    assert_eq!(outcome, Some(Ok(DownstreamMessage::Ping)));
}
