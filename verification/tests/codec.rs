use rovctl::CommunicationError;
use rovctl::cobs::cobs_decode;
use rovctl::cobs::cobs_encode;
use rovctl::codec::decode_downstream;
use rovctl::codec::decode_frame;
use rovctl::codec::decode_upstream;
use rovctl::codec::encode_downstream;
use rovctl::codec::encode_frame;
use rovctl::codec::encode_upstream;
use rovctl::controller::DownstreamMessage;
use rovctl::controller::UpstreamMessage;
use rovctl::controller::VelocityData;
use rovctl::end_of_frame;

#[test]
fn test() {
    let command = DownstreamMessage::VelocityUpdate(VelocityData {
        forwards_left: 4000,
        forwards_right: 3000,
        strafing: 2000,
        vertical: 1000,
    });

    let buffer = encode_downstream(&command);
    let received = decode_downstream(&buffer).unwrap();

    match received {
        DownstreamMessage::VelocityUpdate(data) => {
            assert_eq!(data.forwards_left, 4000);
            assert_eq!(data.forwards_right, 3000);
            assert_eq!(data.strafing, 2000);
            assert_eq!(data.vertical, 1000);
        }
        _ => {
            panic!()
        }
    }
}

#[test]
fn round_trip_every_downstream_message() {
    let messages = vec![
        DownstreamMessage::VelocityUpdate(VelocityData {
            forwards_left: -1000,
            forwards_right: 1000,
            strafing: 0,
            vertical: -32768,
        }),
        DownstreamMessage::VelocityUpdate(VelocityData {
            forwards_left: 0,
            forwards_right: 0,
            strafing: 0,
            vertical: 0,
        }),
        DownstreamMessage::EmergencyStop,
        DownstreamMessage::Ping,
    ];
    for m in messages {
        let wire = encode_downstream(&m);
        assert_eq!(decode_downstream(&wire), Ok(m));
    }
}

#[test]
fn round_trip_every_upstream_message() {
    let messages = vec![
        UpstreamMessage::Init,
        UpstreamMessage::Log(b"thruster two browned out".to_vec()),
        UpstreamMessage::Log(Vec::new()),
        UpstreamMessage::Ack,
        UpstreamMessage::Error(CommunicationError::BadData),
        UpstreamMessage::Error(CommunicationError::BadChecksum(0xBEEF, 0x1234)),
        UpstreamMessage::Error(CommunicationError::EndOfFrame),
        UpstreamMessage::Error(CommunicationError::BufferFull),
        UpstreamMessage::Error(CommunicationError::InternalError),
        UpstreamMessage::TotalVelocity(VelocityData {
            forwards_left: 123,
            forwards_right: -456,
            strafing: 789,
            vertical: -1000,
        }),
        UpstreamMessage::EmergencyStopState(true),
        UpstreamMessage::EmergencyStopState(false),
        UpstreamMessage::Pong,
    ];
    for m in messages {
        let wire = encode_upstream(&m);
        assert_eq!(decode_upstream(&wire), Ok(m));
    }
}

#[test]
fn round_trip_long_log_spans_blocks() {
    // More than 254 payload bytes forces several stuffing blocks.
    let text: Vec<u8> = (0..300u32).map(|i| (i % 251 + 1) as u8).collect();
    let m = UpstreamMessage::Log(text);
    let wire = encode_upstream(&m);
    assert_eq!(decode_upstream(&wire), Ok(m));
}

#[test]
fn frame_is_zero_free_and_zero_terminated() {
    let wire = encode_downstream(&DownstreamMessage::VelocityUpdate(VelocityData {
        forwards_left: 0,
        forwards_right: 256,
        strafing: -256,
        vertical: 0,
    }));
    let (last, body) = wire.split_last().unwrap();
    assert!(end_of_frame(last));
    for b in body {
        assert!(!end_of_frame(b));
    }
}

#[test]
fn single_bit_flips_never_decode_to_the_original() {
    let m = DownstreamMessage::VelocityUpdate(VelocityData {
        forwards_left: 1000,
        forwards_right: -1000,
        strafing: 500,
        vertical: -500,
    });
    let wire = encode_downstream(&m);
    for i in 0..wire.len() - 1 {
        for bit in 0..8 {
            let mut corrupted = wire.clone();
            corrupted[i] ^= 1 << bit;
            assert!(decode_downstream(&corrupted).is_err());
        }
    }
}

#[test]
fn flipped_payload_byte_reports_bad_checksum() {
    // Frame of EmergencyStop: one code byte, then tag and checksum bytes.
    // Flipping the tag keeps the stuffing intact, so the CRC must catch it.
    let wire = encode_downstream(&DownstreamMessage::EmergencyStop);
    let mut corrupted = wire.clone();
    corrupted[1] ^= 0x40;
    assert!(matches!(
        decode_downstream(&corrupted),
        Err(CommunicationError::BadChecksum(_, _))
    ));
}

#[test]
fn short_frame_is_end_of_frame() {
    // A frame around an empty payload holds only the two checksum bytes.
    let wire = encode_frame(&Vec::new());
    assert_eq!(
        decode_frame(&wire).unwrap_err(),
        CommunicationError::EndOfFrame
    );
    // An empty buffer has no payload byte either.
    assert_eq!(
        decode_downstream(&Vec::new()).unwrap_err(),
        CommunicationError::EndOfFrame
    );
}

#[test]
fn unknown_tag_is_bad_data() {
    // A correctly framed payload whose tag fits no message.
    let wire = encode_frame(&vec![99u8]);
    assert_eq!(
        decode_downstream(&wire).unwrap_err(),
        CommunicationError::BadData
    );
    assert_eq!(
        decode_upstream(&wire).unwrap_err(),
        CommunicationError::BadData
    );
}

#[test]
fn broken_stuffing_is_bad_data() {
    // A code byte pointing past the end of the frame.
    let wire = vec![5u8, 5u8, 0u8];
    assert_eq!(
        decode_downstream(&wire).unwrap_err(),
        CommunicationError::BadData
    );
}

#[test]
fn stuffing_known_vectors() {
    assert_eq!(cobs_encode(&vec![0x11, 0x22, 0x33]), vec![0x04, 0x11, 0x22, 0x33]);
    assert_eq!(cobs_encode(&vec![0x00]), vec![0x01, 0x01]);
    assert_eq!(cobs_encode(&vec![0x11, 0x00, 0x22]), vec![0x02, 0x11, 0x02, 0x22]);
    assert_eq!(cobs_encode(&Vec::new()), vec![0x01]);

    let long: Vec<u8> = (0..254u32).map(|i| (i % 253 + 1) as u8).collect();
    let encoded = cobs_encode(&long);
    assert_eq!(encoded[0], 0xFF);
    assert_eq!(encoded.len(), 256);
    assert_eq!(encoded[255], 0x01);
}

#[test]
fn frame_layer_round_trips_payloads_with_delimiters_inside() {
    let payloads: Vec<Vec<u8>> = vec![
        vec![0x00],
        vec![0x00, 0x00, 0x00],
        vec![0x01, 0x00, 0x02, 0x00, 0x03],
        (0..400u32).map(|i| (i % 7) as u8).collect(),
    ];
    for payload in payloads {
        let wire = encode_frame(&payload);
        assert_eq!(decode_frame(&wire), Ok(payload));
    }
}

#[test]
fn unstuffing_inverts_stuffing() {
    let cases: Vec<Vec<u8>> = vec![
        Vec::new(),
        vec![0x00],
        vec![0x00, 0x00],
        vec![0x01, 0x02, 0x00, 0x03],
        (0..600u32).map(|i| (i % 256) as u8).collect(),
    ];
    for case in cases {
        let encoded = cobs_encode(&case);
        assert_eq!(cobs_decode(&encoded), Some(case));
    }
}
