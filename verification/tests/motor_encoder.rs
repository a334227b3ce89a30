use rovctl::buffer::Buffer;
use rovctl::sabertooth::motor_left;
use rovctl::sabertooth::motor_right;
use rovctl::sabertooth::motor_strafing;
use rovctl::sabertooth::motor_vertical;
use rovctl::sabertooth::write_init;
use rovctl::sabertooth::write_max_voltage;
use rovctl::sabertooth::write_min_voltage;
use rovctl::sabertooth::write_speed;
use rovctl::CommunicationError;

#[test]
fn full_reverse_on_a_reversed_motor_drives_forward() {
    // The left motor's sign is -1, so full reverse becomes an effective
    // +127: the forward command offset, magnitude 127, and a checksum of
    // (address + command + magnitude) mod 128.
    let packet = write_speed(16, motor_left(), -127).unwrap();
    assert_eq!(packet, vec![128, 4, 127, (128u32 + 4 + 127) as u8 % 128]);
    assert_eq!(packet[3], 3);
}

#[test]
fn forward_packet_uses_the_forward_offset() {
    let packet = write_speed(16, motor_right(), 64).unwrap();
    assert_eq!(packet, vec![128, 0, 64, 64]);
}

#[test]
fn reverse_packet_uses_the_offset_above() {
    let packet = write_speed(16, motor_right(), -10).unwrap();
    assert_eq!(packet, vec![128, 1, 10, 11]);
}

#[test]
fn second_controller_addresses() {
    let strafing = write_speed(16, motor_strafing(), 100).unwrap();
    assert_eq!(strafing, vec![129, 4, 100, (129u32 + 4 + 100) as u8 % 128]);

    let vertical = write_speed(16, motor_vertical(), 100).unwrap();
    assert_eq!(vertical, vec![129, 1, 100, (129u32 + 1 + 100) as u8 % 128]);
}

#[test]
fn init_packet_is_the_bauding_byte() {
    assert_eq!(write_init(8).unwrap(), vec![0xAA]);
    assert_eq!(write_init(0).unwrap_err(), CommunicationError::BufferFull);
}

#[test]
fn packets_do_not_fit_a_tiny_buffer() {
    assert_eq!(
        write_speed(3, motor_left(), 50).unwrap_err(),
        CommunicationError::BufferFull
    );
}

#[test]
fn voltage_configuration_packets() {
    // Twelve volts: thirty 200-millivolt steps above the six-volt floor.
    let min = write_min_voltage(8, 128, 12_000).unwrap();
    assert_eq!(min, vec![128, 2, 30, (128u32 + 2 + 30) as u8 % 128]);

    // Twenty-five volts at 5.12 steps per volt: value 128.
    let max = write_max_voltage(8, 128, 25_000).unwrap();
    assert_eq!(max, vec![128, 3, 128, (128u32 + 3 + 128) as u8 % 128]);

    // Saturation at the byte's ceiling.
    let saturated = write_min_voltage(8, 128, 1_000_000).unwrap();
    assert_eq!(saturated[2], 255);
}

#[test]
fn link_buffer_enforces_its_capacity() {
    let mut b = Buffer::new(2);
    assert!(b.push(0x10).is_ok());
    assert!(b.push(0x20).is_ok());
    assert_eq!(b.push(0x30).unwrap_err(), CommunicationError::BufferFull);
    assert_eq!(b.into_buffer(), vec![0x10, 0x20]);
}
