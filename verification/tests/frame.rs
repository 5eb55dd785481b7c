use virtual_devices::canopen::MotorModes;
use virtual_devices::frame::{
    active_data_process, active_mode_proc, command_is_serviceable, command_span,
    passive_data_process, passive_frame_is_well_formed,
};

fn answer(frame: &[u8], modes: &mut MotorModes) -> (bool, Vec<u8>) {
    let v = frame.to_vec();
    assert!(passive_frame_is_well_formed(&v));
    passive_data_process(v, modes)
}

const IMU: [u8; 14] = [0x77, 0x0d, 0x00, 0x84, 0x00, 0x02, 0x01, 0x10, 0x00, 0x51, 0x00, 0x00, 0x00, 0xf5];
const CODE_READER: [u8; 21] = [
    0x00, 0x44, 0x00, 0x00, 0x00, 0x04, 0x7f, 0x5c, 0x00, 0x00, 0x00, 0x59, 0x00, 0x00, 0x00, 0x07,
    0x77, 0x54, 0x00, 0x00, 0x4a,
];

#[test]
fn empty_frame_is_not_sent() {
    let mut m = MotorModes::new();
    assert_eq!(answer(&[0xfa, 0xff], &mut m), (false, vec![0xfa, 0xff]));
}

#[test]
fn test_command_reports_version() {
    let mut m = MotorModes::new();
    assert_eq!(
        answer(&[0xfa, 0x01, 0x02, 0xff], &mut m),
        (true, vec![0xfa, 0x01, 0x04, 0x00, 0x11, 0x22, 0x33, 0x44, 0xff])
    );
}

#[test]
fn head_byte_is_not_checked() {
    let mut m = MotorModes::new();
    assert_eq!(answer(&[0x00, 0xb3, 0x00, 0xff], &mut m), (true, vec![0xfa, 0xb3, 0x00, 0x00, 0xff]));
}

#[test]
fn sdo_request_is_answered_by_node() {
    let mut m = MotorModes::new();
    let frame = [
        0xfa, 0x21, 0x0e, 0x08, 0x01, 0x06, 0x02, 0x40, 0x00, 0x10, 0x00, 0, 0, 0, 0, 0xff,
    ];
    let (sent, resp) = answer(&frame, &mut m);
    assert!(sent);
    assert_eq!(
        resp,
        vec![0xfa, 0x21, 0x0c, 0x00, 0x08, 0x01, 0x05, 0x82, 0x43, 0x00, 0x10, 0x00, 0, 0, 0, 0, 0xff]
    );
}

#[test]
fn can_identifier_ignores_high_bits() {
    let mut m = MotorModes::new();
    // 0xfe02 & 0x7ff == 0x602
    let frame = [0xfa, 0x21, 0x0a, 0xf4, 0x01, 0xfe, 0x02, 0x40, 0x00, 0x10, 0x00, 0xff];
    let (_, resp) = answer(&frame, &mut m);
    assert_eq!(resp, vec![0xfa, 0x21, 0x0c, 0x00, 0x04, 0x01, 0x05, 0x82, 0x43, 0x00, 0x10, 0x00, 0, 0, 0, 0, 0xff]);
}

#[test]
fn pdo_is_answered_with_ones() {
    let mut m = MotorModes::new();
    let frame = [0xfa, 0x22, 0x0e, 0x08, 0x01, 0x00, 0x85, 1, 2, 3, 4, 5, 6, 7, 8, 0xff];
    let (_, resp) = answer(&frame, &mut m);
    assert_eq!(resp, vec![0xfa, 0x22, 0x0c, 0x00, 0x08, 0x01, 0x02, 0x85, 1, 1, 1, 1, 1, 1, 1, 1, 0xff]);
}

#[test]
fn heartbeat_has_empty_reply() {
    let mut m = MotorModes::new();
    let frame = [0xfa, 0x23, 0x07, 0x01, 0x02, 0x07, 0x01, 0x05, 0xff];
    assert_eq!(answer(&frame, &mut m), (true, vec![0xfa, 0x23, 0x00, 0x00, 0xff]));
}

#[test]
fn identifier_zero_gets_empty_frame() {
    let mut m = MotorModes::new();
    let frame = [0xfa, 0x24, 0x06, 0x00, 0x03, 0x00, 0x00, 0xff];
    assert_eq!(answer(&frame, &mut m).1, vec![0xfa, 0x24, 0x04, 0x00, 0x00, 0x03, 0x00, 0x00, 0xff]);
}

#[test]
fn other_can_identifier_gets_empty_reply() {
    let mut m = MotorModes::new();
    let frame = [0xfa, 0x25, 0x06, 0x00, 0x03, 0x01, 0x81, 0xff];
    assert_eq!(answer(&frame, &mut m).1, vec![0xfa, 0x25, 0x00, 0x00, 0xff]);
}

#[test]
fn io_command_echoes_group_and_mask() {
    let mut m = MotorModes::new();
    let frame = [0xfa, 0x30, 0x0a, 0x05, 0x01, 1, 2, 3, 4, 0xaa, 0xbb, 0xcc, 0xdd, 0xff];
    assert_eq!(
        answer(&frame, &mut m).1,
        vec![0xfa, 0x30, 0x09, 0x00, 0x05, 0xaa, 0xbb, 0xcc, 0xdd, 0xaa, 0xbb, 0xcc, 0xdd, 0xff]
    );
}

#[test]
fn serial_imu_answer() {
    let mut m = MotorModes::new();
    let frame = [0xfa, 0x40, 0x05, 0xc1, 0x07, 0x00, 0x00, 0x77, 0xff];
    let mut expected = vec![0xfa, 0x40, 0x10, 0x00, 0x0e, 0x07];
    expected.extend_from_slice(&IMU);
    expected.push(0xff);
    assert_eq!(answer(&frame, &mut m).1, expected);
}

#[test]
fn serial_imu_without_answer() {
    let mut m = MotorModes::new();
    let frame = [0xfa, 0x40, 0x05, 0x81, 0x07, 0x00, 0x00, 0x77, 0xff];
    assert_eq!(answer(&frame, &mut m).1, vec![0xfa, 0x40, 0x02, 0x00, 0x00, 0x07, 0xff]);
}

#[test]
fn serial_other_peer_gets_no_reply() {
    let mut m = MotorModes::new();
    let frame = [0xfa, 0x40, 0x06, 0xc2, 0x07, 0x00, 0x00, 0x55, 0x66, 0xff];
    assert_eq!(answer(&frame, &mut m).1, vec![0xfa, 0x40, 0x00, 0x00, 0xff]);
}

#[test]
fn serial_code_reader_answer() {
    let mut m = MotorModes::new();
    let frame = [0xfa, 0x41, 0x04, 0xc0, 0x09, 0x00, 0x00, 0xff];
    let mut expected = vec![0xfa, 0x41, 0x17, 0x00, 0x15, 0x09];
    expected.extend_from_slice(&CODE_READER);
    expected.push(0xff);
    assert_eq!(answer(&frame, &mut m).1, expected);
    let frame = [0xfa, 0x41, 0x04, 0x40, 0x09, 0x00, 0x00, 0xff];
    assert_eq!(answer(&frame, &mut m).1, vec![0xfa, 0x41, 0x02, 0x00, 0x00, 0x09, 0xff]);
}

#[test]
fn safety_exchange_answers_zeros() {
    let mut m = MotorModes::new();
    let frame = [0xfa, 0xa0, 0x09, 0x04, 1, 2, 3, 4, 5, 6, 7, 8, 0xff];
    let mut expected = vec![0xfa, 0xa0, 0x11, 0x00];
    expected.extend_from_slice(&[0u8; 17]);
    expected.push(0xff);
    assert_eq!(answer(&frame, &mut m).1, expected);
}

#[test]
fn read_count_answers_counters() {
    let mut m = MotorModes::new();
    let mut expected = vec![0xfa, 0xc5, 0x10, 0x00];
    expected.extend_from_slice(&[0u8; 8]);
    expected.extend_from_slice(&[0xffu8; 8]);
    expected.push(0xff);
    assert_eq!(answer(&[0xfa, 0xc5, 0x00, 0xff], &mut m).1, expected);
}

#[test]
fn skipped_commands_have_empty_blocks() {
    let mut m = MotorModes::new();
    // system (14 bytes), motor (8), battery (6), message group (6)
    let mut frame = vec![0xfa, 0x10];
    frame.extend_from_slice(&[0u8; 13]);
    frame.extend_from_slice(&[0x50, 0, 0, 0, 0, 0, 0, 0]);
    frame.extend_from_slice(&[0x60, 0, 0, 0, 0, 0]);
    frame.extend_from_slice(&[0x80, 0, 0, 0, 0, 0]);
    frame.push(0xff);
    let (sent, resp) = answer(&frame, &mut m);
    assert!(sent);
    assert_eq!(resp, vec![0xfa, 0x10, 0, 0, 0x50, 0, 0, 0x60, 0, 0, 0x80, 0, 0, 0xff]);
}

#[test]
fn variable_length_commands_are_skipped_over() {
    let mut m = MotorModes::new();
    // flash with 2 data bytes, command manager with 1, charging with 3, then a test command
    let frame = vec![
        0xfa, 0x70, 0, 1, 2, 3, 4, 0x01, 0x02, 0xaa, 0xbb, 0x90, 0, 0, 0, 0, 0, 0, 0, 0x01, 0xcc,
        0xd0, 0, 0, 0x03, 1, 2, 3, 0x0f, 0, 0xff,
    ];
    let (_, resp) = answer(&frame, &mut m);
    assert_eq!(
        resp,
        vec![0xfa, 0x70, 0, 0, 0x90, 0, 0, 0xd0, 0, 0, 0x0f, 4, 0, 0x11, 0x22, 0x33, 0x44, 0xff]
    );
}

#[test]
fn frame_mode_write_then_read() {
    let mut m = MotorModes::new();
    let write = [0xfa, 0x21, 0x0b, 0x05, 0x00, 0x06, 0x03, 0x2f, 0x60, 0x60, 0x00, 0x08, 0xff];
    let (_, resp) = answer(&write, &mut m);
    assert_eq!(resp, vec![0xfa, 0x21, 0x0c, 0x00, 0x05, 0x00, 0x05, 0x83, 0x60, 0x60, 0x60, 0x00, 0, 0, 0, 0, 0xff]);
    assert_eq!(m.mode(3), 8);
    let read = [0xfa, 0x22, 0x0a, 0x04, 0x00, 0x06, 0x03, 0x40, 0x61, 0x60, 0x00, 0xff];
    let (_, resp) = answer(&read, &mut m);
    assert_eq!(resp.len(), 17);
    assert_eq!(resp[12], 0x08);
    assert_eq!(m.mode(3), 8);
}

#[test]
fn block_length_byte_is_payload_length() {
    let mut m = MotorModes::new();
    let frame = [0xfa, 0x01, 0x00, 0xc1, 0x00, 0x31, 0x00, 0x01, 0x02, 1, 2, 3, 4, 5, 6, 7, 8, 0xff];
    let (_, resp) = answer(&frame, &mut m);
    // version block, count block, IO block
    assert_eq!(resp[2], 4);
    assert_eq!(resp[8], 0xc1);
    assert_eq!(resp[9], 16);
    assert_eq!(resp[27], 0x31);
    assert_eq!(resp[28], 9);
    assert_eq!(resp.len(), 1 + 7 + 19 + 12 + 1);
    assert_eq!(resp[0], 0xfa);
    assert_eq!(*resp.last().unwrap(), 0xff);
}

#[test]
fn malformed_frames_are_detected() {
    assert!(!passive_frame_is_well_formed(&vec![]));
    assert!(!passive_frame_is_well_formed(&vec![0xfa]));
    assert!(!passive_frame_is_well_formed(&vec![0xfa, 0x01, 0x02]));
    // the tail must be at a command position
    assert!(!passive_frame_is_well_formed(&vec![0xfa, 0x01, 0xff]));
    // SDO request with too few data bytes
    assert!(!passive_frame_is_well_formed(&vec![0xfa, 0x21, 0, 0x03, 0, 0x06, 0x01, 0x40, 0x00, 0x10, 0xff]));
    // mode write without its data byte
    assert!(!passive_frame_is_well_formed(&vec![0xfa, 0x21, 0, 0x04, 0, 0x06, 0x01, 0x2f, 0x60, 0x60, 0x00, 0xff]));
    // mode read for a node beyond the table
    assert!(!passive_frame_is_well_formed(&vec![0xfa, 0x21, 0, 0x04, 0, 0x06, 0x20, 0x40, 0x61, 0x60, 0x00, 0xff]));
    // other objects are fine for any node
    assert!(passive_frame_is_well_formed(&vec![0xfa, 0x21, 0, 0x04, 0, 0x06, 0x20, 0x40, 0x63, 0x60, 0x00, 0xff]));
    // a length field that runs past the end
    assert!(!passive_frame_is_well_formed(&vec![0xfa, 0x70, 0, 1, 2, 3, 4, 0x01, 0x05, 0xff]));
}

#[test]
fn command_span_and_serviceable() {
    let data = vec![0xfa, 0x21, 0, 0x04, 0, 0x06, 0x20, 0x40, 0x61, 0x60, 0x00, 0xff];
    assert_eq!(command_span(&data, 1), Some(10));
    assert!(!command_is_serviceable(&data, 1));
    assert_eq!(command_span(&data, 11), None);
    assert_eq!(command_span(&vec![0xfa, 0x10, 0, 0xff], 1), None);
}

#[test]
fn active_mode() {
    assert!(!active_mode_proc());
    assert_eq!(active_data_process(), (true, vec![]));
}
