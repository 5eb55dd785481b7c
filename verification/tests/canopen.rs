use virtual_devices::canopen::{canopen_data_process, sdo_response_code, MotorModes};

fn serve(node: u16, req: &[u8], modes: &mut MotorModes) -> Vec<u8> {
    canopen_data_process(node, req.to_vec(), modes)
}

#[test]
fn get_device_model_is_four_byte_upload() {
    let mut m = MotorModes::new();
    assert_eq!(serve(1, &[0x40, 0x00, 0x10, 0x00], &mut m), vec![0x43, 0x00, 0x10, 0x00, 0, 0, 0, 0]);
}

#[test]
fn unknown_object_is_answered_with_cc() {
    let mut m = MotorModes::new();
    assert_eq!(serve(1, &[0x40, 0x34, 0x12, 0x07], &mut m), vec![0xcc, 0x34, 0x12, 0x07, 0, 0, 0, 0]);
}

#[test]
fn response_codes_by_object() {
    assert_eq!(sdo_response_code(0x6510), 0x4b);
    assert_eq!(sdo_response_code(0x3000), 0x4b);
    assert_eq!(sdo_response_code(0x60f6), 0x4b);
    assert_eq!(sdo_response_code(0x1008), 0x41);
    assert_eq!(sdo_response_code(0x6410), 0x41);
    assert_eq!(sdo_response_code(0x100c), 0x60);
    assert_eq!(sdo_response_code(0x1801), 0x60);
    assert_eq!(sdo_response_code(0x606c), 0x43);
    assert_eq!(sdo_response_code(0x6061), 0x4f);
    assert_eq!(sdo_response_code(0x1234), 0xcc);
}

#[test]
fn control_word_expedited_download_is_confirmed() {
    let mut m = MotorModes::new();
    assert_eq!(
        serve(3, &[0x2b, 0x40, 0x60, 0x00, 0x0f, 0x00], &mut m),
        vec![0x60, 0x40, 0x60, 0x00, 0, 0, 0, 0]
    );
    assert_eq!(serve(3, &[0x2f, 0x40, 0x60, 0x00, 0x06], &mut m)[0], 0x60);
    assert_eq!(serve(3, &[0x23, 0x40, 0x60, 0x00, 0, 0, 0, 0], &mut m)[0], 0x60);
}

#[test]
fn control_word_other_request_has_no_specifier() {
    let mut m = MotorModes::new();
    assert_eq!(serve(3, &[0x40, 0x40, 0x60, 0x00], &mut m), vec![0x40, 0x60, 0x00, 0, 0, 0, 0]);
}

#[test]
fn mode_write_then_read() {
    let mut m = MotorModes::new();
    assert_eq!(
        serve(2, &[0x2f, 0x60, 0x60, 0x00, 0x03], &mut m),
        vec![0x60, 0x60, 0x60, 0x00, 0, 0, 0, 0]
    );
    assert_eq!(m.mode(2), 3);
    assert_eq!(serve(2, &[0x40, 0x61, 0x60, 0x00], &mut m), vec![0x4f, 0x61, 0x60, 0x00, 3, 0, 0, 0]);
    // other nodes keep their mode
    assert_eq!(serve(4, &[0x40, 0x61, 0x60, 0x00], &mut m), vec![0x4f, 0x61, 0x60, 0x00, 0, 0, 0, 0]);
}

#[test]
fn negative_mode_round_trips() {
    let mut m = MotorModes::new();
    serve(15, &[0x2f, 0x60, 0x60, 0x00, 0xfd], &mut m);
    assert_eq!(m.mode(15), -3);
    assert_eq!(serve(15, &[0x40, 0x61, 0x60, 0x00], &mut m)[4], 0xfd);
}

#[test]
fn reads_do_not_change_modes() {
    let mut m = MotorModes::new();
    serve(0, &[0x2f, 0x60, 0x60, 0x00, 0x09], &mut m);
    serve(0, &[0x40, 0x61, 0x60, 0x00], &mut m);
    serve(0, &[0x40, 0x63, 0x60, 0x00], &mut m);
    serve(0, &[0x23, 0xff, 0x60, 0x00, 1, 2, 3, 4], &mut m);
    assert_eq!(m.mode(0), 9);
    for node in 1..16 {
        assert_eq!(m.mode(node), 0);
    }
}

#[test]
fn reply_echoes_index_and_subindex() {
    let mut m = MotorModes::new();
    let r = serve(5, &[0x40, 0x78, 0x60, 0x02], &mut m);
    assert_eq!(r.len(), 8);
    assert_eq!(&r[1..4], &[0x78, 0x60, 0x02]);
    assert_eq!(&r[4..], &[0, 0, 0, 0]);
}

#[test]
fn set_mode_and_new() {
    let mut m = MotorModes::new();
    for node in 0..16 {
        assert_eq!(m.mode(node), 0);
    }
    m.set_mode(7, -1);
    assert_eq!(m.mode(7), -1);
    assert_eq!(m.mode(6), 0);
}

#[test]
fn read_reports_last_write_across_other_requests() {
    let mut m = MotorModes::new();
    serve(2, &[0x2f, 0x60, 0x60, 0x00, 0x81, 0, 0, 0], &mut m);
    serve(3, &[0x2f, 0x60, 0x60, 0x00, 0x07, 0, 0, 0], &mut m);
    serve(2, &[0x40, 0x61, 0x60, 0x00, 0, 0, 0, 0], &mut m);
    serve(2, &[0x2b, 0x40, 0x60, 0x00, 0x0f, 0, 0, 0], &mut m);
    serve(9, &[0x40, 0x00, 0x10, 0x00], &mut m);
    assert_eq!(
        serve(2, &[0x40, 0x61, 0x60, 0x00, 0, 0, 0, 0], &mut m),
        vec![0x4f, 0x61, 0x60, 0x00, 0x81, 0x00, 0x00, 0x00]
    );
    assert_eq!(serve(3, &[0x40, 0x61, 0x60, 0x00], &mut m)[4], 0x07);
}
