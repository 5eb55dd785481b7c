use virtual_devices::canopen::MotorModes;
use virtual_devices::service::{handle_event, LinkAction, LinkEvent};

#[test]
fn idle_link_keeps_listening() {
    let mut m = MotorModes::new();
    assert!(matches!(handle_event(LinkEvent::Idle, &mut m), LinkAction::Listen));
}

#[test]
fn receive_error_backs_off() {
    let mut m = MotorModes::new();
    assert!(matches!(handle_event(LinkEvent::ReceiveError, &mut m), LinkAction::Backoff));
}

#[test]
fn stranger_stops_the_device() {
    let mut m = MotorModes::new();
    let ev = LinkEvent::Datagram { payload: vec![0xfa, 0x01, 0x00, 0xff], from_client: false };
    assert!(matches!(handle_event(ev, &mut m), LinkAction::UnexpectedPeer));
}

#[test]
fn empty_datagram_gets_empty_answer() {
    let mut m = MotorModes::new();
    let ev = LinkEvent::Datagram { payload: vec![], from_client: true };
    match handle_event(ev, &mut m) {
        LinkAction::Send(v) => assert!(v.is_empty()),
        other => panic!("unexpected {:?}", other),
    }
}

#[test]
fn malformed_frame_is_reported() {
    let mut m = MotorModes::new();
    let ev = LinkEvent::Datagram { payload: vec![0xfa, 0x01, 0x00], from_client: true };
    assert!(matches!(handle_event(ev, &mut m), LinkAction::Malformed));
}

#[test]
fn frame_without_commands_is_not_answered() {
    let mut m = MotorModes::new();
    let ev = LinkEvent::Datagram { payload: vec![0xfa, 0xff, 0x12], from_client: true };
    assert!(matches!(handle_event(ev, &mut m), LinkAction::Listen));
}

#[test]
fn request_frame_is_answered() {
    let mut m = MotorModes::new();
    let ev = LinkEvent::Datagram {
        payload: vec![0xfa, 0x21, 0x0b, 0x05, 0x00, 0x06, 0x01, 0x2f, 0x60, 0x60, 0x00, 0x0a, 0xff],
        from_client: true,
    };
    match handle_event(ev, &mut m) {
        LinkAction::Send(v) => assert_eq!(
            v,
            vec![0xfa, 0x21, 0x0c, 0x00, 0x05, 0x00, 0x05, 0x81, 0x60, 0x60, 0x60, 0x00, 0, 0, 0, 0, 0xff]
        ),
        other => panic!("unexpected {:?}", other),
    }
    assert_eq!(m.mode(1), 10);
}
