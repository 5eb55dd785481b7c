use virtual_devices::protocol::{protocol_entries, ProtocolError};

#[test]
fn invalid_json_is_rejected() {
    assert_eq!(protocol_entries(b"{\"protocol\": [").unwrap_err(), ProtocolError::InvalidJson);
    assert_eq!(protocol_entries(b"").unwrap_err(), ProtocolError::InvalidJson);
    assert_eq!(protocol_entries(b"{} x").unwrap_err(), ProtocolError::InvalidJson);
}

#[test]
fn missing_protocol_is_rejected() {
    assert_eq!(protocol_entries(b"{\"other\": []}").unwrap_err(), ProtocolError::MissingProtocol);
    assert_eq!(protocol_entries(b"{\"protocol\": 5}").unwrap_err(), ProtocolError::MissingProtocol);
    assert_eq!(protocol_entries(b"[1, 2]").unwrap_err(), ProtocolError::MissingProtocol);
}

#[test]
fn protocol_entries_are_returned_in_order() {
    let items = protocol_entries(b" {\"protocol\": [{\"mode\": \"active\"}, {\"mode\": \"passive\"}, 3]} \n").unwrap();
    assert_eq!(items.len(), 3);
    assert_eq!(items[0]["mode"].as_str(), Some("active"));
    assert_eq!(items[1]["mode"].as_str(), Some("passive"));
    assert_eq!(items[2].as_u64(), Some(3));
}

#[test]
fn empty_protocol_array_is_accepted() {
    let items = protocol_entries(b"{\"protocol\": [], \"other\": 1}").unwrap();
    assert!(items.is_empty());
}
