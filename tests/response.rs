use sphero_rvr::error::RvrError;
use sphero_rvr::protocol::packet::{Packet, PacketFlags};
use sphero_rvr::response::Response;

#[test]
fn test_response_from_packet() {
    let packet = Packet {
        flags: PacketFlags {
            is_response: true,
            requests_response: false,
            requests_only_error_response: false,
            is_activity: false,
            has_target_id: false,
            has_source_id: false,
            reserved: 0,
        },
        target_id: None,
        source_id: None,
        device_id: 0x10,
        command_id: 0x20,
        sequence_number: 5,
        payload: vec![0x00, 0x01, 0x02],
    };

    let response = Response::from_packet(packet).unwrap();
    assert_eq!(response.sequence_number, 5);
    assert_eq!(response.payload, vec![0x00, 0x01, 0x02]);
}

#[test]
fn test_response_from_non_response_packet() {
    let packet = Packet::new_command(0x10, 0x20, 5, vec![]);
    let result = Response::from_packet(packet);
    assert!(result.is_err());
    assert!(matches!(result, Err(RvrError::NotAResponse)));
}

#[test]
fn test_is_success() {
    let response = Response { sequence_number: 1, error_code: 0, payload: vec![] };
    assert!(response.is_success());

    let error_response = Response { sequence_number: 1, error_code: 1, payload: vec![] };
    assert!(!error_response.is_success());
}
