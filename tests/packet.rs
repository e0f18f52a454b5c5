use sphero_rvr::error::RvrError;
use sphero_rvr::protocol::checksum::calculate_checksum;
use sphero_rvr::protocol::packet::{Packet, PacketFlags};

#[test]
fn test_packet_flags_to_byte() {
    let flags = PacketFlags {
        is_response: true,
        requests_response: false,
        requests_only_error_response: false,
        is_activity: true,
        has_target_id: false,
        has_source_id: false,
        reserved: 0,
    };
    let byte = flags.to_byte();
    assert_eq!(byte, 0b0000_1001); // bits 0 and 3 set
}

#[test]
fn test_packet_flags_from_byte() {
    let byte = 0b0000_1010; // bits 1 and 3 set
    let flags = PacketFlags::from_byte(byte);
    assert!(!flags.is_response);
    assert!(flags.requests_response);
    assert!(flags.is_activity);
    assert!(!flags.has_target_id);
    assert!(!flags.has_source_id);
}

#[test]
fn test_packet_flags_roundtrip() {
    let original = PacketFlags {
        is_response: true,
        requests_response: true,
        requests_only_error_response: false,
        is_activity: false,
        has_target_id: true,
        has_source_id: false,
        reserved: 0b10,
    };
    let byte = original.to_byte();
    let recovered = PacketFlags::from_byte(byte);
    assert_eq!(original, recovered);
}

#[test]
fn flags_bit_layout() {
    let f = PacketFlags::from_byte(0b1111_1111);
    assert!(f.is_response && f.requests_response && f.requests_only_error_response);
    assert!(f.is_activity && f.has_target_id && f.has_source_id);
    assert_eq!(f.reserved, 0b11);
    assert_eq!(f.to_byte(), 0xFF);
    let only_error = PacketFlags::from_byte(0b0000_0100);
    assert!(only_error.requests_only_error_response);
    assert!(!only_error.is_activity);
    for b in 0..=255u8 {
        assert_eq!(PacketFlags::from_byte(b).to_byte(), b);
    }
}

#[test]
fn test_new_command_packet() {
    let packet = Packet::new_command(0x10, 0x20, 5, vec![0x01, 0x02]);
    assert_eq!(packet.device_id, 0x10);
    assert_eq!(packet.command_id, 0x20);
    assert_eq!(packet.sequence_number, 5);
    assert_eq!(packet.payload, vec![0x01, 0x02]);
    assert!(!packet.flags.is_response);
    assert!(packet.flags.requests_response);
    assert!(packet.target_id.is_none());
    assert!(packet.source_id.is_none());
}

#[test]
fn test_packet_serialization() {
    let packet = Packet::new_command(0x1A, 0x1C, 5, vec![0x01, 0x02, 0x03]);
    let bytes = packet.to_bytes();

    // FLAGS | DEVICE | COMMAND | SEQ | PAYLOAD... | CHECKSUM
    assert_eq!(bytes[0], packet.flags.to_byte());
    assert_eq!(bytes[1], 0x1A);
    assert_eq!(bytes[2], 0x1C);
    assert_eq!(bytes[3], 5);
    assert_eq!(&bytes[4..7], &[0x01, 0x02, 0x03]);
    assert_eq!(bytes.len(), 8);
    assert_eq!(bytes[7], calculate_checksum(&bytes[..7]));
}

#[test]
fn test_packet_deserialization() {
    let mut bytes = vec![
        0b0000_0010, // flags: requests_response=true
        0x1A,        // device_id
        0x1C,        // command_id
        5,           // sequence
        0x01,
        0x02,
        0x03, // payload
    ];
    let checksum = calculate_checksum(&bytes);
    bytes.push(checksum);

    let packet = Packet::from_bytes(&bytes).unwrap();
    assert_eq!(packet.device_id, 0x1A);
    assert_eq!(packet.command_id, 0x1C);
    assert_eq!(packet.sequence_number, 5);
    assert_eq!(packet.payload, vec![0x01, 0x02, 0x03]);
    assert!(packet.flags.requests_response);
}

#[test]
fn test_packet_roundtrip() {
    let original = Packet::new_command(0x13, 0x0D, 42, vec![0xAA, 0xBB, 0xCC]);
    let bytes = original.to_bytes();
    let recovered = Packet::from_bytes(&bytes).unwrap();

    assert_eq!(recovered.device_id, original.device_id);
    assert_eq!(recovered.command_id, original.command_id);
    assert_eq!(recovered.sequence_number, original.sequence_number);
    assert_eq!(recovered.payload, original.payload);
}

#[test]
fn flipped_checksum_is_a_mismatch() {
    let original = Packet::new_command(0x13, 0x0D, 42, vec![0xAA, 0xBB, 0xCC]);
    let mut bytes = original.to_bytes();
    let last = bytes.len() - 1;
    // 0x02 + 0x13 + 0x0D + 0x2A + 0xAA + 0xBB + 0xCC = 637; 637 mod 256 = 125; 255 - 125 = 130
    assert_eq!(bytes[last], 0x82);
    bytes[last] ^= 0xFF;
    match Packet::from_bytes(&bytes) {
        Err(RvrError::ChecksumMismatch { expected, actual }) => {
            assert_eq!(expected, 0x82);
            assert_eq!(actual, 0x7D);
        }
        other => panic!("unexpected result {:?}", other),
    }
}

#[test]
fn routing_ids_round_trip() {
    let packet = Packet {
        flags: PacketFlags {
            is_response: true,
            requests_response: false,
            requests_only_error_response: false,
            is_activity: false,
            has_target_id: true,
            has_source_id: true,
            reserved: 0,
        },
        target_id: Some(0x02),
        source_id: Some(0x01),
        device_id: 0x13,
        command_id: 0x10,
        sequence_number: 9,
        payload: vec![0x00, 0x55],
    };
    let bytes = packet.to_bytes();
    assert_eq!(&bytes[..8], &[0x31, 0x02, 0x01, 0x13, 0x10, 9, 0x00, 0x55]);
    let back = Packet::from_bytes(&bytes).unwrap();
    assert_eq!(back.target_id, Some(0x02));
    assert_eq!(back.source_id, Some(0x01));
    assert_eq!(back.payload, vec![0x00, 0x55]);
    assert_eq!(back.flags, packet.flags);
}

#[test]
fn presence_bit_without_id_writes_default_node() {
    let mut packet = Packet::new_command(0x10, 0x20, 1, vec![]);
    packet.flags.has_target_id = true;
    let bytes = packet.to_bytes();
    assert_eq!(&bytes[..5], &[0x12, 0x01, 0x10, 0x20, 1]);
}

#[test]
fn short_buffers_are_truncated() {
    assert_eq!(Packet::from_bytes(&[]).unwrap_err(), RvrError::Truncated);
    assert_eq!(Packet::from_bytes(&[0x02, 0x10, 0x20, 0x05]).unwrap_err(), RvrError::Truncated);
    // target and source ids announced: 7 bytes needed at least
    assert_eq!(Packet::from_bytes(&[0x30, 1, 2, 0x10, 0x20, 5]).unwrap_err(), RvrError::Truncated);
    // the minimum: flags, device, command, sequence, checksum
    let mut min = vec![0x00, 0x10, 0x20, 0x05];
    min.push(calculate_checksum(&min));
    let p = Packet::from_bytes(&min).unwrap();
    assert!(p.payload.is_empty());
}
