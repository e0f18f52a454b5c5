use sphero_rvr::error::RvrError;
use sphero_rvr::protocol::framing::{decode_bytes, encode_bytes, EOP, ESC, ESC_MASK, SOP};

#[test]
fn test_encode_no_special_bytes() {
    let data = vec![0x01, 0x02, 0x03];
    let encoded = encode_bytes(&data);
    assert_eq!(encoded.as_ref(), &data[..]);
}

#[test]
fn test_encode_with_escape() {
    let data = vec![0xAB];
    let encoded = encode_bytes(&data);
    assert_eq!(encoded.as_ref(), &[ESC, 0xAB & !ESC_MASK]);
}

#[test]
fn test_encode_with_sop() {
    let data = vec![0x8D];
    let encoded = encode_bytes(&data);
    assert_eq!(encoded.as_ref(), &[ESC, 0x8D & !ESC_MASK]);
}

#[test]
fn test_encode_with_eop() {
    let data = vec![0xD8];
    let encoded = encode_bytes(&data);
    assert_eq!(encoded.as_ref(), &[ESC, 0xD8 & !ESC_MASK]);
}

#[test]
fn test_decode_no_escape() {
    let data = vec![0x01, 0x02, 0x03];
    let decoded = decode_bytes(&data).unwrap();
    assert_eq!(decoded, data);
}

#[test]
fn test_decode_with_escape() {
    let data = vec![ESC, 0xAB & !ESC_MASK];
    let decoded = decode_bytes(&data).unwrap();
    assert_eq!(decoded, vec![0xAB]);
}

#[test]
fn test_encode_decode_roundtrip() {
    let original = vec![0x01, 0xAB, 0x8D, 0xD8, 0x02];
    let encoded = encode_bytes(&original);
    let decoded = decode_bytes(&encoded).unwrap();
    assert_eq!(decoded, original);
}

#[test]
fn test_decode_incomplete_escape() {
    let data = vec![ESC];
    let result = decode_bytes(&data);
    assert!(result.is_err());
}

#[test]
fn encode_escapes_exact_bytes() {
    let encoded = encode_bytes(&[0x00, SOP, 0x41, EOP, ESC, 0xFF]);
    assert_eq!(encoded.as_ref(), &[0x00, 0xAB, 0x05, 0x41, 0xAB, 0x50, 0xAB, 0x23, 0xFF]);
}

#[test]
fn encoded_bytes_hold_no_frame_marker() {
    let all: Vec<u8> = (0..=255u8).collect();
    let encoded = encode_bytes(&all);
    assert_eq!(encoded.len(), 256 + 3);
    assert!(!encoded.iter().any(|&b| b == SOP || b == EOP));
    assert_eq!(decode_bytes(&encoded).unwrap(), all);
}

#[test]
fn decode_encode_round_trip_on_every_marker_run() {
    let inputs: Vec<Vec<u8>> = vec![
        vec![],
        vec![SOP, SOP, SOP],
        vec![EOP, ESC, SOP, 0x00, ESC],
        vec![ESC; 17],
    ];
    for x in inputs {
        let encoded = encode_bytes(&x);
        assert_eq!(decode_bytes(&encoded).unwrap(), x);
    }
}

#[test]
fn decode_trailing_escape_is_incomplete() {
    assert_eq!(decode_bytes(&[0x01, 0x02, ESC]), Err(RvrError::IncompleteEscape));
    assert_eq!(decode_bytes(&[]), Ok(vec![]));
}
