use std::sync::mpsc;
use std::time::Duration;

use sphero_rvr::error::RvrError;
use sphero_rvr::protocol::framing::{decode_bytes, EOP, SOP};
use sphero_rvr::protocol::packet::{Packet, PacketFlags};
use sphero_rvr::protocol::parser::SpheroParser;
use sphero_rvr::transport::dispatch::{frame_packet, PendingRequests, Route, SequenceCounter};

fn response(seq: u8, payload: Vec<u8>) -> Packet {
    Packet {
        flags: PacketFlags {
            is_response: true,
            requests_response: false,
            requests_only_error_response: false,
            is_activity: false,
            has_target_id: false,
            has_source_id: false,
            reserved: 0,
        },
        target_id: None,
        source_id: None,
        device_id: 0x13,
        command_id: 0x0D,
        sequence_number: seq,
        payload,
    }
}

#[test]
fn dispatcher_test_sequence_number_wrapping() {
    let mut seq = SequenceCounter::starting_at(254);
    assert_eq!(seq.next(), 254);
    assert_eq!(seq.next(), 255);
    assert_eq!(seq.next(), 0);
}

#[test]
fn connection_test_sequence_number_wrapping() {
    let mut seq = SequenceCounter::new();
    for expected in 0..=255u8 {
        assert_eq!(seq.next(), expected);
    }
    assert_eq!(seq.next(), 0);
}

#[test]
fn test_sequence_assignment() {
    let mut seq = SequenceCounter::new();
    let mut numbers = Vec::new();
    for _ in 0..300 {
        numbers.push(seq.next());
    }
    assert_eq!(numbers[0], 0);
    assert_eq!(numbers[255], 255);
    assert_eq!(numbers[256], 0);
    assert_eq!(numbers[299], 43);
}

#[test]
fn test_pending_requests_cleanup() {
    let mut pending: PendingRequests<mpsc::Sender<Packet>> = PendingRequests::starting_at(42);
    let (tx, _rx) = mpsc::channel();

    let seq = pending.register(tx);
    assert_eq!(seq, 42);
    assert_eq!(pending.len(), 1);

    pending.cancel(42);
    assert_eq!(pending.len(), 0);
}

#[test]
fn test_packet_routing_logic() {
    let mut pending: PendingRequests<mpsc::Sender<Packet>> = PendingRequests::starting_at(42);
    let (notif_tx, notif_rx) = mpsc::channel();

    let response_packet = response(42, vec![]);
    let notification_packet = Packet {
        flags: PacketFlags {
            is_response: false,
            requests_response: false,
            requests_only_error_response: false,
            is_activity: true,
            has_target_id: false,
            has_source_id: false,
            reserved: 0,
        },
        target_id: None,
        source_id: None,
        device_id: 0x18,
        command_id: 0x25,
        sequence_number: 0,
        payload: vec![0x01, 0x02, 0x03],
    };

    let (resp_tx, resp_rx) = mpsc::channel();
    assert_eq!(pending.register(resp_tx), 42);

    match pending.route(response_packet.clone()) {
        Route::Deliver { slot, packet } => slot.send(packet).unwrap(),
        _ => panic!("response was not delivered"),
    }

    let received = resp_rx.recv_timeout(Duration::from_millis(100)).unwrap();
    assert_eq!(received.sequence_number, 42);
    assert!(received.flags.is_response);

    match pending.route(notification_packet.clone()) {
        Route::Notify(packet) => notif_tx.send(packet).unwrap(),
        _ => panic!("notification was not queued"),
    }

    let received = notif_rx.recv_timeout(Duration::from_millis(100)).unwrap();
    assert_eq!(received.device_id, 0x18);
    assert_eq!(received.payload, vec![0x01, 0x02, 0x03]);
    assert!(received.flags.is_activity);
}

#[test]
fn test_pending_request_timeout_cleanup() {
    let mut pending: PendingRequests<mpsc::Sender<Packet>> = PendingRequests::starting_at(100);
    let (tx, rx) = mpsc::channel::<Packet>();

    assert_eq!(pending.register(tx), 100);
    assert_eq!(pending.len(), 1);

    let result = rx.recv_timeout(Duration::from_millis(50));
    assert!(result.is_err());

    let outcome = pending.finish(100, None);
    assert!(matches!(outcome, Err(RvrError::Timeout)));
    assert_eq!(pending.len(), 0);
}

#[test]
fn responses_in_reverse_order_reach_their_own_requests() {
    let mut pending: PendingRequests<u32> = PendingRequests::starting_at(7);
    // slots name the caller: 700 waits for the first command, 800 for the second
    let first = pending.register(700);
    let second = pending.register(800);
    assert_eq!((first, second), (7, 8));

    match pending.route(response(8, vec![0x08])) {
        Route::Deliver { slot, packet } => {
            assert_eq!(slot, 800);
            assert_eq!(packet.payload, vec![0x08]);
        }
        _ => panic!("response 8 was not delivered"),
    }
    assert!(pending.is_pending(7));
    assert!(!pending.is_pending(8));
    match pending.route(response(7, vec![0x07])) {
        Route::Deliver { slot, packet } => {
            assert_eq!(slot, 700);
            assert_eq!(packet.payload, vec![0x07]);
        }
        _ => panic!("response 7 was not delivered"),
    }
    assert_eq!(pending.len(), 0);
}

#[test]
fn timed_out_request_leaves_the_table() {
    let mut pending: PendingRequests<u32> = PendingRequests::new();
    let seq = pending.register(1);
    assert_eq!(seq, 0);
    assert!(pending.is_pending(seq));
    assert_eq!(pending.finish(seq, None).unwrap_err(), RvrError::Timeout);
    assert!(!pending.is_pending(seq));
    // a late response for it is dropped, affecting no one
    assert!(matches!(pending.route(response(seq, vec![])), Route::Unmatched(_)));
    assert_eq!(pending.next_sequence(), 1);
}

#[test]
fn received_response_is_returned() {
    let mut pending: PendingRequests<u32> = PendingRequests::new();
    let seq = pending.register(5);
    let r = pending.route(response(seq, vec![0x2A]));
    let packet = match r {
        Route::Deliver { packet, .. } => packet,
        _ => panic!("not delivered"),
    };
    let done = pending.finish(seq, Some(packet)).unwrap();
    assert_eq!(done.payload, vec![0x2A]);
}

#[test]
fn begin_command_numbers_registers_and_frames() {
    let mut pending: PendingRequests<u32> = PendingRequests::starting_at(255);
    let (seq, frame) = pending.begin_command(Packet::new_command(0x13, 0x0D, 99, vec![0x8D]), 3);
    assert_eq!(seq, 255);
    assert_eq!(pending.next_sequence(), 0);
    assert!(pending.is_pending(255));
    assert_eq!(frame[0], SOP);
    assert_eq!(*frame.last().unwrap(), EOP);
    let mut parser = SpheroParser::new();
    let events = parser.feed_slice(&frame);
    assert_eq!(events.len(), 1);
    let p = events[0].as_ref().unwrap();
    assert_eq!(p.sequence_number, 255);
    assert_eq!(p.payload, vec![0x8D]);
}

#[test]
fn frame_packet_escapes_the_body() {
    // flags 0x02, device 0xAB, command 0x01, sequence 0, checksum 0xFF - 0xAE = 0x51
    let frame = frame_packet(&Packet::new_command(0xAB, 0x01, 0, vec![]));
    assert_eq!(frame, vec![SOP, 0x02, 0xAB, 0x23, 0x01, 0x00, 0x51, EOP]);
    assert_eq!(decode_bytes(&frame[1..frame.len() - 1]).unwrap(), vec![0x02, 0xAB, 0x01, 0x00, 0x51]);
}

#[test]
fn test_packet_serialization_roundtrip() {
    let packet = Packet::new_command(0x13, 0x0D, 42, vec![0xAA, 0xBB]);
    let framed = frame_packet(&packet);

    assert_eq!(framed[0], SOP);
    assert_eq!(framed[framed.len() - 1], EOP);

    let mut parser = SpheroParser::new();
    let mut result = None;
    for &byte in &framed {
        if let Ok(Some(parsed)) = parser.feed(byte) {
            result = Some(parsed);
        }
    }

    let parsed = result.expect("Failed to parse packet");
    assert_eq!(parsed.device_id, packet.device_id);
    assert_eq!(parsed.command_id, packet.command_id);
    assert_eq!(parsed.payload, packet.payload);
}
