use syncplay::net::protocol::{
    build_packet, deserialize_control, deserialize_packet, serialize_control, serialize_packet,
    ControlMessage,
};
use syncplay::net::sender::{
    feed_monitor, goodbye_packet, PeerAddr, ReceiverStats, SenderSession, REPORT_INTERVAL,
};
use syncplay::state::gate::PlayoutGate;
use syncplay::state::jitter::JitterBuffer;

fn peer(last: u32, port: u16) -> PeerAddr {
    PeerAddr::V4 { ip: 0xc0a8_0100 + last, port }
}

fn control(msg: ControlMessage) -> Vec<u8> {
    serialize_control(&msg).unwrap()
}

#[test]
fn new_receiver_is_welcomed() {
    let mut session = SenderSession::new();
    let reply = session
        .process_control_message(&control(ControlMessage::Subscribe), peer(1, 9), 0)
        .unwrap();
    assert_eq!(
        deserialize_control(&reply),
        Ok(ControlMessage::Welcome { sample_rate: 48000, channels: 2 })
    );
    assert_eq!(session.receiver_count(), 1);
    assert_eq!(session.targets(), vec![peer(1, 9)]);
    assert_eq!(session.stats_of(peer(1, 9)), Some(ReceiverStats::default()));
    assert_eq!(session.stats_of(peer(2, 9)), None);
}

#[test]
fn known_receiver_is_not_welcomed_again() {
    let mut session = SenderSession::new();
    let subscribe = control(ControlMessage::Subscribe);
    assert!(session.process_control_message(&subscribe, peer(1, 9), 0).is_some());
    assert!(session.process_control_message(&subscribe, peer(1, 9), 0).is_none());
    assert_eq!(session.receiver_count(), 1);
    assert!(session.process_control_message(&subscribe, peer(1, 10), 0).is_some());
    assert_eq!(session.receiver_count(), 2);
}

#[test]
fn leaving_receiver_gets_a_goodbye() {
    let mut session = SenderSession::new();
    let _ = session.process_control_message(&control(ControlMessage::Subscribe), peer(1, 9), 0);
    let _ = session.process_control_message(&control(ControlMessage::Subscribe), peer(2, 9), 0);
    let reply = session
        .process_control_message(&control(ControlMessage::Unsubscribe), peer(1, 9), 0)
        .unwrap();
    assert_eq!(deserialize_control(&reply), Ok(ControlMessage::Goodbye));
    assert_eq!(session.targets(), vec![peer(2, 9)]);
}

#[test]
fn stranger_that_leaves_gets_a_goodbye_too() {
    let mut session = SenderSession::new();
    let reply = session
        .process_control_message(&control(ControlMessage::Unsubscribe), peer(1, 9), 0)
        .unwrap();
    assert_eq!(deserialize_control(&reply), Ok(ControlMessage::Goodbye));
    assert_eq!(session.receiver_count(), 0);
}

#[test]
fn time_request_is_answered_with_the_clock() {
    let mut session = SenderSession::new();
    let request = control(ControlMessage::TimeSyncRequest { client_send_us: 77 });
    let reply = session.process_control_message(&request, peer(1, 9), 123_456).unwrap();
    assert_eq!(
        deserialize_control(&reply),
        Ok(ControlMessage::TimeSyncResponse { client_send_us: 77, server_us: 123_456 })
    );
    assert_eq!(session.receiver_count(), 0);
}

#[test]
fn other_datagrams_are_not_answered() {
    let mut session = SenderSession::new();
    let messages = [
        control(ControlMessage::Goodbye),
        control(ControlMessage::Welcome { sample_rate: 1, channels: 1 }),
        control(ControlMessage::TimeSyncResponse { client_send_us: 1, server_us: 2 }),
        vec![],
        vec![1, 0],
        vec![9, 0, 0, 0],
        vec![4, 0, 0, 0, 1],
    ];
    for data in messages {
        assert!(session.process_control_message(&data, peer(1, 9), 5).is_none());
    }
    assert_eq!(session.receiver_count(), 0);
}

#[test]
fn long_addresses_are_receivers_too() {
    let mut session = SenderSession::new();
    let a = PeerAddr::V6 { ip6: 1, port: 9, flowinfo: 0, scope_id: 0 };
    let b = PeerAddr::V6 { ip6: 1, port: 9, flowinfo: 0, scope_id: 4 };
    let subscribe = control(ControlMessage::Subscribe);
    assert!(session.process_control_message(&subscribe, a, 0).is_some());
    assert!(session.process_control_message(&subscribe, b, 0).is_some());
    assert_eq!(session.receiver_count(), 2);
}

#[test]
fn packets_are_numbered_from_zero() {
    let mut session = SenderSession::new();
    for n in 0..3u64 {
        assert_eq!(session.sequence_number(), n);
        let out = session.next_packet(vec![n as i16, 1, 2, 3], 1_000 + n);
        let packet = deserialize_packet(&out.datagram).unwrap();
        assert_eq!(packet.sequence_number, n);
        assert_eq!(packet.timestamp_micros, 1_000 + n);
        assert_eq!(packet.frame_count, 2);
        assert_eq!(packet.channels, 2);
        assert_eq!(packet.audio_data, vec![n as i16, 1, 2, 3]);
        assert_eq!(out.datagram.len(), 38);
    }
    assert_eq!(session.bytes_total(), 3 * 38);
}

#[test]
fn report_comes_with_every_fiftieth_packet() {
    let mut session = SenderSession::new();
    let _ = session.process_control_message(&control(ControlMessage::Subscribe), peer(1, 9), 0);
    let first = session.next_packet(vec![-300, 20], 0).report.unwrap();
    assert_eq!(first.packets_sent, 0);
    assert_eq!(first.bytes_sent, 34);
    assert_eq!(first.receiver_count, 1);
    assert_eq!(first.peak, 300);
    for n in 1..REPORT_INTERVAL {
        let level = if n == 17 { -32768 } else { 5 };
        assert!(session.next_packet(vec![level, 0], 0).report.is_none());
    }
    let second = session.next_packet(vec![1, 1], 0).report.unwrap();
    assert_eq!(second.packets_sent, 50);
    assert_eq!(second.bytes_sent, 51 * 34);
    assert_eq!(second.peak, 32768);
    for _ in 1..REPORT_INTERVAL {
        assert!(session.next_packet(vec![4, -6], 0).report.is_none());
    }
    assert_eq!(session.next_packet(vec![], 0).report.unwrap().peak, 6);
}

#[test]
fn largest_packet_fits() {
    let mut session = SenderSession::new();
    let out = session.next_packet(vec![1i16; 2033], 0);
    assert_eq!(out.datagram.len(), 4096);
}

#[test]
fn chunk_beyond_a_datagram_is_cut_off() {
    let mut session = SenderSession::new();
    let chunk: Vec<i16> = (0..2048).map(|i| i as i16).collect();
    let whole = serialize_packet(&build_packet(0, 7, chunk.clone())).unwrap();
    assert_eq!(whole.len(), 4126);
    let out = session.next_packet(chunk, 7);
    assert_eq!(out.datagram, whole[..4096]);
    assert!(deserialize_packet(&out.datagram).is_err());
    assert_eq!(session.bytes_total(), 4096);
    assert_eq!(session.sequence_number(), 1);
    assert_eq!(out.report.unwrap().peak, 2047);
    // The stream goes on.
    assert_eq!(deserialize_packet(&session.next_packet(vec![1, 2], 8).datagram).unwrap().sequence_number, 1);
}

#[test]
fn goodbye_packet_marks_the_end() {
    let datagram = goodbye_packet();
    assert_eq!(datagram, serialize_packet(&build_packet(u64::MAX, 0, vec![])).unwrap());
    let packet = deserialize_packet(&datagram).unwrap();
    assert_eq!(packet.sequence_number, u64::MAX);
    assert!(packet.audio_data.is_empty());
}

#[test]
fn monitor_is_fed_and_armed() {
    let mut jitter = JitterBuffer::new(8);
    let mut gate = PlayoutGate::new();
    feed_monitor(&mut jitter, &mut gate, 200_000, &[1, 2], 1_000);
    feed_monitor(&mut jitter, &mut gate, 200_000, &[3, 4], 11_000);
    assert_eq!(jitter.fill_samples(), 4);
    assert_eq!(gate.deadline_us(), 201_000);
}
