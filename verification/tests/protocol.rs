//! Datagrams on the wire.

use syncplay::net::protocol::{
    build_packet, deserialize_control, deserialize_packet, serialize_control, serialize_packet,
    CodecError, ControlMessage, MAX_PACKET_SIZE,
};

#[test]
fn packet_bytes_are_exact() {
    let packet = build_packet(1, 0x0203, vec![-2, 258]);
    let bytes = serialize_packet(&packet).unwrap();
    let mut expected: Vec<u8> = vec![1, 0, 0, 0, 0, 0, 0, 0];
    expected.extend([3u8, 2, 0, 0, 0, 0, 0, 0]);
    expected.extend([1u8, 0, 0, 0]);
    expected.extend([2u8, 0]);
    expected.extend([2u8, 0, 0, 0, 0, 0, 0, 0]);
    expected.extend([0xfeu8, 0xff, 2, 1]);
    assert_eq!(bytes, expected);
}

#[test]
fn packet_round_trip() {
    let audio: Vec<i16> = vec![0, 1, -1, i16::MAX, i16::MIN, 1234];
    let packet = build_packet(u64::MAX - 1, 987_654_321, audio.clone());
    assert_eq!(packet.frame_count, 3);
    assert_eq!(packet.channels, 2);
    let bytes = serialize_packet(&packet).unwrap();
    assert_eq!(bytes.len(), 30 + 12);
    let back = deserialize_packet(&bytes).unwrap();
    assert_eq!(back.sequence_number, u64::MAX - 1);
    assert_eq!(back.timestamp_micros, 987_654_321);
    assert_eq!(back.frame_count, 3);
    assert_eq!(back.channels, 2);
    assert_eq!(back.audio_data, audio);
}

#[test]
fn packet_with_bytes_behind_is_read() {
    let mut bytes = serialize_packet(&build_packet(7, 8, vec![9, 10])).unwrap();
    bytes.extend([1u8, 2, 3]);
    let back = deserialize_packet(&bytes).unwrap();
    assert_eq!(back.sequence_number, 7);
    assert_eq!(back.audio_data, vec![9, 10]);
}

#[test]
fn truncated_packet_is_malformed() {
    let bytes = serialize_packet(&build_packet(7, 8, vec![9, 10])).unwrap();
    for len in 0..bytes.len() {
        assert!(matches!(deserialize_packet(&bytes[..len]), Err(CodecError::Malformed)));
    }
}

#[test]
fn packet_that_claims_too_much_is_malformed() {
    let mut bytes = serialize_packet(&build_packet(7, 8, vec![])).unwrap();
    assert_eq!(bytes.len(), 30);
    for b in bytes.iter_mut().skip(22) {
        *b = 0xff;
    }
    assert!(matches!(deserialize_packet(&bytes), Err(CodecError::Malformed)));
}

#[test]
fn a_ten_millisecond_packet_fits_a_datagram() {
    let bytes = serialize_packet(&build_packet(0, 0, vec![0; 960])).unwrap();
    assert_eq!(bytes.len(), 1950);
    assert!(bytes.len() <= MAX_PACKET_SIZE);
}

#[test]
fn control_bytes_are_exact() {
    let bytes = |msg: ControlMessage| serialize_control(&msg).unwrap();
    assert_eq!(bytes(ControlMessage::Subscribe), vec![0, 0, 0, 0]);
    assert_eq!(bytes(ControlMessage::Unsubscribe), vec![1, 0, 0, 0]);
    assert_eq!(
        bytes(ControlMessage::Welcome { sample_rate: 48000, channels: 2 }),
        vec![2, 0, 0, 0, 0x80, 0xbb, 0, 0, 2, 0]
    );
    assert_eq!(bytes(ControlMessage::Goodbye), vec![3, 0, 0, 0]);
    assert_eq!(
        bytes(ControlMessage::TimeSyncRequest { client_send_us: 5 }),
        vec![4, 0, 0, 0, 5, 0, 0, 0, 0, 0, 0, 0]
    );
    assert_eq!(
        bytes(ControlMessage::TimeSyncResponse { client_send_us: 5, server_us: 256 }),
        vec![5, 0, 0, 0, 5, 0, 0, 0, 0, 0, 0, 0, 0, 1, 0, 0, 0, 0, 0, 0]
    );
}

#[test]
fn control_round_trip() {
    let messages = vec![
        ControlMessage::Subscribe,
        ControlMessage::Unsubscribe,
        ControlMessage::Welcome { sample_rate: 44100, channels: 1 },
        ControlMessage::Goodbye,
        ControlMessage::TimeSyncRequest { client_send_us: u64::MAX },
        ControlMessage::TimeSyncResponse { client_send_us: 1, server_us: u64::MAX - 1 },
    ];
    for msg in messages {
        let bytes = serialize_control(&msg).unwrap();
        assert_eq!(deserialize_control(&bytes), Ok(msg));
        // Too short for the audio side of the shared socket.
        assert!(deserialize_packet(&bytes).is_err());
        for len in 0..bytes.len() {
            assert_eq!(deserialize_control(&bytes[..len]), Err(CodecError::Malformed));
        }
    }
}

#[test]
fn unknown_control_message_is_named() {
    assert_eq!(deserialize_control(&[6, 0, 0, 0]), Err(CodecError::UnknownMessage(6)));
    assert_eq!(
        deserialize_control(&[0, 1, 0, 0, 9]),
        Err(CodecError::UnknownMessage(256))
    );
}
