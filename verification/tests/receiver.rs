use syncplay::net::protocol::{
    build_packet, serialize_control, serialize_packet, CodecError, ControlMessage,
};
use syncplay::net::receiver::{
    after_failure, time_request_due, LoopStep, ReceiveFailure, Received, ReceiverReport,
    ReceiverSession, TIME_REQUEST_US,
};
use syncplay::net::sender::{feed_monitor, goodbye_packet, PeerAddr, SenderSession};
use syncplay::state::gate::PlayoutGate;
use syncplay::state::jitter::JitterBuffer;
use syncplay::sync::clock::ClockSync;

struct Endpoint {
    session: ReceiverSession,
    jitter: JitterBuffer,
    clock: ClockSync,
    gate: PlayoutGate,
}

impl Endpoint {
    fn new() -> Endpoint {
        Endpoint {
            session: ReceiverSession::new(),
            jitter: JitterBuffer::new(64),
            clock: ClockSync::new(),
            gate: PlayoutGate::new(),
        }
    }

    fn receive(&mut self, data: &[u8], now_us: u64) -> Received {
        self.session.receive(
            data,
            &mut self.jitter,
            &mut self.clock,
            &mut self.gate,
            200_000,
            now_us,
        )
    }
}

fn audio(seq: u64, ts: u64, samples: &[i16]) -> Vec<u8> {
    serialize_packet(&build_packet(seq, ts, samples.to_vec())).unwrap()
}

#[test]
fn audio_goes_into_the_buffer() {
    let mut r = Endpoint::new();
    assert_eq!(r.receive(&audio(1, 10, &[5, -6]), 0), Received::Audio(None));
    assert_eq!(r.receive(&audio(2, 20, &[7, -8]), 0), Received::Audio(None));
    let mut out = [0i16; 4];
    assert_eq!(r.jitter.pop_samples(&mut out), 4);
    assert_eq!(out, [5, -6, 7, -8]);
    assert_eq!(r.jitter.packets_lost(), 0);
    assert!(!r.gate.is_armed());
}

#[test]
fn report_comes_with_its_packet() {
    let mut r = Endpoint::new();
    let _ = r.receive(&audio(40, 0, &[100, -400]), 0);
    let _ = r.receive(&audio(47, 0, &[3, 3]), 0);
    let report = r.receive(&audio(50, 0, &[1, 2]), 0);
    assert_eq!(
        report,
        Received::Audio(Some(ReceiverReport {
            packets_received: 50,
            packets_lost: 8,
            buffer_fill: 6,
            underruns: 0,
            peak: 400,
        }))
    );
    // The level starts over after a report.
    let next = r.receive(&audio(100, 0, &[-9, 2]), 0);
    assert!(matches!(next, Received::Audio(Some(report)) if report.peak == 9));
}

#[test]
fn end_of_the_stream_changes_nothing() {
    let mut r = Endpoint::new();
    let _ = r.receive(&audio(1, 0, &[1, 2]), 0);
    assert_eq!(r.receive(&goodbye_packet(), 0), Received::Goodbye);
    assert_eq!(r.jitter.last_sequence(), 1);
    assert_eq!(r.jitter.packets_lost(), 0);
    assert_eq!(r.jitter.fill_samples(), 2);
}

#[test]
fn control_messages_are_told_from_audio() {
    let mut r = Endpoint::new();
    let welcome = ControlMessage::Welcome { sample_rate: 48000, channels: 2 };
    let data = serialize_control(&welcome).unwrap();
    assert_eq!(r.receive(&data, 0), Received::Control(welcome));
    assert_eq!(r.jitter.fill_samples(), 0);
}

#[test]
fn corrupt_datagrams_are_noise() {
    let mut r = Endpoint::new();
    assert_eq!(r.receive(&[1, 2], 0), Received::Noise(CodecError::Malformed));
    assert_eq!(r.receive(&[77, 0, 0, 0], 0), Received::Noise(CodecError::UnknownMessage(77)));
    let mut cut = audio(6, 0, &[1, 2, 3, 4]);
    let _ = cut.pop();
    assert_eq!(r.receive(&cut, 0), Received::Noise(CodecError::Malformed));
    assert_eq!(r.jitter.last_sequence(), u64::MAX);
}

#[test]
fn time_answer_goes_into_the_clock() {
    let mut r = Endpoint::new();
    let answer = ControlMessage::TimeSyncResponse { client_send_us: 1_000, server_us: 51_000 };
    let data = serialize_control(&answer).unwrap();
    assert_eq!(r.receive(&data, 3_000), Received::Control(answer));
    assert_eq!(r.clock.offset_us(), 49_000);
    assert!(r.clock.is_good());
}

#[test]
fn audio_arms_playback_once_the_clock_is_good() {
    let mut r = Endpoint::new();
    let _ = r.receive(&audio(1, 60_000, &[1, 2]), 12_000);
    assert!(!r.gate.is_armed());
    let slow = ControlMessage::TimeSyncResponse { client_send_us: 0, server_us: 100_000 };
    let _ = r.receive(&serialize_control(&slow).unwrap(), 90_000);
    let _ = r.receive(&audio(2, 70_000, &[1, 2]), 92_000);
    assert!(!r.gate.is_armed());
    let quick = ControlMessage::TimeSyncResponse { client_send_us: 95_000, server_us: 146_000 };
    let _ = r.receive(&serialize_control(&quick).unwrap(), 97_000);
    assert_eq!(r.clock.offset_us(), 50_000);
    assert!(!r.gate.is_armed());
    // The first audio, captured at 60 000, stands first in the buffer.
    let _ = r.receive(&audio(3, 150_000, &[1, 2]), 101_000);
    assert_eq!(r.gate.deadline_us(), 60_000 - 50_000 + 200_000);
    let _ = r.receive(&audio(4, 160_000, &[1, 2]), 111_000);
    assert_eq!(r.gate.deadline_us(), 210_000);
}

#[test]
fn source_and_receiver_start_together() {
    // The sender's clock is 1 s ahead of the receiver's; 3 ms there, 5 ms back.
    let ahead = 1_000_000u64;
    let mut sender = SenderSession::new();
    let from = PeerAddr::V4 { ip: 1, port: 2 };
    let mut r = Endpoint::new();
    let request = ControlMessage::TimeSyncRequest { client_send_us: 10_000 };
    let reply = sender
        .process_control_message(&serialize_control(&request).unwrap(), from, 13_000 + ahead)
        .unwrap();
    let _ = r.receive(&reply, 18_000);

    let capture_ts = 20_000 + ahead;
    let mut monitor = JitterBuffer::new(64);
    let mut source = PlayoutGate::new();
    feed_monitor(&mut monitor, &mut source, 200_000, &[1, 2], capture_ts);
    let packet = sender.next_packet(vec![1, 2], capture_ts);
    let _ = r.receive(&packet.datagram, 23_000);

    let at_source = source.deadline_us() as i64;
    let at_receiver = r.gate.deadline_us() as i64 + ahead as i64;
    assert_eq!(at_receiver - at_source, 1_000);
    assert!((at_receiver - at_source).abs() <= 4_000);
    assert_eq!(monitor.fill_samples(), r.jitter.fill_samples());
}

#[test]
fn timeout_is_no_failure() {
    assert_eq!(after_failure(ReceiveFailure::TimedOut, false), LoopStep::Again);
    assert_eq!(after_failure(ReceiveFailure::TimedOut, true), LoopStep::Again);
    assert_eq!(after_failure(ReceiveFailure::Broken, false), LoopStep::Pause);
    assert_eq!(after_failure(ReceiveFailure::Broken, true), LoopStep::Stop);
}

#[test]
fn captured_audio_is_held_in_order() {
    let mut sender = SenderSession::new();
    let mut r = Endpoint::new();
    let chunks: [&[i16]; 4] = [&[1, -1, 2, -2], &[], &[3, -3], &[4, -4, 5, -5]];
    for (i, chunk) in chunks.iter().enumerate() {
        let out = sender.next_packet(chunk.to_vec(), 10_000 * i as u64);
        assert!(matches!(r.receive(&out.datagram, 0), Received::Audio(_)));
    }
    let mut out = [0i16; 10];
    assert_eq!(r.jitter.pop_samples(&mut out), 10);
    assert_eq!(out.to_vec(), chunks.concat());
    assert_eq!(r.jitter.packets_lost(), 0);
}

#[test]
fn audio_from_before_the_clock_is_played_when_due() {
    let mut r = Endpoint::new();
    let _ = r.receive(&audio(1, 10_000, &[7, 8]), 5_000);
    let answer = ControlMessage::TimeSyncResponse { client_send_us: 0, server_us: 15_000 };
    let _ = r.receive(&serialize_control(&answer).unwrap(), 10_000);
    assert_eq!((r.clock.offset_us(), r.clock.best_rtt_us()), (10_000, 10_000));
    let _ = r.receive(&audio(2, 20_000, &[9, 10]), 15_000);
    assert_eq!(r.gate.deadline_us(), 200_000);
    let mut out = [0i16; 2];
    let _ = r.jitter.pop_samples(&mut out);
    assert_eq!(out, [7, 8]);
}

#[test]
fn capped_buffer_holds_the_newest_of_the_stream() {
    let mut sender = SenderSession::new();
    let mut r = Endpoint::new();
    r.jitter = JitterBuffer::with_max(64, 4);
    for chunk in [vec![1i16, -1, 2, -2], vec![3, -3]] {
        let out = sender.next_packet(chunk, 0);
        let _ = r.receive(&out.datagram, 0);
    }
    let mut out = [0i16; 4];
    assert_eq!(r.jitter.pop_samples(&mut out), 4);
    assert_eq!(out, [2, -2, 3, -3]);
}

#[test]
fn oversized_chunk_is_one_lost_packet() {
    let mut sender = SenderSession::new();
    let mut r = Endpoint::new();
    for n in 0..8 {
        let samples = if n == 5 { 2048 } else { 2 };
        let out = sender.next_packet(vec![1i16; samples], 0);
        assert_eq!(out.datagram.len(), if n == 5 { 4096 } else { 34 });
        let received = r.receive(&out.datagram, 1_000);
        assert_eq!(received == Received::Noise(CodecError::Malformed), n == 5);
    }
    assert_eq!(r.jitter.packets_lost(), 1);
    assert_eq!(r.jitter.fill_samples(), 14);
    // The cut packet is not taken for the answer with its number.
    assert!(!r.clock.is_synced());
}

#[test]
fn clock_is_asked_for_at_intervals() {
    assert_eq!(TIME_REQUEST_US, 250_000);
    assert!(time_request_due(None, 0));
    assert!(!time_request_due(Some(1_000), 250_999));
    assert!(time_request_due(Some(1_000), 251_000));
    assert!(!time_request_due(Some(1_000), 0));
}

#[test]
fn start_is_within_half_the_shortest_round_trip() {
    // The sender's clock is 300 ms ahead. Each answer took (there, back).
    let ahead = 300_000u64;
    let mut r = Endpoint::new();
    let _ = r.receive(&audio(1, 310_000, &[1, 2]), 11_000);
    let mut now = 20_000u64;
    for (there, back) in [(90_000u64, 1_000u64), (2_000, 30_000), (25_000, 25_000)] {
        let answer = ControlMessage::TimeSyncResponse {
            client_send_us: now,
            server_us: now + there + ahead,
        };
        now += there + back;
        let _ = r.receive(&serialize_control(&answer).unwrap(), now);
    }
    assert_eq!(r.clock.best_rtt_us(), 32_000);
    let _ = r.receive(&audio(2, 320_000, &[3, 4]), now);
    let at_source = 310_000 + 200_000;
    let error = r.gate.deadline_us() as i64 + ahead as i64 - at_source;
    assert_eq!(error, 14_000);
    assert!(error.abs() <= 20_000);
}
