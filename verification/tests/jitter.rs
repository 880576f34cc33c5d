use syncplay::state::jitter::JitterBuffer;

#[test]
fn fresh_buffer_is_empty() {
    let buffer = JitterBuffer::new(48_000);
    assert_eq!(buffer.fill_samples(), 0);
    assert_eq!(buffer.total_written(), 0);
    assert_eq!(buffer.total_read(), 0);
    assert_eq!(buffer.last_sequence(), u64::MAX);
    assert_eq!(buffer.packets_lost(), 0);
    assert_eq!(buffer.underruns(), 0);
}

#[test]
fn first_in_first_out() {
    let mut buffer = JitterBuffer::new(8);
    buffer.push_packet(&[1, 2, 3, 4]);
    buffer.push_packet(&[5, 6]);
    let mut out = [0i16; 6];
    assert_eq!(buffer.pop_samples(&mut out), 6);
    assert_eq!(out, [1, 2, 3, 4, 5, 6]);
    assert_eq!(buffer.total_written(), 6);
    assert_eq!(buffer.total_read(), 6);
    assert_eq!(buffer.underruns(), 0);
}

#[test]
fn first_in_first_out_below_the_cap() {
    let mut buffer = JitterBuffer::with_max(8, 6);
    buffer.push_packet(&[1, 2, 3, 4]);
    buffer.push_packet(&[5, 6]);
    let mut out = [0i16; 6];
    assert_eq!(buffer.pop_samples(&mut out), 6);
    assert_eq!(out, [1, 2, 3, 4, 5, 6]);
    assert_eq!(buffer.fill_samples(), 0);
}

#[test]
fn missing_samples_are_silence() {
    let mut buffer = JitterBuffer::new(8);
    buffer.push_packet(&[7, 8]);
    let mut out = [9i16; 5];
    assert_eq!(buffer.pop_samples(&mut out), 2);
    assert_eq!(out, [7, 8, 0, 0, 0]);
    assert_eq!(buffer.underruns(), 1);
    assert_eq!(buffer.total_read(), 2);
    assert_eq!(buffer.pop_samples(&mut out), 0);
    assert_eq!(out, [0; 5]);
    assert_eq!(buffer.underruns(), 2);
}

#[test]
fn asking_for_nothing_is_no_underrun() {
    let mut buffer = JitterBuffer::new(8);
    let mut out: [i16; 0] = [];
    assert_eq!(buffer.pop_samples(&mut out), 0);
    assert_eq!(buffer.underruns(), 0);
}

#[test]
fn popping_twice_is_popping_at_once() {
    let data = [1i16, 2, 3, 4, 5];
    let mut a = JitterBuffer::new(8);
    a.push_packet(&data);
    let mut one = [0i16; 7];
    let _ = a.pop_samples(&mut one);
    let mut b = JitterBuffer::new(8);
    b.push_packet(&data);
    let mut first = [0i16; 3];
    let mut second = [0i16; 4];
    let _ = b.pop_samples(&mut first);
    let _ = b.pop_samples(&mut second);
    assert_eq!(one[..3], first);
    assert_eq!(one[3..], second);
}

#[test]
fn cap_pushes_the_oldest_out() {
    let mut buffer = JitterBuffer::with_max(8, 4);
    buffer.push_packet(&[1, 2, 3]);
    assert_eq!(buffer.fill_samples(), 3);
    buffer.push_packet(&[4, 5, 6]);
    assert_eq!(buffer.fill_samples(), 4);
    assert_eq!(buffer.total_written(), 6);
    let mut out = [0i16; 4];
    assert_eq!(buffer.pop_samples(&mut out), 4);
    assert_eq!(out, [3, 4, 5, 6]);
}

#[test]
fn one_large_packet_is_capped_too() {
    let mut buffer = JitterBuffer::with_max(8, 2);
    buffer.push_packet(&[1, 2, 3, 4, 5, 6]);
    let mut out = [0i16; 2];
    assert_eq!(buffer.pop_samples(&mut out), 2);
    assert_eq!(out, [5, 6]);
}

#[test]
fn cap_of_nothing_holds_nothing() {
    let mut buffer = JitterBuffer::with_max(8, 0);
    buffer.push_packet(&[1, 2]);
    assert_eq!(buffer.fill_samples(), 0);
}

#[test]
fn whole_frames_stay_whole() {
    let mut buffer = JitterBuffer::with_max(8, 4);
    buffer.push_packet(&[1, -1, 2, -2]);
    buffer.push_packet(&[3, -3]);
    let mut out = [0i16; 4];
    let _ = buffer.pop_samples(&mut out);
    assert_eq!(out, [2, -2, 3, -3]);
}

#[test]
fn gaps_are_losses() {
    let mut buffer = JitterBuffer::new(8);
    for seq in [10u64, 11, 14, 20] {
        buffer.record_sequence(seq);
    }
    // 12, 13, 15, 16, 17, 18 and 19 are missing.
    assert_eq!(buffer.packets_lost(), 7);
    assert_eq!(buffer.last_sequence(), 20);
}

#[test]
fn first_packet_is_no_loss() {
    let mut buffer = JitterBuffer::new(8);
    buffer.record_sequence(1_000);
    assert_eq!(buffer.packets_lost(), 0);
}

#[test]
fn late_and_repeated_packets_are_no_losses() {
    let mut buffer = JitterBuffer::new(8);
    buffer.record_sequence(5);
    buffer.record_sequence(5);
    buffer.record_sequence(3);
    assert_eq!(buffer.packets_lost(), 0);
    assert_eq!(buffer.last_sequence(), 3);
    buffer.record_sequence(6);
    assert_eq!(buffer.packets_lost(), 2);
}
