use syncplay::audio::playback::{place_frames, play};
use syncplay::audio::resampler::StereoResampler;
use syncplay::state::gate::PlayoutGate;
use syncplay::state::jitter::JitterBuffer;

#[test]
fn unarmed_output_is_silent() {
    let mut gate = PlayoutGate::new();
    assert!(!gate.is_armed());
    assert_eq!(gate.deadline_us(), 0);
    assert!(!gate.should_play(u64::MAX));
    assert!(!gate.has_started());
    assert!(!PlayoutGate::default().is_armed());
}

#[test]
fn first_arming_wins() {
    let mut gate = PlayoutGate::new();
    gate.arm(500);
    gate.arm(100);
    assert!(gate.is_armed());
    assert_eq!(gate.deadline_us(), 500);
}

#[test]
fn deadline_zero_becomes_one() {
    let mut gate = PlayoutGate::new();
    gate.arm(0);
    assert_eq!(gate.deadline_us(), 1);
    assert!(!gate.should_play(0));
    assert!(gate.should_play(1));
}

#[test]
fn starts_at_the_deadline_and_stays_open() {
    let mut gate = PlayoutGate::new();
    gate.arm(500);
    assert!(!gate.should_play(499));
    assert!(!gate.has_started());
    assert!(gate.should_play(500));
    assert!(gate.has_started());
    assert!(gate.should_play(0));
}

fn primed() -> (PlayoutGate, StereoResampler, JitterBuffer) {
    let mut jitter = JitterBuffer::new(16);
    jitter.push_packet(&[1, -1, 2, -2, 3, -3, 4, -4]);
    let mut gate = PlayoutGate::new();
    gate.arm(1_000);
    (gate, StereoResampler::new(), jitter)
}

#[test]
fn waiting_output_does_not_drain_the_buffer() {
    let (mut gate, mut resampler, mut jitter) = primed();
    let pairs = play(false, &mut gate, 999, &mut resampler, &mut jitter, 4, &[1, 1]);
    assert!(pairs.is_none());
    assert_eq!(jitter.fill_samples(), 8);
    assert_eq!(jitter.underruns(), 0);
}

#[test]
fn stopping_output_does_not_drain_the_buffer() {
    let (mut gate, mut resampler, mut jitter) = primed();
    let pairs = play(true, &mut gate, 2_000, &mut resampler, &mut jitter, 4, &[1, 1]);
    assert!(pairs.is_none());
    assert_eq!(jitter.fill_samples(), 8);
    assert!(!gate.has_started());
}

#[test]
fn started_output_plays() {
    let (mut gate, mut resampler, mut jitter) = primed();
    let pairs = play(false, &mut gate, 1_000, &mut resampler, &mut jitter, 4, &[1, 1]);
    assert_eq!(pairs, Some(vec![((1, -1), (2, -2)), ((2, -2), (3, -3))]));
    assert_eq!(jitter.fill_samples(), 0);
    assert_eq!(jitter.total_read(), 8);
}

#[test]
fn frames_go_to_the_first_two_channels() {
    let mut output = vec![0.5f32; 8];
    place_frames(&mut output, 4, &[(0.1, 0.2), (0.3, 0.4)]);
    assert_eq!(output, vec![0.1, 0.2, 0.5, 0.5, 0.3, 0.4, 0.5, 0.5]);
}

#[test]
fn mono_output_gets_the_left_halves() {
    let mut output = vec![9i32; 3];
    place_frames(&mut output, 1, &[(1, 2), (3, 4)]);
    assert_eq!(output, vec![1, 3, 9]);
}

#[test]
fn stereo_output_is_interleaved() {
    let mut output = vec![0i32; 4];
    place_frames(&mut output, 2, &[(1, 2), (3, 4)]);
    assert_eq!(output, vec![1, 2, 3, 4]);
}
