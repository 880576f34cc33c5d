use syncplay::audio::resampler::StereoResampler;
use syncplay::state::jitter::JitterBuffer;

fn buffer(frames: i16) -> JitterBuffer {
    let mut jitter = JitterBuffer::new(64);
    for f in 1..=frames {
        jitter.push_packet(&[f, -f]);
    }
    jitter
}

fn lefts(pairs: &[((i16, i16), (i16, i16))]) -> Vec<(i16, i16)> {
    pairs.iter().map(|(a, b)| (a.0, b.0)).collect()
}

#[test]
fn unit_steps_pass_the_stream_through() {
    let mut jitter = buffer(8);
    let mut resampler = StereoResampler::new();
    let pairs = resampler.fill(&mut jitter, 6, &[1, 1, 1]);
    assert_eq!(pairs[0], ((1, -1), (2, -2)));
    assert_eq!(lefts(&pairs), vec![(1, 2), (2, 3), (3, 4)]);
    // Six frames were fetched at once; two of the eight are left.
    assert_eq!(jitter.fill_samples(), 4);
}

#[test]
fn callbacks_join() {
    let mut jitter = buffer(12);
    let mut resampler = StereoResampler::default();
    let first = resampler.fill(&mut jitter, 6, &[1, 1, 1]);
    let second = resampler.fill(&mut jitter, 6, &[1, 1, 1]);
    assert_eq!(lefts(&first), vec![(1, 2), (2, 3), (3, 4)]);
    assert_eq!(lefts(&second), vec![(4, 5), (5, 6), (6, 7)]);
    assert_eq!(jitter.underruns(), 0);
}

#[test]
fn steps_of_zero_and_two_repeat_and_skip() {
    let mut jitter = buffer(8);
    let mut resampler = StereoResampler::new();
    let pairs = resampler.fill(&mut jitter, 8, &[0, 2, 1, 0]);
    assert_eq!(lefts(&pairs), vec![(1, 2), (1, 2), (3, 4), (4, 5)]);
}

#[test]
fn buffer_is_asked_at_most_once() {
    let mut jitter = buffer(8);
    let mut resampler = StereoResampler::new();
    let _ = resampler.fill(&mut jitter, 6, &[]);
    // Four frames wait already.
    let _ = resampler.fill(&mut jitter, 4, &[]);
    assert_eq!(jitter.fill_samples(), 4);
    assert_eq!(jitter.total_read(), 12);
}

#[test]
fn missing_frames_are_silence() {
    let mut jitter = buffer(2);
    let mut resampler = StereoResampler::new();
    let pairs = resampler.fill(&mut jitter, 4, &[1, 1, 1]);
    assert_eq!(lefts(&pairs), vec![(1, 2), (2, 0), (0, 0)]);
    assert_eq!(jitter.underruns(), 1);
}

#[test]
fn stream_that_runs_out_is_silence() {
    let mut jitter = buffer(2);
    let mut resampler = StereoResampler::new();
    let pairs = resampler.fill(&mut jitter, 2, &[1, 1, 1]);
    assert_eq!(lefts(&pairs), vec![(1, 2), (2, 0), (0, 0)]);
    assert_eq!(jitter.underruns(), 0);
}

#[test]
fn cut_into_callbacks_is_silent() {
    let steps = [1usize, 1, 2, 0, 1, 1, 1, 2];
    let mut whole = StereoResampler::new();
    let mut whole_jitter = buffer(20);
    let all = whole.fill(&mut whole_jitter, 11, &steps);
    for cut in 0..=steps.len() {
        let mut parts = StereoResampler::new();
        let mut jitter = buffer(20);
        let mut pairs = parts.fill(&mut jitter, 12, &steps[..cut]);
        pairs.extend(parts.fill(&mut jitter, 14, &steps[cut..]));
        assert_eq!(pairs, all);
        // What comes after is the same, too.
        let mut rest = StereoResampler::new();
        let mut rest_jitter = buffer(20);
        let _ = rest.fill(&mut rest_jitter, 11, &steps);
        assert_eq!(
            parts.fill(&mut jitter, 8, &[1, 1, 1]),
            rest.fill(&mut rest_jitter, 5, &[1, 1, 1])
        );
    }
}

#[test]
fn cut_does_not_matter_where_the_input_ends() {
    let mut whole = StereoResampler::new();
    let all = whole.fill(&mut buffer(3), 8, &[1; 6]);
    let mut parts = StereoResampler::new();
    let mut jitter = buffer(3);
    let mut pairs = parts.fill(&mut jitter, 5, &[1; 2]);
    pairs.extend(parts.fill(&mut jitter, 6, &[1; 4]));
    assert_eq!(pairs, all);
}
