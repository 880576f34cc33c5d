use syncplay::audio::capture::{stereo_from_buffers, stereo_from_interleaved, CaptureBuffer};
use syncplay::audio::level::{louder_of, peak_of};

#[test]
fn mono_is_doubled() {
    assert_eq!(stereo_from_interleaved(&[1, -2, 3], 1), vec![1, 1, -2, -2, 3, 3]);
    assert_eq!(stereo_from_interleaved(&[], 1), Vec::<i16>::new());
}

#[test]
fn stereo_passes_through() {
    assert_eq!(stereo_from_interleaved(&[1, 2, 3, 4], 2), vec![1, 2, 3, 4]);
    assert_eq!(stereo_from_interleaved(&[], 2), Vec::<i16>::new());
}

#[test]
fn first_two_of_many_channels_are_used() {
    let data = [1i16, 2, 3, 4, 5, 6, 7, 8];
    assert_eq!(stereo_from_interleaved(&data, 4), vec![1, 2, 5, 6]);
    // An incomplete last frame still has its first two channels.
    assert_eq!(stereo_from_interleaved(&data, 3), vec![1, 2, 4, 5, 7, 8]);
}

fn buffer(channels: u32, samples: &[i16]) -> CaptureBuffer {
    CaptureBuffer { channels, samples: samples.to_vec() }
}

#[test]
fn one_buffer_per_channel_is_interleaved() {
    let buffers = [buffer(1, &[1, 2, 3]), buffer(1, &[-1, -2]), buffer(1, &[9])];
    assert_eq!(stereo_from_buffers(&buffers), Some(vec![1, -1, 2, -2]));
}

#[test]
fn single_stereo_buffer_passes_through() {
    assert_eq!(stereo_from_buffers(&[buffer(2, &[1, 2, 3, 4])]), Some(vec![1, 2, 3, 4]));
}

#[test]
fn single_mono_buffer_is_doubled() {
    assert_eq!(stereo_from_buffers(&[buffer(1, &[4, 5])]), Some(vec![4, 4, 5, 5]));
    assert_eq!(stereo_from_buffers(&[buffer(0, &[4])]), Some(vec![4, 4]));
}

#[test]
fn no_audio_is_not_handed_on() {
    assert_eq!(stereo_from_buffers(&[]), None);
    assert_eq!(stereo_from_buffers(&[buffer(2, &[])]), None);
    assert_eq!(stereo_from_buffers(&[buffer(1, &[1]), buffer(1, &[])]), None);
}

#[test]
fn peak_is_the_largest_amplitude() {
    assert_eq!(peak_of(&[]), 0);
    assert_eq!(peak_of(&[3, -7, 5]), 7);
    assert_eq!(peak_of(&[i16::MIN, i16::MAX]), 32768);
    assert_eq!(peak_of(&[0, 0]), 0);
}

#[test]
fn peaks_join() {
    let (a, b) = ([3i16, -7], [5i16, 6, -1]);
    let both = [3i16, -7, 5, 6, -1];
    assert_eq!(peak_of(&both), louder_of(peak_of(&a), peak_of(&b)));
    assert_eq!(louder_of(4, 9), 9);
    assert_eq!(louder_of(9, 4), 9);
}
