//! What the audio and network pipelines are set up with.

use vstd::prelude::*;

use crate::state::shared::{CHANNELS, SAMPLE_RATE};

pub mod plan;

verus! {

/// Interleaved samples in a millisecond of stereo.
pub const STEREO_SAMPLES_PER_MS: u64 = 96;

/// How much more than the playout budget a jitter buffer may hold, in ms.
pub const JITTER_SLACK_MS: u64 = 120;

/// Frames in a chunk of the test tone, and how long they last.
pub const TONE_FRAMES: usize = 480;

pub const TONE_CHUNK_US: u64 = 10_000;

/// The milliseconds and the chunk length are those of the stream.
pub proof fn law_units()
    ensures
        STEREO_SAMPLES_PER_MS == SAMPLE_RATE / 1000 * CHANNELS,
        TONE_CHUNK_US == TONE_FRAMES * 1_000_000 / SAMPLE_RATE as int,
{
}

/// Where the sender pulls audio from.
#[derive(Debug)]
pub enum AudioSource {
    /// Capture from an input device (empty string: system default).
    Device(String),
    /// Synthesize a sine test tone of this frequency in Hz, given as the bits of
    /// a float. Lets streaming be verified end to end without a loopback device.
    Tone(u32),
    /// Capture the whole system audio mix. The source keeps playing live.
    System,
    /// Capture through a muted process tap: the source's live output is
    /// silenced, and the delayed monitor replays it in sync with the receivers.
    Tap,
}

impl AudioSource {
    /// The source that the command line asks for.
    pub fn from_flags(tone: bool, tone_freq_bits: u32, input_device: Option<String>) -> (source:
        Self)
        ensures
            match source {
                AudioSource::Tone(bits) => tone && bits == tone_freq_bits,
                AudioSource::Device(name) => !tone && name@ == (match input_device {
                    Some(wanted) => wanted@,
                    None => Seq::<char>::empty(),
                }),
                _ => false,
            },
    {
        if tone {
            AudioSource::Tone(tone_freq_bits)
        } else {
            match input_device {
                Some(name) => AudioSource::Device(name),
                None => AudioSource::Device(String::new()),
            }
        }
    }

    /// Whether the source's own audio is played by a delayed monitor. The system
    /// mix plays live already: a second, offset copy of it would be an echo.
    pub fn needs_monitor(&self) -> (r: bool)
        ensures
            r == !(*self is System),
    {
        match self {
            AudioSource::System => false,
            _ => true,
        }
    }
}

/// The playout budget in microseconds.
pub fn budget_us(playout_delay_ms: u64) -> (us: u64)
    requires
        playout_delay_ms * 1000 <= u64::MAX,
    ensures
        us == playout_delay_ms * 1000,
{
    playout_delay_ms * 1000
}

/// Hard cap for a jitter buffer: the budget and 120 ms of stereo audio, in
/// interleaved samples. Bounds added latency so a network burst cannot push
/// playback permanently behind the intended playout point.
pub fn jitter_cap_samples(budget_ms: u64) -> (samples: usize)
    requires
        (budget_ms + JITTER_SLACK_MS) * STEREO_SAMPLES_PER_MS <= usize::MAX,
    ensures
        samples == (budget_ms + JITTER_SLACK_MS) * STEREO_SAMPLES_PER_MS,
{
    ((budget_ms + JITTER_SLACK_MS) * STEREO_SAMPLES_PER_MS) as usize
}

/// The cap is whole stereo frames, so what it pushes out is whole frames too,
/// and the audio of the budget fits below it.
pub proof fn law_cap_is_whole_frames(budget_ms: u64)
    ensures
        (budget_ms + JITTER_SLACK_MS) * STEREO_SAMPLES_PER_MS % 2 == 0,
        budget_ms * STEREO_SAMPLES_PER_MS < (budget_ms + JITTER_SLACK_MS) * STEREO_SAMPLES_PER_MS,
{
}

/// When the chunk after the next is due, given when the next was and the time
/// now: a chunk later, but not before now.
pub open spec fn due_after(next_us: u64, now_us: u64) -> int {
    if next_us + TONE_CHUNK_US > now_us {
        next_us + TONE_CHUNK_US
    } else {
        now_us as int
    }
}

/// Paces the test tone to real time, so that it does not flood the channel.
pub struct TonePacer {
    next_us: u64,
}

impl TonePacer {
    /// When the next chunk is due.
    pub closed spec fn next(&self) -> u64 {
        self.next_us
    }

    pub fn new(now_us: u64) -> (pacer: Self)
        ensures
            pacer.next() == now_us,
    {
        TonePacer { next_us: now_us }
    }

    /// When the next chunk is due.
    pub fn next_us(&self) -> (us: u64)
        ensures
            us == self.next(),
    {
        self.next_us
    }

    /// A chunk was made. Returns how long to wait before the next one.
    pub fn pace(&mut self, now_us: u64) -> (wait_us: u64)
        requires
            old(self).next() + TONE_CHUNK_US <= u64::MAX,
        ensures
            final(self).next() == due_after(old(self).next(), now_us),
            wait_us == final(self).next() - now_us,
    {
        self.next_us = self.next_us + TONE_CHUNK_US;
        if self.next_us > now_us {
            self.next_us - now_us
        } else {
            self.next_us = now_us;
            0
        }
    }
}

/// The chunk after the next is due a chunk's length later or now, whichever is
/// later: the tone neither runs ahead of time nor tries to make up for lost time.
pub proof fn law_tone_keeps_time(next_us: u64, now_us: u64)
    ensures
        due_after(next_us, now_us) >= now_us,
        due_after(next_us, now_us) >= next_us + 10_000,
        due_after(next_us, now_us) == now_us || due_after(next_us, now_us) == next_us + 10_000,
{
}

} // verus!
