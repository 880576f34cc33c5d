//! What an audio output plays in a callback.

use vstd::prelude::*;

use crate::audio::resampler::{pairs_at, position, ResamplerView, StereoResampler};
use crate::state::gate::PlayoutGate;
use crate::state::jitter::JitterBuffer;

verus! {

/// What an output callback at `now_us` plays: the input frames around each of its
/// output frames, or silence.
///
/// It is silent when told to stop, and until the common start instant. It then
/// takes nothing from the jitter buffer, which fills up meanwhile.
pub fn play(
    stop: bool,
    gate: &mut PlayoutGate,
    now_us: u64,
    resampler: &mut StereoResampler,
    jitter: &mut JitterBuffer,
    need: usize,
    steps: &[usize],
) -> (pairs: Option<Vec<((i16, i16), (i16, i16))>>)
    requires
        4 * need <= isize::MAX,
    ensures
        final(gate)@ == (if stop {
            old(gate)@
        } else {
            old(gate)@.asked(now_us)
        }),
        stop || !old(gate)@.plays(now_us) ==> {
            &&& pairs is None
            &&& final(resampler)@ == old(resampler)@
            &&& final(jitter)@ == old(jitter)@
        },
        !stop && old(gate)@.plays(now_us) ==> {
            let stream = old(resampler)@.stream(old(jitter)@.samples, need as nat);
            let deficit = old(resampler)@.deficit(need as nat);
            &&& pairs is Some
            &&& pairs->Some_0@ == pairs_at(stream, steps@)
            &&& final(resampler)@ == ResamplerView::at(
                stream,
                position(steps@, steps@.len() as int),
            )
            &&& final(jitter)@ == (if deficit > 0 {
                old(jitter)@.popped(2 * deficit)
            } else {
                old(jitter)@
            })
        },
{
    if stop {
        return None;
    }
    if !gate.should_play(now_us) {
        return None;
    }
    Some(resampler.fill(jitter, need, steps))
}

/// The buffer `output`, `channels` samples a frame, after `frames` were put into
/// its first two channels, or the left halves into its only one. Further
/// channels stay as they are.
pub open spec fn with_frames<T>(output: Seq<T>, channels: nat, frames: Seq<(T, T)>) -> Seq<T> {
    Seq::new(
        output.len(),
        |k: int|
            if k / channels as int >= frames.len() {
                output[k]
            } else if k % channels as int == 0 {
                frames[k / channels as int].0
            } else if k % channels as int == 1 {
                frames[k / channels as int].1
            } else {
                output[k]
            },
    )
}

/// Put stereo frames into an interleaved output buffer.
pub fn place_frames<T: Copy>(output: &mut [T], channels: usize, frames: &[(T, T)])
    requires
        channels >= 1,
        frames@.len() * channels <= old(output)@.len(),
    ensures
        final(output)@ == with_frames(old(output)@, channels as nat, frames@),
{
    let ghost before = output@;
    let ghost c = channels as int;
    let mut i: usize = 0;
    let mut at: usize = 0;
    assert(output@ =~= with_frames(before, channels as nat, frames@.take(0))) by {
        assert forall|k: int| 0 <= k < before.len() implies #[trigger] (k / c) >= 0 by {
            vstd::arithmetic::div_mod::lemma_div_pos_is_pos(k, c);
        }
    }
    while i < frames.len()
        invariant
            i <= frames@.len(),
            c == channels,
            channels >= 1,
            at == i * c,
            frames@.len() * c <= before.len(),
            output@ == with_frames(before, channels as nat, frames@.take(i as int)),
            output@.len() == before.len(),
        decreases frames@.len() - i,
    {
        let frame: (T, T) = frames[i];
        assert(i * c + c <= frames@.len() * c) by (nonlinear_arith)
            requires
                i < frames@.len(),
                c >= 1,
        ;
        let ghost so_far = output@;
        output[at] = frame.0;
        if channels >= 2 {
            output[at + 1] = frame.1;
        }
        proof {
            let more = frames@.take(i + 1);
            assert forall|k: int| 0 <= k < before.len() implies #[trigger] output@[k]
                == with_frames(before, channels as nat, more)[k] by {
                lemma_place(k, c, i as int);
                lemma_place(at as int, c, i as int);
                if k / c < i {
                    assert(more[k / c] == frames@.take(i as int)[k / c]);
                }
                assert(so_far[k] == with_frames(
                    before,
                    channels as nat,
                    frames@.take(i as int),
                )[k]);
            }
            assert(output@ =~= with_frames(before, channels as nat, more));
            assert((i + 1) * c == i * c + c) by (nonlinear_arith);
        }
        at = at + channels;
        i = i + 1;
    }
    assert(frames@.take(i as int) =~= frames@);
}

/// Sample `k` belongs to frame `i` exactly if it is one of the `c` samples from
/// `i * c` on, and its channel is its distance from there.
proof fn lemma_place(k: int, c: int, i: int)
    requires
        0 <= k,
        c >= 1,
        0 <= i,
    ensures
        k / c == i <==> i * c <= k < i * c + c,
        k / c == i ==> k % c == k - i * c,
        0 <= k % c < c,
{
    let q = k / c;
    let r = k % c;
    vstd::arithmetic::div_mod::lemma_fundamental_div_mod(k, c);
    vstd::arithmetic::div_mod::lemma_mod_bound(k, c);
    assert(q * c == c * q) by (nonlinear_arith);
    assert(q == i <==> i * c <= k < i * c + c) by (nonlinear_arith)
        requires
            k == c * q + r,
            0 <= r < c,
            c >= 1,
    ;
}

/// Frame `f` goes to the first two channels of place `f`, its left half alone where
/// there is one channel; everything else stays.
pub proof fn law_frames_go_to_their_place<T>(
    output: Seq<T>,
    channels: nat,
    frames: Seq<(T, T)>,
    f: int,
    c: int,
)
    requires
        0 <= f,
        0 <= c < channels,
        f * channels + c < output.len(),
    ensures
        with_frames(output, channels, frames).len() == output.len(),
        with_frames(output, channels, frames)[f * channels + c] == (if f >= frames.len() || c >= 2 {
            output[f * channels + c]
        } else if c == 0 {
            frames[f].0
        } else {
            frames[f].1
        }),
{
    assert(0 <= f * channels) by (nonlinear_arith)
        requires
            0 <= f,
    ;
    lemma_place(f * channels + c, channels as int, f);
}

} // verus!
