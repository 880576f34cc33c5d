//! Captured samples as interleaved stereo.

use vstd::prelude::*;

verus! {

/// A buffer that an audio source hands over: its samples, and how many channels
/// are interleaved in them.
#[derive(Debug, Clone)]
pub struct CaptureBuffer {
    pub channels: u32,
    pub samples: Vec<i16>,
}

/// Every sample twice: mono as stereo.
pub open spec fn doubled(samples: Seq<i16>) -> Seq<i16> {
    Seq::new(2 * samples.len(), |i: int| samples[i / 2])
}

/// Two channels as one interleaved sequence, as long as both last.
pub open spec fn interleaved(left: Seq<i16>, right: Seq<i16>) -> Seq<i16> {
    let frames = if left.len() < right.len() {
        left.len()
    } else {
        right.len()
    };
    Seq::new(
        2 * frames,
        |i: int|
            if i % 2 == 0 {
                left[i / 2]
            } else {
                right[i / 2]
            },
    )
}

/// How many frames of `channels` samples `len` samples make, the last one
/// counted also where it is not whole.
pub open spec fn frame_total(len: nat, channels: nat) -> nat {
    (len + channels - 1) as nat / channels
}

/// The first two channels of every frame; a single channel twice.
pub open spec fn first_two(data: Seq<i16>, channels: nat) -> Seq<i16> {
    if channels == 1 {
        doubled(data)
    } else {
        Seq::new(
            2 * frame_total(data.len(), channels),
            |i: int| data[(i / 2) * channels + i % 2],
        )
    }
}

/// Every sample twice.
fn double(samples: &[i16]) -> (out: Vec<i16>)
    ensures
        out@ == doubled(samples@),
{
    let mut out: Vec<i16> = Vec::new();
    let mut i: usize = 0;
    while i < samples.len()
        invariant
            i <= samples@.len(),
            out@.len() == 2 * i,
            forall|j: int| 0 <= j < 2 * i ==> #[trigger] out@[j] == samples@[j / 2],
        decreases samples@.len() - i,
    {
        out.push(samples[i]);
        out.push(samples[i]);
        i = i + 1;
    }
    assert(out@ =~= doubled(samples@));
    out
}

/// Two channels as one interleaved sequence.
fn interleave(left: &[i16], right: &[i16]) -> (out: Vec<i16>)
    ensures
        out@ == interleaved(left@, right@),
{
    let frames: usize = if left.len() < right.len() {
        left.len()
    } else {
        right.len()
    };
    let mut out: Vec<i16> = Vec::new();
    let mut i: usize = 0;
    while i < frames
        invariant
            i <= frames,
            frames <= left@.len(),
            frames <= right@.len(),
            out@.len() == 2 * i,
            forall|j: int|
                0 <= j < 2 * i ==> #[trigger] out@[j] == (if j % 2 == 0 {
                    left@[j / 2]
                } else {
                    right@[j / 2]
                }),
        decreases frames - i,
    {
        out.push(left[i]);
        out.push(right[i]);
        i = i + 1;
    }
    assert(out@ =~= interleaved(left@, right@));
    out
}

/// One device callback's samples as interleaved stereo: mono is doubled, and of
/// more than two channels the first two are used.
pub fn stereo_from_interleaved(data: &[i16], channels: usize) -> (out: Vec<i16>)
    requires
        channels >= 1,
        channels >= 2 ==> data@.len() % channels as nat != 1,
    ensures
        out@ == first_two(data@, channels as nat),
{
    if channels == 1 {
        return double(data);
    }
    let len: usize = data.len();
    let mut out: Vec<i16> = Vec::new();
    let ghost mut f: int = 0;
    let mut at: usize = 0;
    let mut more: bool = len > 0;
    proof {
        lemma_no_frame(channels as int);
    }
    while more
        invariant
            len == data@.len(),
            channels >= 2,
            len as nat % channels as nat != 1,
            f >= 0,
            more ==> at < len && at == f * channels,
            !more ==> f == frame_total(len as nat, channels as nat),
            out@.len() == 2 * f,
            forall|j: int|
                0 <= j < 2 * f ==> #[trigger] out@[j] == data@[(j / 2) * channels + j % 2],
        decreases if more { len - at } else { 0 },
    {
        proof {
            lemma_frame_holds_two(len as int, channels as int, f);
        }
        let ghost before = out@;
        out.push(data[at]);
        out.push(data[at + 1]);
        proof {
            assert forall|j: int| 0 <= j < 2 * (f + 1) implies #[trigger] out@[j] == data@[(j / 2)
                * channels + j % 2] by {
                if j < 2 * f {
                    assert(out@[j] == before[j]);
                } else {
                    assert(j / 2 == f);
                }
            }
            f = f + 1;
            assert(f * channels == (f - 1) * channels + channels) by (nonlinear_arith);
        }
        if len - at > channels {
            at = at + channels;
        } else {
            more = false;
            proof {
                lemma_last_frame(len as int, channels as int, f);
            }
        }
    }
    assert(out@ =~= first_two(data@, channels as nat));
    out
}

/// A frame that starts inside the data has two samples, unless the data ends
/// with a single one.
proof fn lemma_frame_holds_two(len: int, channels: int, f: int)
    requires
        channels >= 2,
        f >= 0,
        f * channels < len,
        len % channels != 1,
    ensures
        f * channels + 1 < len,
{
    if f * channels + 1 == len {
        assert(len % channels == 1) by (nonlinear_arith)
            requires
                len == f * channels + 1,
                channels >= 2,
        ;
    }
}

proof fn lemma_last_frame(len: int, channels: int, f: int)
    requires
        channels >= 2,
        f >= 1,
        (f - 1) * channels < len <= f * channels,
    ensures
        f == frame_total(len as nat, channels as nat),
{
    let n = len + channels - 1;
    assert(n / channels == f) by (nonlinear_arith)
        requires
            channels >= 2,
            n == len + channels - 1,
            (f - 1) * channels < len <= f * channels,
    ;
}

proof fn lemma_no_frame(channels: int)
    requires
        channels >= 2,
    ensures
        frame_total(0, channels as nat) == 0,
{
    assert((channels - 1) / channels == 0) by (nonlinear_arith)
        requires
            channels >= 2,
    ;
}

/// The stereo audio in the buffers of one capture callback: one buffer per
/// channel, or a single buffer with stereo or mono in it.
pub open spec fn stereo_of(buffers: Seq<CaptureBuffer>) -> Seq<i16> {
    if buffers.len() == 0 {
        Seq::empty()
    } else if buffers.len() >= 2 {
        interleaved(buffers[0].samples@, buffers[1].samples@)
    } else if buffers[0].channels >= 2 {
        buffers[0].samples@
    } else {
        doubled(buffers[0].samples@)
    }
}

/// The stereo audio in the buffers of one capture callback, if there is any.
pub fn stereo_from_buffers(buffers: &[CaptureBuffer]) -> (out: Option<Vec<i16>>)
    ensures
        match out {
            Some(audio) => audio@ == stereo_of(buffers@) && audio@.len() > 0,
            None => stereo_of(buffers@).len() == 0,
        },
{
    let audio: Vec<i16> = if buffers.len() == 0 {
        Vec::new()
    } else if buffers.len() >= 2 {
        interleave(buffers[0].samples.as_slice(), buffers[1].samples.as_slice())
    } else if buffers[0].channels >= 2 {
        vstd::slice::slice_to_vec(buffers[0].samples.as_slice())
    } else {
        double(buffers[0].samples.as_slice())
    };
    if audio.len() == 0 {
        None
    } else {
        Some(audio)
    }
}

/// What a capture callback hands on is whole stereo frames, if a single buffer
/// of interleaved stereo holds whole frames itself.
pub proof fn law_captured_frames_are_whole(buffers: Seq<CaptureBuffer>)
    requires
        buffers.len() == 1 && buffers[0].channels >= 2 ==> buffers[0].samples@.len() % 2 == 0,
    ensures
        stereo_of(buffers).len() % 2 == 0,
{
}

/// Where the captured samples stand in the stereo audio: frame `f` of mono is
/// sample `f` twice, of two buffers the samples `f` of both, of more channels the
/// first two samples of frame `f`. No whole frame is left out.
pub proof fn law_captured_samples_keep_their_place(
    left: Seq<i16>,
    right: Seq<i16>,
    channels: nat,
    f: int,
)
    requires
        0 <= f,
        channels >= 2,
    ensures
        doubled(left).len() == 2 * left.len(),
        f < left.len() ==> doubled(left)[2 * f] == left[f] && doubled(left)[2 * f + 1] == left[f],
        first_two(left, 1) == doubled(left),
        f < left.len() && f < right.len() <==> 2 * f < interleaved(left, right).len(),
        interleaved(left, right).len() % 2 == 0,
        f < left.len() && f < right.len() ==> interleaved(left, right)[2 * f] == left[f]
            && interleaved(left, right)[2 * f + 1] == right[f],
        f * channels < left.len() <==> 2 * f < first_two(left, channels).len(),
        first_two(left, channels).len() % 2 == 0,
        f * channels < left.len() ==> first_two(left, channels)[2 * f] == left[f * channels]
            && first_two(left, channels)[2 * f + 1] == left[f * channels + 1],
{
    let c = channels as int;
    let n = left.len() + c - 1;
    assert(f * c < left.len() <==> f < n / c) by (nonlinear_arith)
        requires
            0 <= f,
            c >= 2,
            n == left.len() + c - 1,
    ;
}

/// Which of the buffers of a callback are heard: two or more are left and right, a
/// single one is stereo as it is, or mono for both sides.
pub proof fn law_buffers_are_heard(buffers: Seq<CaptureBuffer>)
    ensures
        buffers.len() == 0 ==> stereo_of(buffers).len() == 0,
        buffers.len() >= 2 ==> stereo_of(buffers) == interleaved(
            buffers[0].samples@,
            buffers[1].samples@,
        ),
        buffers.len() == 1 && buffers[0].channels >= 2 ==> stereo_of(buffers)
            == buffers[0].samples@,
        buffers.len() == 1 && buffers[0].channels < 2 ==> stereo_of(buffers) == doubled(
            buffers[0].samples@,
        ),
{
}

} // verus!
