//! Which input frames each output frame lies between.

use std::collections::VecDeque;

use vstd::prelude::*;

use crate::state::jitter::{after_pop, taken, JitterBuffer, JitterView};

verus! {

/// The stereo frames that interleaved samples make.
pub open spec fn frames_of(samples: Seq<i16>) -> Seq<(i16, i16)> {
    Seq::new(samples.len() / 2, |f: int| (samples[2 * f], samples[2 * f + 1]))
}

/// Frame `i` of `stream`, with silence behind its end.
pub open spec fn frame_at(stream: Seq<(i16, i16)>, i: int) -> (i16, i16) {
    if 0 <= i < stream.len() {
        stream[i]
    } else {
        (0, 0)
    }
}

/// What is left of `stream` from frame `i` on.
pub open spec fn rest_from(stream: Seq<(i16, i16)>, i: int) -> Seq<(i16, i16)> {
    if 0 <= i <= stream.len() {
        stream.skip(i)
    } else {
        Seq::empty()
    }
}

/// How far the first `n` output frames move the read position.
pub open spec fn position(steps: Seq<usize>, n: int) -> int
    decreases n,
{
    if n <= 0 {
        0
    } else {
        position(steps, n - 1) + steps[n - 1]
    }
}

/// The two frames of `stream` around each output frame.
pub open spec fn pairs_at(stream: Seq<(i16, i16)>, steps: Seq<usize>) -> Seq<
    ((i16, i16), (i16, i16)),
> {
    Seq::new(
        steps.len(),
        |i: int|
            (frame_at(stream, position(steps, i)), frame_at(stream, position(steps, i) + 1)),
    )
}

/// What a [`StereoResampler`] holds.
#[verifier::ext_equal]
pub struct ResamplerView {
    /// Input frames that were fetched and not used yet, oldest first.
    pub residual: Seq<(i16, i16)>,
    /// The two input frames around the read position.
    pub cur: (i16, i16),
    pub next: (i16, i16),
    /// Whether `cur` and `next` are input frames already.
    pub primed: bool,
}

impl ResamplerView {
    pub open spec fn fresh() -> ResamplerView {
        ResamplerView { residual: Seq::empty(), cur: (0, 0), next: (0, 0), primed: false }
    }

    /// How many frames are missing for `need` frames to wait.
    pub open spec fn deficit(self, need: nat) -> nat {
        if self.residual.len() < need {
            (need - self.residual.len()) as nat
        } else {
            0
        }
    }

    /// The input frames from the read position on, after what is missing for
    /// `need` frames was fetched from a jitter buffer that holds `held`.
    pub open spec fn stream(self, held: Seq<i16>, need: nat) -> Seq<(i16, i16)> {
        let waiting = self.residual + frames_of(taken(held, 2 * self.deficit(need)));
        if self.primed {
            seq![self.cur, self.next] + waiting
        } else {
            waiting
        }
    }

    /// The state at frame `at` of `stream`.
    pub open spec fn at(stream: Seq<(i16, i16)>, at: int) -> ResamplerView {
        ResamplerView {
            residual: rest_from(stream, at + 2),
            cur: frame_at(stream, at),
            next: frame_at(stream, at + 1),
            primed: true,
        }
    }
}

/// Stateful frame source of a linear-interpolation resampler for a fixed-output
/// audio callback.
///
/// Each output frame lies between two input frames, and moves the read position
/// on by some whole number of frames, mostly one. Values slightly above or below
/// one input frame per output frame on average speed playback up or slow it down
/// to keep the jitter buffer at its target fill level.
pub struct StereoResampler {
    residual: VecDeque<(i16, i16)>,
    cur: (i16, i16),
    next: (i16, i16),
    primed: bool,
}

impl View for StereoResampler {
    type V = ResamplerView;

    closed spec fn view(&self) -> ResamplerView {
        ResamplerView {
            residual: self.residual@,
            cur: self.cur,
            next: self.next,
            primed: self.primed,
        }
    }
}

impl StereoResampler {
    pub fn new() -> (resampler: Self)
        ensures
            resampler@ == ResamplerView::fresh(),
    {
        StereoResampler { residual: VecDeque::new(), cur: (0, 0), next: (0, 0), primed: false }
    }

    /// Take the next waiting frame; silence where none waits.
    fn pop_input(&mut self) -> (frame: (i16, i16))
        ensures
            frame == frame_at(old(self)@.residual, 0),
            final(self)@ == (ResamplerView {
                residual: rest_from(old(self)@.residual, 1),
                ..old(self)@
            }),
    {
        match self.residual.pop_front() {
            Some(frame) => frame,
            None => (0, 0),
        }
    }

    /// Fetch what is missing for `need` frames to wait, in one go.
    fn top_up(&mut self, jitter: &mut JitterBuffer, need: usize)
        requires
            4 * need <= isize::MAX,
        ensures
            final(self)@ == (ResamplerView {
                residual: old(self)@.residual + frames_of(
                    taken(old(jitter)@.samples, 2 * old(self)@.deficit(need as nat)),
                ),
                ..old(self)@
            }),
            final(jitter)@ == (if old(self)@.deficit(need as nat) > 0 {
                old(jitter)@.popped(2 * old(self)@.deficit(need as nat))
            } else {
                old(jitter)@
            }),
    {
        let ghost before = self@;
        if self.residual.len() < need {
            let deficit: usize = need - self.residual.len();
            let mut tmp: Vec<i16> = vec![0i16; deficit * 2];
            let _ = jitter.pop_samples(tmp.as_mut_slice());
            let ghost fetched = frames_of(tmp@);
            let mut f: usize = 0;
            while f < deficit
                invariant
                    f <= deficit,
                    tmp@.len() == 2 * deficit,
                    2 * deficit <= isize::MAX,
                    fetched == frames_of(tmp@),
                    self@ == (ResamplerView {
                        residual: before.residual + fetched.take(f as int),
                        ..before
                    }),
                decreases deficit - f,
            {
                self.residual.push_back((tmp[f * 2], tmp[f * 2 + 1]));
                assert(fetched.take(f + 1) =~= fetched.take(f as int).push(fetched[f as int]));
                assert(self.residual@ =~= before.residual + fetched.take(f + 1));
                f = f + 1;
            }
            assert(fetched.take(f as int) =~= fetched);
        } else {
            assert(self@.residual =~= before.residual + frames_of(taken(jitter@.samples, 0)));
        }
    }

    /// The input frames around each output frame.
    ///
    /// Fetches from `jitter` at most once, so that at least `need` frames wait.
    /// Output frame `i` lies between the frames at the read position, and then
    /// moves it on by `steps[i]`. Frames that are missing are silence.
    pub fn fill(&mut self, jitter: &mut JitterBuffer, need: usize, steps: &[usize]) -> (pairs: Vec<
        ((i16, i16), (i16, i16)),
    >)
        requires
            4 * need <= isize::MAX,
        ensures
            ({
                let stream = old(self)@.stream(old(jitter)@.samples, need as nat);
                let deficit = old(self)@.deficit(need as nat);
                &&& pairs@ == pairs_at(stream, steps@)
                &&& final(self)@ == ResamplerView::at(
                    stream,
                    position(steps@, steps@.len() as int),
                )
                &&& final(jitter)@ == (if deficit > 0 {
                    old(jitter)@.popped(2 * deficit)
                } else {
                    old(jitter)@
                })
            }),
    {
        let ghost stream = self@.stream(jitter@.samples, need as nat);
        self.top_up(jitter, need);
        if !self.primed {
            self.cur = self.pop_input();
            self.next = self.pop_input();
            self.primed = true;
        }
        assert(self@ =~= ResamplerView::at(stream, 0));
        let mut pairs: Vec<((i16, i16), (i16, i16))> = Vec::new();
        let mut i: usize = 0;
        while i < steps.len()
            invariant
                i <= steps@.len(),
                position(steps@, i as int) >= 0,
                self@ == ResamplerView::at(stream, position(steps@, i as int)),
                pairs@.len() == i,
                forall|j: int|
                    0 <= j < i ==> #[trigger] pairs@[j] == pairs_at(stream, steps@)[j],
            decreases steps@.len() - i,
        {
            pairs.push((self.cur, self.next));
            let mut k: usize = 0;
            while k < steps[i]
                invariant
                    i < steps@.len(),
                    k <= steps@[i as int],
                    position(steps@, i as int) >= 0,
                    self@ == ResamplerView::at(stream, position(steps@, i as int) + k),
                decreases steps@[i as int] - k,
            {
                let ghost at = position(steps@, i as int) + k;
                self.cur = self.next;
                self.next = self.pop_input();
                assert(self@ =~= ResamplerView::at(stream, at + 1));
                k = k + 1;
            }
            i = i + 1;
        }
        assert(pairs@ =~= pairs_at(stream, steps@));
        pairs
    }
}

impl Default for StereoResampler {
    fn default() -> (resampler: Self)
        ensures
            resampler@ == ResamplerView::fresh(),
    {
        StereoResampler::new()
    }
}

/// No frame is skipped or played twice at the seam between two callbacks: as
/// long as input lasts, the next callback goes on in the stream where this one
/// stopped.
pub proof fn law_callbacks_join(
    resampler: ResamplerView,
    held: Seq<i16>,
    need: nat,
    at: int,
    later_held: Seq<i16>,
    later_need: nat,
)
    requires
        0 <= at,
        at + 2 <= resampler.stream(held, need).len(),
    ensures
        ({
            let stream = resampler.stream(held, need);
            let after = ResamplerView::at(stream, at);
            after.stream(later_held, later_need) == stream.skip(at) + frames_of(
                taken(later_held, 2 * after.deficit(later_need)),
            )
        }),
{
    let stream = resampler.stream(held, need);
    let after = ResamplerView::at(stream, at);
    assert(after.stream(later_held, later_need) =~= stream.skip(at) + frames_of(
        taken(later_held, 2 * after.deficit(later_need)),
    ));
}

/// Sample `i` of `held`, with silence behind its end.
pub open spec fn sample_at(held: Seq<i16>, i: int) -> i16 {
    if 0 <= i < held.len() {
        held[i]
    } else {
        0
    }
}

impl ResamplerView {
    /// The input frames from the read position on that were fetched already.
    pub open spec fn fetched(self) -> Seq<(i16, i16)> {
        if self.primed {
            seq![self.cur, self.next] + self.residual
        } else {
            self.residual
        }
    }

    /// Input frame `i` from the read position on, whenever it is fetched from a
    /// jitter buffer that holds `held`.
    pub open spec fn upcoming(self, held: Seq<i16>, i: int) -> (i16, i16) {
        let n = self.fetched().len();
        if i < n {
            self.fetched()[i]
        } else {
            (sample_at(held, 2 * (i - n)), sample_at(held, 2 * (i - n) + 1))
        }
    }

    /// After output frames with `steps`, with at least `need` frames waiting.
    pub open spec fn filled(self, held: Seq<i16>, need: nat, steps: Seq<usize>) -> ResamplerView {
        ResamplerView::at(self.stream(held, need), position(steps, steps.len() as int))
    }

    /// What the jitter buffer holds after what is missing for `need` frames to
    /// wait was fetched.
    pub open spec fn held_after(self, held: Seq<i16>, need: nat) -> Seq<i16> {
        after_pop(held, 2 * self.deficit(need))
    }
}

/// A callback that fetches enough plays the frames that come next, whatever is
/// fetched when, and leaves what comes after them to the next callback.
pub proof fn law_callback_plays_what_comes(
    resampler: ResamplerView,
    held: Seq<i16>,
    need: nat,
    steps: Seq<usize>,
    i: int,
)
    requires
        position(steps, steps.len() as int) + 2 <= need,
        0 <= i,
    ensures
        ({
            let pairs = pairs_at(resampler.stream(held, need), steps);
            let after = resampler.filled(held, need, steps);
            let at = position(steps, i);
            &&& i < steps.len() ==> pairs[i] == (
                resampler.upcoming(held, at),
                resampler.upcoming(held, at + 1),
            )
            &&& after.upcoming(resampler.held_after(held, need), i) == resampler.upcoming(
                held,
                position(steps, steps.len() as int) + i,
            )
        }),
{
    let stream = resampler.stream(held, need);
    let p = position(steps, steps.len() as int);
    let deficit = resampler.deficit(need);
    let samples = taken(held, 2 * deficit);
    let after = resampler.filled(held, need, steps);
    assert(stream =~= resampler.fetched() + frames_of(samples));
    assert forall|j: int| 0 <= j < stream.len() implies #[trigger] stream[j] == resampler.upcoming(
        held,
        j,
    ) by {
        let f = j - resampler.fetched().len();
        if f >= 0 {
            assert(frames_of(samples)[f] == (samples[2 * f], samples[2 * f + 1]));
        }
    }
    law_fetching_once_is_enough(resampler, held, need, steps, steps.len() as int);
    if i < steps.len() {
        law_fetching_once_is_enough(resampler, held, need, steps, i);
    }
    assert(after.fetched() =~= stream.skip(p));
}

/// How the output is cut into callbacks cannot be heard: filling the frames of
/// `first` and then those of `second` gives the frames of filling them all at
/// once, and what comes after them is the same, too.
#[verifier::rlimit(40)]
pub proof fn law_cut_into_callbacks_is_silent(
    resampler: ResamplerView,
    held: Seq<i16>,
    first: Seq<usize>,
    second: Seq<usize>,
    need_whole: nat,
    need_first: nat,
    need_second: nat,
)
    requires
        position(first + second, (first + second).len() as int) + 2 <= need_whole,
        position(first, first.len() as int) + 2 <= need_first,
        position(second, second.len() as int) + 2 <= need_second,
    ensures
        ({
            let whole = pairs_at(resampler.stream(held, need_whole), first + second);
            let between = resampler.filled(held, need_first, first);
            let held_between = resampler.held_after(held, need_first);
            let after_whole = resampler.filled(held, need_whole, first + second);
            let after_parts = between.filled(held_between, need_second, second);
            &&& whole == pairs_at(resampler.stream(held, need_first), first) + pairs_at(
                between.stream(held_between, need_second),
                second,
            )
            &&& forall|i: int|
                0 <= i ==> #[trigger] after_parts.upcoming(
                    between.held_after(held_between, need_second),
                    i,
                ) == after_whole.upcoming(resampler.held_after(held, need_whole), i)
        }),
{
    let both = first + second;
    let n = first.len() as int;
    let whole = pairs_at(resampler.stream(held, need_whole), both);
    let one = pairs_at(resampler.stream(held, need_first), first);
    let between = resampler.filled(held, need_first, first);
    let held_between = resampler.held_after(held, need_first);
    let two = pairs_at(between.stream(held_between, need_second), second);
    assert forall|i: int| 0 <= i < both.len() implies #[trigger] whole[i] == (one + two)[i] by {
        law_callback_plays_what_comes(resampler, held, need_whole, both, i);
        lemma_position_joins(first, second, i);
        if i < n {
            law_callback_plays_what_comes(resampler, held, need_first, first, i);
        } else {
            let at = position(second, i - n);
            law_callback_plays_what_comes(between, held_between, need_second, second, i - n);
            lemma_position_grows(second, 0, i - n);
            law_callback_plays_what_comes(resampler, held, need_first, first, at);
            law_callback_plays_what_comes(resampler, held, need_first, first, at + 1);
        }
    }
    assert(whole =~= one + two);
    let after_whole = resampler.filled(held, need_whole, both);
    let after_parts = between.filled(held_between, need_second, second);
    let held_parts = between.held_after(held_between, need_second);
    assert forall|i: int| 0 <= i implies #[trigger] after_parts.upcoming(held_parts, i)
        == after_whole.upcoming(resampler.held_after(held, need_whole), i) by {
        let end = position(second, second.len() as int);
        lemma_position_joins(first, second, both.len() as int);
        lemma_position_grows(second, 0, second.len() as int);
        law_callback_plays_what_comes(resampler, held, need_whole, both, i);
        law_callback_plays_what_comes(between, held_between, need_second, second, i);
        law_callback_plays_what_comes(resampler, held, need_first, first, end + i);
    }
}

proof fn lemma_position_joins(first: Seq<usize>, second: Seq<usize>, i: int)
    requires
        0 <= i <= first.len() + second.len(),
    ensures
        position(first + second, i) == (if i <= first.len() {
            position(first, i)
        } else {
            position(first, first.len() as int) + position(second, i - first.len())
        }),
    decreases i,
{
    if i > 0 {
        lemma_position_joins(first, second, i - 1);
        assert(position(second, 0) == 0);
        if i > first.len() {
            assert((first + second)[i - 1] == second[i - 1 - first.len()]);
        }
    }
}

/// At one input frame per output frame the stream passes through unchanged.
pub proof fn law_unit_steps_pass_through(steps: Seq<usize>, n: int)
    requires
        0 <= n <= steps.len(),
        forall|i: int| 0 <= i < steps.len() ==> steps[i] == 1,
    ensures
        position(steps, n) == n,
    decreases n,
{
    if n > 0 {
        law_unit_steps_pass_through(steps, n - 1);
    }
}

/// Fetching once is enough: where as many frames wait as the output frames move
/// the read position, and two more, no output frame lies beyond the stream.
pub proof fn law_fetching_once_is_enough(
    resampler: ResamplerView,
    held: Seq<i16>,
    need: nat,
    steps: Seq<usize>,
    n: int,
)
    requires
        0 <= n <= steps.len(),
        position(steps, steps.len() as int) + 2 <= need,
    ensures
        0 <= position(steps, n),
        position(steps, n) + 1 < resampler.stream(held, need).len(),
{
    lemma_position_grows(steps, n, steps.len() as int);
}

proof fn lemma_position_grows(steps: Seq<usize>, n: int, m: int)
    requires
        0 <= n <= m <= steps.len(),
    ensures
        0 <= position(steps, n) <= position(steps, m),
    decreases m,
{
    if n < m {
        lemma_position_grows(steps, n, m - 1);
    } else if n > 0 {
        lemma_position_grows(steps, n - 1, n - 1);
    }
}

/// A fresh resampler starts with the oldest frame of the jitter buffer.
pub proof fn law_starts_with_the_oldest_frame(held: Seq<i16>, need: nat)
    requires
        2 <= 2 * need <= held.len(),
    ensures
        frame_at(ResamplerView::fresh().stream(held, need), 0) == (held[0], held[1]),
{
    let samples = taken(held, 2 * need);
    assert(ResamplerView::fresh().stream(held, need) =~= frames_of(samples));
    assert(frames_of(samples)[0] == (samples[0], samples[1]));
}

/// The read position moves by the steps, one after another.
pub proof fn law_position_is_the_sum_of_steps(steps: Seq<usize>, n: int)
    requires
        0 <= n < steps.len(),
    ensures
        position(steps, 0) == 0,
        position(steps, n + 1) == position(steps, n) + steps[n],
{
}

/// All that an output could play, in one piece: what was fetched, then what the
/// jitter buffer holds.
pub open spec fn all_frames(
    primed: bool,
    cur: (i16, i16),
    next: (i16, i16),
    residual: Seq<(i16, i16)>,
    held: Seq<i16>,
) -> Seq<(i16, i16)> {
    (if primed {
        seq![cur, next]
    } else {
        seq![]
    }) + residual + Seq::new(held.len() / 2, |f: int| (held[2 * f], held[2 * f + 1]))
}

/// A callback takes what it needs and no more. With `r` frames waiting and `need`
/// asked for, it takes `need - r` frames from the jitter buffer, none where as many
/// wait already. While the buffer has them there is no underrun, what is played is
/// a run of the frames that were there, and what is left behind is all the rest,
/// with exactly `need` frames waiting before those are played.
#[verifier::rlimit(40)]
pub proof fn law_callback_takes_what_is_missing(
    resampler: ResamplerView,
    jitter: JitterView,
    need: nat,
    steps: Seq<usize>,
)
    requires
        resampler.residual.len() < need ==> jitter.samples.len() >= 2 * (need
            - resampler.residual.len()),
        position(steps, steps.len() as int) + 2 <= need,
    ensures
        ({
            let r = resampler.residual.len();
            let missing: int = if r < need {
                need - r
            } else {
                0
            };
            let p = position(steps, steps.len() as int);
            let pairs = pairs_at(resampler.stream(jitter.samples, need), steps);
            let after = resampler.filled(jitter.samples, need, steps);
            let left = jitter.popped(2 * resampler.deficit(need));
            let all = all_frames(
                resampler.primed,
                resampler.cur,
                resampler.next,
                resampler.residual,
                jitter.samples,
            );
            &&& resampler.deficit(need) == missing
            &&& left.samples == jitter.samples.skip(2 * missing)
            &&& left.underruns == jitter.underruns
            &&& left.total_read == (jitter.total_read + 2 * missing) % 0x1_0000_0000_0000_0000
            &&& pairs.len() == steps.len()
            &&& forall|i: int|
                0 <= i < steps.len() ==> #[trigger] pairs[i] == (
                    all[position(steps, i)],
                    all[position(steps, i) + 1],
                )
            &&& after.primed
            &&& after.residual.len() == r + missing + (if resampler.primed {
                0int
            } else {
                -2
            }) - p
            &&& all_frames(true, after.cur, after.next, after.residual, left.samples) == all.skip(p)
        }),
{
    let held = jitter.samples;
    let r = resampler.residual.len();
    let deficit = resampler.deficit(need);
    let p = position(steps, steps.len() as int);
    let stream = resampler.stream(held, need);
    let samples = taken(held, 2 * deficit);
    let pairs = pairs_at(stream, steps);
    let after = resampler.filled(held, need, steps);
    let left = jitter.popped(2 * deficit);
    let all = all_frames(
        resampler.primed,
        resampler.cur,
        resampler.next,
        resampler.residual,
        held,
    );
    assert(stream =~= resampler.fetched() + frames_of(samples));
    assert(stream =~= all.take(stream.len() as int)) by {
        assert forall|j: int| 0 <= j < stream.len() implies #[trigger] stream[j] == all[j] by {
            let f = j - resampler.fetched().len();
            if f >= 0 {
                assert(frames_of(samples)[f] == (samples[2 * f], samples[2 * f + 1]));
            }
        }
    }
    assert(left.samples =~= held.skip(2 * deficit as int));
    law_fetching_once_is_enough(resampler, held, need, steps, steps.len() as int);
    assert forall|i: int| 0 <= i < steps.len() implies #[trigger] pairs[i] == (
        all[position(steps, i)],
        all[position(steps, i) + 1],
    ) by {
        law_fetching_once_is_enough(resampler, held, need, steps, i);
    }
    let rest = all_frames(true, after.cur, after.next, after.residual, left.samples);
    assert(after.fetched() =~= stream.skip(p));
    assert(rest =~= all.skip(p)) by {
        assert(rest.len() == all.len() - p);
        assert forall|j: int| 0 <= j < rest.len() implies #[trigger] rest[j] == all[p + j] by {
            let f = j - after.fetched().len();
            if f < 0 {
                assert(rest[j] == after.fetched()[j]);
            }
        }
    }
}

/// Audio that comes between two callbacks is played where it belongs: what two
/// callbacks play with a packet of whole frames pushed in between is one run,
/// without a gap or a repetition, of all that was fetched, held and pushed, where
/// the cap leaves room for it.
#[verifier::rlimit(40)]
pub proof fn law_pushed_audio_follows_on(
    resampler: ResamplerView,
    jitter: JitterView,
    data: Seq<i16>,
    first: Seq<usize>,
    second: Seq<usize>,
    need_first: nat,
    need_second: nat,
    i: int,
)
    requires
        jitter.cap matches Some(max) ==> jitter.samples.len() + data.len() <= max,
        jitter.samples.len() % 2 == 0,
        data.len() % 2 == 0,
        position(first, first.len() as int) + 2 <= need_first,
        position(second, second.len() as int) + 2 <= need_second,
        resampler.residual.len() < need_first ==> jitter.samples.len() >= 2 * (need_first
            - resampler.residual.len()),
        jitter.samples.len() + data.len() >= 2 * (need_first + need_second),
        0 <= i < first.len() + second.len(),
    ensures
        ({
            let one = pairs_at(resampler.stream(jitter.samples, need_first), first);
            let between = resampler.filled(jitter.samples, need_first, first);
            let then = jitter.popped(2 * resampler.deficit(need_first)).pushed(data);
            let two = pairs_at(between.stream(then.samples, need_second), second);
            let after = then.popped(2 * between.deficit(need_second));
            let all = all_frames(
                resampler.primed,
                resampler.cur,
                resampler.next,
                resampler.residual,
                jitter.samples + data,
            );
            let at = position(first + second, i);
            &&& (one + two)[i] == (all[at], all[at + 1])
            &&& after.underruns == jitter.underruns
        }),
{
    let held = jitter.samples;
    let between = resampler.filled(held, need_first, first);
    let then = jitter.popped(2 * resampler.deficit(need_first)).pushed(data);
    let n = first.len() as int;
    lemma_between_callbacks(resampler, jitter, data, first, need_first);
    lemma_position_joins(first, second, i);
    if i < n {
        lemma_played_before_the_push(resampler, jitter, data, first, need_first, i);
    }
    law_callback_takes_what_is_missing(between, then, need_second, second);
    if i >= n {
        lemma_position_grows(second, 0, i - n);
        lemma_position_grows(second, i - n, second.len() as int);
        law_fetching_once_is_enough(between, then.samples, need_second, second, i - n);
    }
}

/// What comes after the first callback and a packet is what came before, less what
/// was played, and then the packet.
#[verifier::rlimit(40)]
proof fn lemma_between_callbacks(
    resampler: ResamplerView,
    jitter: JitterView,
    data: Seq<i16>,
    first: Seq<usize>,
    need_first: nat,
)
    requires
        jitter.cap matches Some(max) ==> jitter.samples.len() + data.len() <= max,
        jitter.samples.len() % 2 == 0,
        data.len() % 2 == 0,
        position(first, first.len() as int) + 2 <= need_first,
        resampler.residual.len() < need_first ==> jitter.samples.len() >= 2 * (need_first
            - resampler.residual.len()),
    ensures
        ({
            let between = resampler.filled(jitter.samples, need_first, first);
            let then = jitter.popped(2 * resampler.deficit(need_first)).pushed(data);
            let all = all_frames(
                resampler.primed,
                resampler.cur,
                resampler.next,
                resampler.residual,
                jitter.samples + data,
            );
            let p = position(first, first.len() as int);
            &&& between.primed
            &&& then.samples.len() + 2 * need_first >= jitter.samples.len() + data.len()
            &&& then.underruns == jitter.underruns
            &&& 0 <= p <= all.len()
            &&& all_frames(true, between.cur, between.next, between.residual, then.samples)
                == all.skip(p)
        }),
{
    let held = jitter.samples;
    let between = resampler.filled(held, need_first, first);
    let left = jitter.popped(2 * resampler.deficit(need_first));
    let p = position(first, first.len() as int);
    let before = all_frames(
        resampler.primed,
        resampler.cur,
        resampler.next,
        resampler.residual,
        held,
    );
    let tail = Seq::new(data.len() / 2, |f: int| (data[2 * f], data[2 * f + 1]));
    law_callback_takes_what_is_missing(resampler, jitter, need_first, first);
    law_fetching_once_is_enough(resampler, held, need_first, first, first.len() as int);
    assert(left.pushed(data).samples =~= left.samples + data);
    lemma_whole_frames_join(
        resampler.primed,
        resampler.cur,
        resampler.next,
        resampler.residual,
        held,
        data,
    );
    lemma_whole_frames_join(
        true,
        between.cur,
        between.next,
        between.residual,
        left.samples,
        data,
    );
    lemma_stream_within(resampler, held, need_first);
    assert(before.skip(p) + tail =~= (before + tail).skip(p));
}

/// What the first callback plays are frames that were there before the packet.
proof fn lemma_played_before_the_push(
    resampler: ResamplerView,
    jitter: JitterView,
    data: Seq<i16>,
    first: Seq<usize>,
    need_first: nat,
    i: int,
)
    requires
        jitter.samples.len() % 2 == 0,
        data.len() % 2 == 0,
        position(first, first.len() as int) + 2 <= need_first,
        resampler.residual.len() < need_first ==> jitter.samples.len() >= 2 * (need_first
            - resampler.residual.len()),
        0 <= i < first.len(),
    ensures
        ({
            let all = all_frames(
                resampler.primed,
                resampler.cur,
                resampler.next,
                resampler.residual,
                jitter.samples + data,
            );
            pairs_at(resampler.stream(jitter.samples, need_first), first)[i] == (
                all[position(first, i)],
                all[position(first, i) + 1],
            )
        }),
{
    let held = jitter.samples;
    law_callback_takes_what_is_missing(resampler, jitter, need_first, first);
    law_fetching_once_is_enough(resampler, held, need_first, first, i);
    lemma_whole_frames_join(
        resampler.primed,
        resampler.cur,
        resampler.next,
        resampler.residual,
        held,
        data,
    );
    lemma_stream_within(resampler, held, need_first);
}

/// A stream whose missing frames are held is no longer than all the frames.
proof fn lemma_stream_within(resampler: ResamplerView, held: Seq<i16>, need: nat)
    requires
        resampler.residual.len() < need ==> held.len() >= 2 * (need - resampler.residual.len()),
    ensures
        resampler.stream(held, need).len() <= all_frames(
            resampler.primed,
            resampler.cur,
            resampler.next,
            resampler.residual,
            held,
        ).len(),
{
}

/// Whole frames behind whole frames are frames of their own.
proof fn lemma_whole_frames_join(
    primed: bool,
    cur: (i16, i16),
    next: (i16, i16),
    residual: Seq<(i16, i16)>,
    held: Seq<i16>,
    data: Seq<i16>,
)
    requires
        held.len() % 2 == 0,
        data.len() % 2 == 0,
    ensures
        all_frames(primed, cur, next, residual, held + data) == all_frames(
            primed,
            cur,
            next,
            residual,
            held,
        ) + Seq::new(data.len() / 2, |f: int| (data[2 * f], data[2 * f + 1])),
{
    assert(all_frames(primed, cur, next, residual, held + data) =~= all_frames(
        primed,
        cur,
        next,
        residual,
        held,
    ) + Seq::new(data.len() / 2, |f: int| (data[2 * f], data[2 * f + 1])));
}

/// The stream of a callback, however much the jitter buffer holds: what was
/// fetched, then the missing frames from the buffer, with silence for every sample
/// that it does not hold. A position at or behind its end is silence, too.
pub proof fn law_stream_is_fetched_then_held(
    resampler: ResamplerView,
    held: Seq<i16>,
    need: nat,
    i: int,
)
    requires
        0 <= i,
    ensures
        ({
            let stream = resampler.stream(held, need);
            let r = resampler.residual.len();
            let front: int = if resampler.primed {
                2
            } else {
                0
            };
            let missing: int = if r < need {
                need - r
            } else {
                0
            };
            let f = i - front - r;
            &&& stream.len() == front + r + missing
            &&& resampler.primed ==> stream[0] == resampler.cur && stream[1] == resampler.next
            &&& front <= i < front + r ==> stream[i] == resampler.residual[i - front]
            &&& 0 <= f < missing ==> stream[i].0 == (if 2 * f < held.len() {
                held[2 * f]
            } else {
                0
            })
            &&& 0 <= f < missing ==> stream[i].1 == (if 2 * f + 1 < held.len() {
                held[2 * f + 1]
            } else {
                0
            })
            &&& frame_at(stream, i) == (if i < stream.len() {
                stream[i]
            } else {
                (0i16, 0i16)
            })
        }),
{
    let samples = taken(held, 2 * resampler.deficit(need));
    let f = i - resampler.fetched().len();
    assert(resampler.stream(held, need) =~= resampler.fetched() + frames_of(samples));
    if 0 <= f < resampler.deficit(need) {
        assert(frames_of(samples)[f] == (samples[2 * f], samples[2 * f + 1]));
    }
}

/// A callback leaves the resampler at its last position: the two frames there, and
/// every frame of the stream behind them waiting, in order. A fresh one has
/// nothing.
pub proof fn law_resampler_stays_at_its_position(stream: Seq<(i16, i16)>, at: int, i: int)
    requires
        0 <= at,
        0 <= i,
    ensures
        ({
            let state = ResamplerView::at(stream, at);
            &&& state.primed
            &&& state.cur == frame_at(stream, at)
            &&& state.next == frame_at(stream, at + 1)
            &&& state.residual.len() == (if at + 2 <= stream.len() {
                stream.len() - at - 2
            } else {
                0
            })
            &&& i < state.residual.len() ==> state.residual[i] == stream[at + 2 + i]
        }),
        ResamplerView::fresh().residual.len() == 0,
        !ResamplerView::fresh().primed,
{
}

} // verus!
