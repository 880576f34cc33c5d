//! The buffer between the network and the audio output.

use std::collections::VecDeque;

use vstd::prelude::*;

verus! {

/// What is held after `data` came in behind `held`: everything, or where there
/// is a cap and it is exceeded, the newest samples up to the cap.
pub open spec fn after_push(held: Seq<i16>, cap: Option<usize>, data: Seq<i16>) -> Seq<i16> {
    let all = held + data;
    match cap {
        Some(max) => if all.len() > max {
            all.skip(all.len() - max)
        } else {
            all
        },
        None => all,
    }
}

/// The `count` samples that come out of `held`: the oldest, then silence.
pub open spec fn taken(held: Seq<i16>, count: nat) -> Seq<i16> {
    Seq::new(
        count,
        |i: int|
            if i < held.len() {
                held[i]
            } else {
                0
            },
    )
}

/// How many of `count` samples asked for are there.
pub open spec fn available(held: Seq<i16>, count: nat) -> nat {
    if held.len() < count {
        held.len()
    } else {
        count
    }
}

/// What is held after `count` samples were asked for.
pub open spec fn after_pop(held: Seq<i16>, count: nat) -> Seq<i16> {
    held.skip(available(held, count) as int)
}

/// How many packets are missing between `prev` and `seq`. `u64::MAX` stands for
/// no packet yet; going back or repeating counts for nothing.
pub open spec fn gap(prev: u64, seq: u64) -> nat {
    if prev != u64::MAX && seq > prev {
        (seq - prev - 1) as nat
    } else {
        0
    }
}

/// `a + b`, as a 64-bit counter counts.
pub open spec fn counted(a: u64, b: nat) -> u64 {
    ((a + b) % 0x1_0000_0000_0000_0000) as u64
}

/// What a [`JitterBuffer`] holds and has counted.
#[verifier::ext_equal]
pub struct JitterView {
    /// The samples held, oldest first.
    pub samples: Seq<i16>,
    /// The most samples that may be held, if there is a limit.
    pub cap: Option<usize>,
    /// Samples that came in.
    pub total_written: u64,
    /// Samples that went out.
    pub total_read: u64,
    /// Sequence number of the latest packet; `u64::MAX` before the first.
    pub last_sequence: u64,
    pub packets_lost: u64,
    /// How often there were fewer samples than asked for.
    pub underruns: u64,
}

impl JitterView {
    /// Nothing held and nothing counted.
    pub open spec fn fresh(cap: Option<usize>) -> JitterView {
        JitterView {
            samples: Seq::empty(),
            cap,
            total_written: 0,
            total_read: 0,
            last_sequence: u64::MAX,
            packets_lost: 0,
            underruns: 0,
        }
    }

    /// After a packet with the samples `data`.
    pub open spec fn pushed(self, data: Seq<i16>) -> JitterView {
        JitterView {
            samples: after_push(self.samples, self.cap, data),
            total_written: counted(self.total_written, data.len()),
            ..self
        }
    }

    /// After `count` samples were asked for.
    pub open spec fn popped(self, count: nat) -> JitterView {
        JitterView {
            samples: after_pop(self.samples, count),
            total_read: counted(self.total_read, available(self.samples, count)),
            underruns: if self.samples.len() < count {
                counted(self.underruns, 1)
            } else {
                self.underruns
            },
            ..self
        }
    }

    /// After a packet with the number `seq` was seen.
    pub open spec fn recorded(self, seq: u64) -> JitterView {
        JitterView {
            last_sequence: seq,
            packets_lost: counted(self.packets_lost, gap(self.last_sequence, seq)),
            ..self
        }
    }

    /// After packets with the numbers `seqs` were seen, in order.
    pub open spec fn recorded_all(self, seqs: Seq<u64>) -> JitterView
        decreases seqs.len(),
    {
        if seqs.len() == 0 {
            self
        } else {
            self.recorded_all(seqs.drop_last()).recorded(seqs.last())
        }
    }

    /// A cap is kept; without one, what came in either went out or is held.
    pub open spec fn sound(self) -> bool {
        match self.cap {
            Some(max) => self.samples.len() <= max,
            None => self.total_written == counted(self.total_read, self.samples.len()),
        }
    }
}

/// A jitter buffer: the network side pushes audio packets, the audio output
/// pops samples every few milliseconds.
pub struct JitterBuffer {
    buf: VecDeque<i16>,
    max_samples: Option<usize>,
    total_written: u64,
    total_read: u64,
    last_sequence: u64,
    packets_lost: u64,
    underruns: u64,
}

impl View for JitterBuffer {
    type V = JitterView;

    closed spec fn view(&self) -> JitterView {
        JitterView {
            samples: self.buf@,
            cap: self.max_samples,
            total_written: self.total_written,
            total_read: self.total_read,
            last_sequence: self.last_sequence,
            packets_lost: self.packets_lost,
            underruns: self.underruns,
        }
    }
}

impl JitterBuffer {
    /// A buffer without a cap, with room for `capacity_frames` stereo frames.
    pub fn new(capacity_frames: usize) -> (buffer: Self)
        requires
            4 * capacity_frames <= isize::MAX,
        ensures
            buffer@ == JitterView::fresh(None),
    {
        JitterBuffer {
            buf: VecDeque::with_capacity(capacity_frames * 2),
            max_samples: None,
            total_written: 0,
            total_read: 0,
            last_sequence: u64::MAX,
            packets_lost: 0,
            underruns: 0,
        }
    }

    /// A buffer that holds at most `max_samples` samples: a burst that exceeds
    /// it pushes the oldest out, so latency cannot pile up.
    pub fn with_max(capacity_frames: usize, max_samples: usize) -> (buffer: Self)
        requires
            4 * capacity_frames <= isize::MAX,
        ensures
            buffer@ == JitterView::fresh(Some(max_samples)),
    {
        let mut buffer = JitterBuffer::new(capacity_frames);
        buffer.max_samples = Some(max_samples);
        buffer
    }

    /// Append a packet's samples.
    pub fn push_packet(&mut self, data: &[i16])
        ensures
            final(self)@ == old(self)@.pushed(data@),
    {
        let ghost held = self.buf@;
        let mut i: usize = 0;
        while i < data.len()
            invariant
                i <= data@.len(),
                self@ == (JitterView { samples: held + data@.take(i as int), ..old(self)@ }),
            decreases data@.len() - i,
        {
            self.buf.push_back(data[i]);
            assert(self.buf@ =~= held + data@.take(i + 1));
            i = i + 1;
        }
        assert(data@.take(i as int) =~= data@);
        self.total_written = self.total_written.wrapping_add(data.len() as u64);
        let ghost all = self.buf@;
        if let Some(max) = self.max_samples {
            while self.buf.len() > max
                invariant
                    self.buf@.len() <= all.len(),
                    self.buf@ == all.skip(all.len() - self.buf@.len()),
                    self.buf@.len() >= max || self.buf@ == all,
                    self@ == (JitterView {
                        samples: self.buf@,
                        total_written: counted(old(self)@.total_written, data@.len()),
                        ..old(self)@
                    }),
                decreases self.buf@.len(),
            {
                let _ = self.buf.pop_front();
                assert(self.buf@ =~= all.skip(all.len() - self.buf@.len()));
            }
        }
    }

    /// Fill `out` with the oldest samples, and with silence where there are not
    /// enough. Returns how many samples there were.
    pub fn pop_samples(&mut self, out: &mut [i16]) -> (n: usize)
        ensures
            n == available(old(self)@.samples, old(out)@.len()),
            final(out)@ == taken(old(self)@.samples, old(out)@.len()),
            final(self)@ == old(self)@.popped(old(out)@.len()),
    {
        let ghost held = self.buf@;
        let wanted: usize = out.len();
        let n: usize = if self.buf.len() < wanted {
            self.buf.len()
        } else {
            wanted
        };
        if n < wanted {
            self.underruns = self.underruns.wrapping_add(1);
        }
        let ghost before = self@;
        let mut i: usize = 0;
        while i < wanted
            invariant
                i <= wanted,
                wanted == out@.len(),
                wanted == old(out)@.len(),
                forall|j: int| 0 <= j < i ==> out@[j] == taken(held, wanted as nat)[j],
                self@ == (JitterView { samples: after_pop(held, i as nat), ..before }),
            decreases wanted - i,
        {
            let sample: i16 = match self.buf.pop_front() {
                Some(sample) => sample,
                None => 0,
            };
            out[i] = sample;
            assert(self.buf@ =~= after_pop(held, (i + 1) as nat));
            i = i + 1;
        }
        assert(out@ =~= taken(held, wanted as nat));
        self.total_read = self.total_read.wrapping_add(n as u64);
        n
    }

    /// How many samples are held.
    pub fn fill_samples(&self) -> (n: usize)
        ensures
            n == self@.samples.len(),
    {
        self.buf.len()
    }

    /// Note the sequence number of a packet, and count the packets that are
    /// missing in front of it.
    pub fn record_sequence(&mut self, seq: u64)
        ensures
            final(self)@ == old(self)@.recorded(seq),
    {
        let prev: u64 = self.last_sequence;
        self.last_sequence = seq;
        // Only forward gaps count; the initial value and reordering do not.
        if prev != u64::MAX && seq > prev && seq - prev > 1 {
            self.packets_lost = self.packets_lost.wrapping_add(seq - prev - 1);
        }
    }

    pub fn total_written(&self) -> (n: u64)
        ensures
            n == self@.total_written,
    {
        self.total_written
    }

    pub fn total_read(&self) -> (n: u64)
        ensures
            n == self@.total_read,
    {
        self.total_read
    }

    pub fn last_sequence(&self) -> (n: u64)
        ensures
            n == self@.last_sequence,
    {
        self.last_sequence
    }

    pub fn packets_lost(&self) -> (n: u64)
        ensures
            n == self@.packets_lost,
    {
        self.packets_lost
    }

    pub fn underruns(&self) -> (n: u64)
        ensures
            n == self@.underruns,
    {
        self.underruns
    }
}

proof fn lemma_counts_add_up(a: u64, b: nat, c: nat)
    ensures
        counted(counted(a, b), c) == counted(a, b + c),
{
}

/// Every operation keeps the buffer sound: a cap is never exceeded, and without
/// a cap no sample is lost or made up between the two ends.
pub proof fn law_stays_sound(buffer: JitterView, data: Seq<i16>, count: nat, seq: u64)
    ensures
        forall|cap: Option<usize>| #[trigger] JitterView::fresh(cap).sound(),
        buffer.sound() ==> buffer.pushed(data).sound(),
        buffer.sound() ==> buffer.popped(count).sound(),
        buffer.sound() ==> buffer.recorded(seq).sound(),
{
    let held = buffer.samples.len();
    let n = available(buffer.samples, count);
    lemma_counts_add_up(buffer.total_read, held, data.len());
    lemma_counts_add_up(buffer.total_read, n, (held - n) as nat);
}

/// Two packets leave the buffer as one packet with both their samples would:
/// samples stay in the order in which they came.
pub proof fn law_pushes_join(
    held: Seq<i16>,
    cap: Option<usize>,
    first: Seq<i16>,
    second: Seq<i16>,
)
    ensures
        after_push(after_push(held, cap, first), cap, second) == after_push(
            held,
            cap,
            first + second,
        ),
{
    assert(held + first + second =~= held + (first + second));
    assert(after_push(after_push(held, cap, first), cap, second) =~= after_push(
        held,
        cap,
        first + second,
    ));
}

/// Taking samples in two goes gives what taking them at once gives.
pub proof fn law_pops_join(held: Seq<i16>, first: nat, second: nat)
    ensures
        taken(held, first) + taken(after_pop(held, first), second) == taken(held, first + second),
        after_pop(after_pop(held, first), second) == after_pop(held, first + second),
{
    assert(taken(held, first) + taken(after_pop(held, first), second) =~= taken(
        held,
        first + second,
    ));
    assert(after_pop(after_pop(held, first), second) =~= after_pop(held, first + second));
}

/// First in, first out: where the cap leaves room for it, what is pushed comes
/// out behind everything that was held, unchanged.
pub proof fn law_first_in_first_out(held: Seq<i16>, cap: Option<usize>, data: Seq<i16>)
    requires
        cap matches Some(max) ==> held.len() + data.len() <= max,
    ensures
        taken(after_push(held, cap, data), held.len() + data.len()) == held + data,
        after_pop(after_push(held, cap, data), held.len() + data.len()) == Seq::<i16>::empty(),
{
    assert(taken(after_push(held, cap, data), held.len() + data.len()) =~= held + data);
    assert(after_pop(after_push(held, cap, data), held.len() + data.len()) =~= Seq::<
        i16,
    >::empty());
}

/// Left stays left: with whole stereo frames held and coming in, and a cap of
/// whole frames, what the cap pushes out is whole frames too.
pub proof fn law_frames_stay_whole(held: Seq<i16>, max: usize, data: Seq<i16>)
    requires
        held.len() % 2 == 0,
        data.len() % 2 == 0,
        max % 2 == 0,
    ensures
        after_push(held, Some(max), data).len() % 2 == 0,
        (held.len() + data.len() - after_push(held, Some(max), data).len()) % 2 == 0,
{
}

/// For packets that arrive in order, the loss count is the count of sequence
/// numbers that are missing between the first and the last.
pub proof fn law_loss_is_the_missing_numbers(cap: Option<usize>, seqs: Seq<u64>)
    requires
        seqs.len() > 0,
        forall|i: int, j: int| 0 <= i < j < seqs.len() ==> seqs[i] < seqs[j],
    ensures
        JitterView::fresh(cap).recorded_all(seqs).packets_lost == seqs.last() - seqs[0] + 1
            - seqs.len(),
    decreases seqs.len(),
{
    let front = seqs.drop_last();
    let fresh = JitterView::fresh(cap);
    if front.len() == 0 {
        assert(fresh.recorded_all(front) == fresh);
    } else {
        law_loss_is_the_missing_numbers(cap, front);
        lemma_last_sequence(fresh, front);
        assert(front[0] == seqs[0]);
        assert(front.last() == seqs[seqs.len() - 2]);
        assert(front.last() < seqs.last());
        lemma_increasing_spread(front);
    }
}

proof fn lemma_last_sequence(buffer: JitterView, seqs: Seq<u64>)
    requires
        seqs.len() > 0,
    ensures
        buffer.recorded_all(seqs).last_sequence == seqs.last(),
{
}

proof fn lemma_increasing_spread(seqs: Seq<u64>)
    requires
        seqs.len() > 0,
        forall|i: int, j: int| 0 <= i < j < seqs.len() ==> seqs[i] < seqs[j],
    ensures
        seqs.last() - seqs[0] + 1 >= seqs.len(),
    decreases seqs.len(),
{
    if seqs.len() > 1 {
        let front = seqs.drop_last();
        lemma_increasing_spread(front);
        assert(front.last() < seqs.last());
    }
}

/// A packet that comes late or twice is not counted as a loss.
pub proof fn law_reordering_is_no_loss(buffer: JitterView, seq: u64)
    requires
        seq <= buffer.last_sequence,
    ensures
        buffer.recorded(seq).packets_lost == buffer.packets_lost,
{
}

/// What a packet does: its samples stand behind what was held, and of all of these
/// the newest are held, all of them unless the cap is exceeded, and then exactly
/// as many as the cap allows. Only the count of what came in changes besides.
pub proof fn law_push_keeps_the_newest(buffer: JitterView, data: Seq<i16>, i: int)
    requires
        0 <= i < buffer.pushed(data).samples.len(),
    ensures
        ({
            let after = buffer.pushed(data);
            let total = buffer.samples.len() + data.len();
            let from = total - after.samples.len() + i;
            &&& after.samples.len() == (match buffer.cap {
                Some(max) => if total > max {
                    max as int
                } else {
                    total as int
                },
                None => total as int,
            })
            &&& after.samples[i] == (if from < buffer.samples.len() {
                buffer.samples[from]
            } else {
                data[from - buffer.samples.len()]
            })
        }),
{
}

/// What a packet does to the length and the counts.
pub proof fn law_push_counts(buffer: JitterView, data: Seq<i16>)
    ensures
        ({
            let after = buffer.pushed(data);
            let total = buffer.samples.len() + data.len();
            &&& after.total_written == (buffer.total_written + data.len())
                % 0x1_0000_0000_0000_0000
            &&& after.cap == buffer.cap
            &&& after.total_read == buffer.total_read
            &&& after.last_sequence == buffer.last_sequence
            &&& after.packets_lost == buffer.packets_lost
            &&& after.underruns == buffer.underruns
            &&& after.samples.len() == (match buffer.cap {
                Some(max) => if total > max {
                    max as int
                } else {
                    total as int
                },
                None => total as int,
            })
        }),
{
}

/// What taking samples does: the oldest come out in order, then silence; what
/// came out is gone and nothing else is; and it counts as an underrun exactly if
/// there were too few.
pub proof fn law_pop_takes_the_oldest(buffer: JitterView, count: nat, i: int)
    requires
        0 <= i,
    ensures
        ({
            let after = buffer.popped(count);
            let held = buffer.samples;
            let enough = held.len() >= count;
            &&& taken(held, count).len() == count
            &&& i < count ==> taken(held, count)[i] == (if i < held.len() {
                held[i]
            } else {
                0
            })
            &&& available(held, count) == (if enough {
                count
            } else {
                held.len()
            })
            &&& after.samples.len() == (if enough {
                held.len() - count
            } else {
                0
            })
            &&& i < after.samples.len() ==> after.samples[i] == held[count + i]
            &&& after.underruns == (buffer.underruns + (if enough {
                0int
            } else {
                1
            })) % 0x1_0000_0000_0000_0000
            &&& after.total_read == (buffer.total_read + (if enough {
                count
            } else {
                held.len()
            })) % 0x1_0000_0000_0000_0000
            &&& after.cap == buffer.cap
            &&& after.total_written == buffer.total_written
            &&& after.last_sequence == buffer.last_sequence
            &&& after.packets_lost == buffer.packets_lost
        }),
{
}

/// What a sequence number does: it is remembered, and the numbers that it jumps
/// over are added to the loss. The audio is not touched.
pub proof fn law_jump_is_the_loss(buffer: JitterView, seq: u64)
    ensures
        ({
            let after = buffer.recorded(seq);
            let prev = buffer.last_sequence;
            let missing: int = if prev != u64::MAX && seq > prev {
                seq - prev - 1
            } else {
                0
            };
            &&& after.last_sequence == seq
            &&& after.packets_lost == (buffer.packets_lost + missing) % 0x1_0000_0000_0000_0000
            &&& after.samples == buffer.samples
            &&& after.cap == buffer.cap
            &&& after.total_written == buffer.total_written
            &&& after.total_read == buffer.total_read
            &&& after.underruns == buffer.underruns
        }),
{
}

/// A new buffer is empty, has the cap it was given, has seen no packet and has
/// counted nothing.
pub proof fn law_new_buffer_is_empty(cap: Option<usize>)
    ensures
        JitterView::fresh(cap).samples.len() == 0,
        JitterView::fresh(cap).cap == cap,
        JitterView::fresh(cap).last_sequence == u64::MAX,
        JitterView::fresh(cap).total_written == 0,
        JitterView::fresh(cap).total_read == 0,
        JitterView::fresh(cap).packets_lost == 0,
        JitterView::fresh(cap).underruns == 0,
{
}

} // verus!
