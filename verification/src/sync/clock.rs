//! Shared monotonic clock and cross-machine offset estimation.
//!
//! For synchronized ("play at the same instant") playback two things are needed:
//!
//! 1. A single monotonic clock per process, [`now_us`], used both to stamp
//!    outgoing audio packets and to answer time-sync queries, so the two are
//!    always on the same timescale.
//! 2. An estimate of the offset between the sender's clock and the receiver's
//!    clock, measured with an SNTP-style round trip: [`ClockSync`].

use vstd::prelude::*;

verus! {

/// Maximum round-trip time for a clock sample that playout is anchored on.
/// Half of it bounds the offset error, so 40 ms mean at most 20 ms of
/// misalignment.
pub const GOOD_RTT_US: u64 = 40_000;

/// Microseconds of an elapsed time of whole seconds and a rest in nanoseconds,
/// as the process-wide epoch reports it.
pub open spec fn elapsed_micros(secs: u64, subsec_nanos: u32) -> nat {
    secs as nat * 1_000_000 + subsec_nanos as nat / 1_000
}

/// Microseconds since the process's epoch, given the time elapsed since then.
pub fn now_us(elapsed_secs: u64, elapsed_subsec_nanos: u32) -> (now: u64)
    ensures
        now == elapsed_micros(elapsed_secs, elapsed_subsec_nanos) % 0x1_0000_0000_0000_0000,
{
    let wide: u128 = elapsed_secs as u128 * 1_000_000 + elapsed_subsec_nanos as u128 / 1_000;
    let now: u64 = #[verifier::truncate] (wide as u64);
    assert(now as u128 == wide % 0x1_0000_0000_0000_0000) by (bit_vector)
        requires
            now == wide as u64,
    ;
    now
}

/// The clock runs forward: later readings are not smaller, for as long as the
/// count fits 64 bits.
pub proof fn law_clock_is_monotonic(secs1: u64, nanos1: u32, secs2: u64, nanos2: u32)
    requires
        nanos1 < 1_000_000_000,
        nanos2 < 1_000_000_000,
        secs1 < secs2 || (secs1 == secs2 && nanos1 <= nanos2),
        elapsed_micros(secs2, nanos2) < 0x1_0000_0000_0000_0000,
    ensures
        elapsed_micros(secs1, nanos1) % 0x1_0000_0000_0000_0000 <= elapsed_micros(secs2, nanos2)
            % 0x1_0000_0000_0000_0000,
{
}

/// A 64-bit count read as a signed number.
pub open spec fn signed(x: u64) -> int {
    if x <= i64::MAX {
        x as int
    } else {
        x - 0x1_0000_0000_0000_0000
    }
}

/// Half of a signed number, rounded toward zero.
pub open spec fn half(x: int) -> int {
    if x >= 0 {
        x / 2
    } else {
        -((-x) / 2)
    }
}

/// The round-trip time of a sample.
pub open spec fn round_trip(client_send_us: u64, client_recv_us: u64) -> u64 {
    if client_recv_us >= client_send_us {
        (client_recv_us - client_send_us) as u64
    } else {
        0
    }
}

/// The local time in the middle of a sample's round trip.
pub open spec fn midpoint(client_send_us: u64, client_recv_us: u64) -> int {
    signed(client_send_us) + half(signed(round_trip(client_send_us, client_recv_us)))
}

/// What a sample says of `sender_clock - receiver_clock`: on a symmetric path
/// the sender stamped `server_us` in the middle of the round trip.
pub open spec fn sample_offset(client_send_us: u64, server_us: u64, client_recv_us: u64) -> int {
    signed(server_us) - midpoint(client_send_us, client_recv_us)
}

/// The middle of the round trip and the offset are signed 64-bit numbers.
pub open spec fn sample_fits(client_send_us: u64, server_us: u64, client_recv_us: u64) -> bool {
    &&& i64::MIN <= midpoint(client_send_us, client_recv_us) <= i64::MAX
    &&& i64::MIN <= sample_offset(client_send_us, server_us, client_recv_us) <= i64::MAX
}

/// What a [`ClockSync`] has learned.
pub struct ClockView {
    /// `sender_clock - receiver_clock`, in microseconds.
    pub offset: int,
    /// The round-trip time of the sample that `offset` is from.
    pub best_rtt: u64,
    /// Whether there was a sample at all.
    pub synced: bool,
}

impl ClockView {
    /// Nothing learned yet.
    pub open spec fn fresh() -> ClockView {
        ClockView { offset: 0, best_rtt: u64::MAX, synced: false }
    }

    /// After one more sample: it replaces what was known unless its round trip
    /// took longer.
    pub open spec fn fold(
        self,
        client_send_us: u64,
        server_us: u64,
        client_recv_us: u64,
    ) -> ClockView {
        let rtt = round_trip(client_send_us, client_recv_us);
        if rtt <= self.best_rtt {
            ClockView {
                offset: sample_offset(client_send_us, server_us, client_recv_us),
                best_rtt: rtt,
                synced: true,
            }
        } else {
            self
        }
    }

    /// After the samples (send, server, receive) of `samples`, in order.
    pub open spec fn fold_all(samples: Seq<(u64, u64, u64)>) -> ClockView
        decreases samples.len(),
    {
        if samples.len() == 0 {
            ClockView::fresh()
        } else {
            let s = samples.last();
            ClockView::fold_all(samples.drop_last()).fold(s.0, s.1, s.2)
        }
    }

    /// The offset comes from a round trip short enough to anchor playout on.
    pub open spec fn good(self) -> bool {
        self.synced && self.best_rtt <= GOOD_RTT_US
    }

    /// A sender timestamp in local time.
    pub open spec fn to_local(self, remote_us: u64) -> int {
        signed(remote_us) - self.offset
    }

    /// The local time at which audio captured at `capture_ts` is due, `budget_us`
    /// after its capture. A time outside the range of the local clock is moved
    /// to its nearest end.
    pub open spec fn deadline(self, capture_ts: u64, budget_us: u64) -> u64 {
        let due = self.to_local(capture_ts) + budget_us;
        if due < 0 {
            0
        } else if due > u64::MAX {
            u64::MAX
        } else {
            due as u64
        }
    }
}

/// Estimates the offset between a remote (sender) clock and the local
/// (receiver) clock using SNTP-style round trips.
///
/// `offset = sender_clock - receiver_clock`. To convert a sender timestamp
/// `ts` into local time: `local = ts - offset`.
///
/// The sample with the smallest round-trip time is kept: it is the least
/// contaminated by queuing and scheduling jitter.
pub struct ClockSync {
    offset: i64,
    best_rtt: u64,
    synced: bool,
}

impl View for ClockSync {
    type V = ClockView;

    closed spec fn view(&self) -> ClockView {
        ClockView { offset: self.offset as int, best_rtt: self.best_rtt, synced: self.synced }
    }
}

/// A count read as a signed number.
fn to_signed(x: u64) -> (r: i64)
    ensures
        r == signed(x),
{
    let r: i64 = #[verifier::truncate] (x as i64);
    assert(x <= 0x7fff_ffff_ffff_ffff ==> r as u64 == x && r >= 0) by (bit_vector)
        requires
            r == x as i64,
    ;
    assert(x > 0x7fff_ffff_ffff_ffff ==> r == x - 0x1_0000_0000_0000_0000) by (bit_vector)
        requires
            r == x as i64,
    ;
    r
}

/// Half of a signed number, rounded toward zero.
fn halve(x: i64) -> (r: i64)
    ensures
        r == half(x as int),
{
    if x >= 0 {
        x / 2
    } else {
        let magnitude: i128 = -(x as i128);
        (-(magnitude / 2)) as i64
    }
}

/// The offset of a sample, where it is a signed 64-bit number.
fn checked_offset(client_send_us: u64, server_us: u64, client_recv_us: u64) -> (r: Option<i64>)
    ensures
        match r {
            Some(offset) => sample_fits(client_send_us, server_us, client_recv_us) && offset
                == sample_offset(client_send_us, server_us, client_recv_us),
            None => !sample_fits(client_send_us, server_us, client_recv_us),
        },
{
    let rtt: u64 = client_recv_us.saturating_sub(client_send_us);
    match to_signed(client_send_us).checked_add(halve(to_signed(rtt))) {
        Some(middle) => to_signed(server_us).checked_sub(middle),
        None => None,
    }
}

impl ClockSync {
    #[verifier::type_invariant]
    spec fn unsynced_is_fresh(self) -> bool {
        !self.synced ==> self.offset == 0 && self.best_rtt == u64::MAX
    }

    pub fn new() -> (clock: Self)
        ensures
            clock@ == ClockView::fresh(),
    {
        ClockSync { offset: 0, best_rtt: u64::MAX, synced: false }
    }

    /// Fold in one round-trip sample.
    ///
    /// * `client_send_us`: local time the request left.
    /// * `server_us`: remote time when the request was received.
    /// * `client_recv_us`: local time the reply arrived.
    pub fn update(&mut self, client_send_us: u64, server_us: u64, client_recv_us: u64)
        requires
            round_trip(client_send_us, client_recv_us) <= old(self)@.best_rtt ==> sample_fits(
                client_send_us,
                server_us,
                client_recv_us,
            ),
        ensures
            final(self)@ == old(self)@.fold(client_send_us, server_us, client_recv_us),
    {
        let rtt: u64 = client_recv_us.saturating_sub(client_send_us);
        if rtt <= self.best_rtt {
            let middle: i64 = to_signed(client_send_us) + halve(to_signed(rtt));
            let offset: i64 = to_signed(server_us) - middle;
            *self = ClockSync { offset, best_rtt: rtt, synced: true };
        }
    }

    /// Fold in one round-trip sample from the network, whatever it says.
    /// A sample whose offset is no signed 64-bit number is not taken; returns
    /// whether it was.
    pub fn try_update(&mut self, client_send_us: u64, server_us: u64, client_recv_us: u64) -> (taken:
        bool)
        ensures
            taken == sample_fits(client_send_us, server_us, client_recv_us),
            final(self)@ == (if taken {
                old(self)@.fold(client_send_us, server_us, client_recv_us)
            } else {
                old(self)@
            }),
    {
        match checked_offset(client_send_us, server_us, client_recv_us) {
            Some(_) => {
                self.update(client_send_us, server_us, client_recv_us);
                true
            },
            None => false,
        }
    }

    /// `sender_clock - receiver_clock`, in microseconds.
    pub fn offset_us(&self) -> (r: i64)
        ensures
            r == self@.offset,
            !self@.synced ==> r == 0,
    {
        proof {
            use_type_invariant(self);
        }
        self.offset
    }

    /// Best round-trip time seen so far (in microseconds); `u64::MAX` until the
    /// first sample.
    pub fn best_rtt_us(&self) -> (r: u64)
        ensures
            r == self@.best_rtt,
            !self@.synced ==> r == u64::MAX,
    {
        proof {
            use_type_invariant(self);
        }
        self.best_rtt
    }

    /// True once at least one sample has been folded in.
    pub fn is_synced(&self) -> (r: bool)
        ensures
            r == self@.synced,
    {
        self.synced
    }

    /// True once there is a *trustworthy* offset: a sample whose round trip is
    /// short enough that the offset error is acceptable for anchoring.
    pub fn is_good(&self) -> (r: bool)
        ensures
            r == self@.good(),
    {
        self.synced && self.best_rtt_us() <= GOOD_RTT_US
    }

    /// Convert a remote (sender-clock) timestamp into local (receiver) time.
    pub fn remote_to_local_us(&self, remote_us: u64) -> (local: i64)
        requires
            i64::MIN <= self@.to_local(remote_us) <= i64::MAX,
        ensures
            local == self@.to_local(remote_us),
    {
        to_signed(remote_us) - self.offset_us()
    }

    /// The local time at which to play audio captured at `capture_ts` on the
    /// sender's clock: its capture time minus the offset plus the budget.
    pub fn playout_deadline_us(&self, capture_ts: u64, budget_us: u64) -> (deadline: u64)
        ensures
            deadline == self@.deadline(capture_ts, budget_us),
    {
        let due: i128 = to_signed(capture_ts) as i128 - self.offset_us() as i128
            + budget_us as i128;
        if due < 0 {
            0
        } else if due > u64::MAX as i128 {
            u64::MAX
        } else {
            due as u64
        }
    }
}

impl Default for ClockSync {
    fn default() -> (clock: Self)
        ensures
            clock@ == ClockView::fresh(),
    {
        ClockSync::new()
    }
}

/// Half the round-trip time bounds the offset error: let the sender's clock be
/// ahead of the receiver's by `true_offset`, let the request travel for
/// `there` and the reply for `back`. Then the sample is off by at most half of
/// `there + back`, rounded up.
pub proof fn law_offset_error(client_send_us: u64, there: nat, back: nat, true_offset: int)
    requires
        client_send_us + there + back <= i64::MAX,
        0 <= client_send_us + there + true_offset <= i64::MAX,
    ensures
        ({
            let server_us = (client_send_us + there + true_offset) as u64;
            let client_recv_us = (client_send_us + there + back) as u64;
            let estimate = sample_offset(client_send_us, server_us, client_recv_us);
            let rtt = round_trip(client_send_us, client_recv_us);
            &&& rtt == there + back
            &&& -(rtt as int) <= 2 * (estimate - true_offset) <= rtt + 1
            &&& rtt <= GOOD_RTT_US ==> -20_000 <= estimate - true_offset <= 20_000
        }),
{
}

/// Of all samples the one with the shortest round trip decides, and of several
/// equally short ones the latest.
pub proof fn law_shortest_round_trip_decides(samples: Seq<(u64, u64, u64)>)
    requires
        samples.len() > 0,
    ensures
        ({
            let clock = ClockView::fold_all(samples);
            &&& clock.synced
            &&& forall|i: int|
                0 <= i < samples.len() ==> clock.best_rtt <= round_trip(
                    (#[trigger] samples[i]).0,
                    samples[i].2,
                )
            &&& exists|k: int|
                {
                    &&& 0 <= k < samples.len()
                    &&& clock.best_rtt == round_trip((#[trigger] samples[k]).0, samples[k].2)
                    &&& clock.offset == sample_offset(samples[k].0, samples[k].1, samples[k].2)
                    &&& forall|j: int|
                        k < j < samples.len() ==> clock.best_rtt < round_trip(
                            (#[trigger] samples[j]).0,
                            samples[j].2,
                        )
                }
        }),
    decreases samples.len(),
{
    let clock = ClockView::fold_all(samples);
    let front = samples.drop_last();
    let last = samples.last();
    let n = samples.len() as int;
    assert(samples[n - 1] == last);
    if front.len() == 0 {
        assert(ClockView::fold_all(front) == ClockView::fresh());
        assert(clock.best_rtt == round_trip(samples[0].0, samples[0].2));
    } else {
        law_shortest_round_trip_decides(front);
        let before = ClockView::fold_all(front);
        assert forall|i: int| 0 <= i < n implies clock.best_rtt <= round_trip(
            (#[trigger] samples[i]).0,
            samples[i].2,
        ) by {
            if i < n - 1 {
                assert(front[i] == samples[i]);
            }
        }
        if round_trip(last.0, last.2) <= before.best_rtt {
            assert(clock.best_rtt == round_trip(samples[n - 1].0, samples[n - 1].2));
        } else {
            let k = choose|k: int|
                {
                    &&& 0 <= k < front.len()
                    &&& before.best_rtt == round_trip((#[trigger] front[k]).0, front[k].2)
                    &&& before.offset == sample_offset(front[k].0, front[k].1, front[k].2)
                    &&& forall|j: int|
                        k < j < front.len() ==> before.best_rtt < round_trip(
                            (#[trigger] front[j]).0,
                            front[j].2,
                        )
                };
            assert(samples[k] == front[k]);
            assert forall|j: int| k < j < n implies clock.best_rtt < round_trip(
                (#[trigger] samples[j]).0,
                samples[j].2,
            ) by {
                if j < n - 1 {
                    assert(front[j] == samples[j]);
                }
            }
        }
    }
}

/// No sample makes the estimate worse: the best round trip never grows, and a
/// clock that is good stays good.
pub proof fn law_estimate_never_worsens(
    clock: ClockView,
    client_send_us: u64,
    server_us: u64,
    client_recv_us: u64,
)
    ensures
        clock.fold(client_send_us, server_us, client_recv_us).best_rtt <= clock.best_rtt,
        clock.good() ==> clock.fold(client_send_us, server_us, client_recv_us).good(),
{
}

/// What a sample says, for times below the sign bit: its round trip is the time
/// from sending to receiving, no time where that is negative, and its offset is
/// the sender's stamp less the middle of the round trip. Every such sample fits.
pub proof fn law_offset_is_the_stamp_less_the_middle(
    client_send_us: u64,
    server_us: u64,
    client_recv_us: u64,
)
    requires
        client_send_us <= i64::MAX,
        server_us <= i64::MAX,
        client_recv_us <= i64::MAX,
    ensures
        client_recv_us >= client_send_us ==> {
            &&& round_trip(client_send_us, client_recv_us) == client_recv_us - client_send_us
            &&& sample_offset(client_send_us, server_us, client_recv_us) == server_us - (
            client_send_us + (client_recv_us - client_send_us) / 2)
        },
        client_recv_us < client_send_us ==> {
            &&& round_trip(client_send_us, client_recv_us) == 0
            &&& sample_offset(client_send_us, server_us, client_recv_us) == server_us
                - client_send_us
        },
        sample_fits(client_send_us, server_us, client_recv_us),
{
}

/// Moving both machines' clocks forward together changes no estimate, and moving
/// the sender's alone moves the estimate by as much.
pub proof fn law_estimate_moves_with_the_clocks(
    client_send_us: u64,
    server_us: u64,
    client_recv_us: u64,
    local: u64,
    remote: u64,
)
    requires
        client_send_us + local <= i64::MAX,
        client_recv_us + local <= i64::MAX,
        server_us + remote <= i64::MAX,
    ensures
        sample_offset(
            (client_send_us + local) as u64,
            (server_us + remote) as u64,
            (client_recv_us + local) as u64,
        ) == sample_offset(client_send_us, server_us, client_recv_us) + remote - local,
        round_trip((client_send_us + local) as u64, (client_recv_us + local) as u64) == round_trip(
            client_send_us,
            client_recv_us,
        ),
{
}

/// What folding does: a sample whose round trip took longer changes nothing, any
/// other takes the place of what was known.
pub proof fn law_fold_takes_the_shorter(
    clock: ClockView,
    client_send_us: u64,
    server_us: u64,
    client_recv_us: u64,
)
    ensures
        ({
            let after = clock.fold(client_send_us, server_us, client_recv_us);
            let rtt = round_trip(client_send_us, client_recv_us);
            &&& rtt > clock.best_rtt ==> after == clock
            &&& rtt <= clock.best_rtt ==> {
                &&& after.synced
                &&& after.best_rtt == rtt
                &&& after.offset == sample_offset(client_send_us, server_us, client_recv_us)
            }
        }),
        !ClockView::fresh().synced,
        ClockView::fresh().best_rtt == u64::MAX,
        ClockView::fresh().offset == 0,
{
}

/// What a clock is used for: it is good with a round trip of at most 40 ms; a
/// sender's time is local time once the offset is taken off; and audio is due the
/// budget after that, or at the end of the clock that is nearest to it.
pub proof fn law_due_times(clock: ClockView, capture_ts: u64, budget_us: u64)
    requires
        capture_ts <= i64::MAX,
    ensures
        clock.good() <==> clock.synced && clock.best_rtt <= 40_000,
        clock.to_local(capture_ts) == capture_ts - clock.offset,
        ({
            let due = capture_ts - clock.offset + budget_us;
            &&& 0 <= due <= u64::MAX ==> clock.deadline(capture_ts, budget_us) == due
            &&& due < 0 ==> clock.deadline(capture_ts, budget_us) == 0
            &&& due > u64::MAX ==> clock.deadline(capture_ts, budget_us) == u64::MAX
        }),
{
}

/// A second is a million microseconds, and a nanosecond counts once a thousand of
/// them are full.
pub proof fn law_microseconds(secs: u64, subsec_nanos: u32)
    ensures
        1_000 * (elapsed_micros(secs, subsec_nanos) - 1_000_000 * secs) <= subsec_nanos
            < 1_000 * (elapsed_micros(secs, subsec_nanos) - 1_000_000 * secs) + 1_000,
{
}

/// How any 64-bit times are taken: from the sign bit on they are negative; half of
/// a time is rounded toward zero; the middle of a round trip is half of it after
/// sending; and a sample fits exactly if its middle and its offset are signed
/// 64-bit numbers.
pub proof fn law_times_are_signed(
    x: u64,
    t: int,
    client_send_us: u64,
    server_us: u64,
    client_recv_us: u64,
)
    ensures
        signed(x) == (if x < 0x8000_0000_0000_0000 {
            x as int
        } else {
            x - 0x1_0000_0000_0000_0000
        }),
        t >= 0 ==> 2 * half(t) <= t <= 2 * half(t) + 1,
        t <= 0 ==> 2 * half(t) - 1 <= t <= 2 * half(t),
        midpoint(client_send_us, client_recv_us) == signed(client_send_us) + half(
            signed(round_trip(client_send_us, client_recv_us)),
        ),
        sample_offset(client_send_us, server_us, client_recv_us) == signed(server_us) - midpoint(
            client_send_us,
            client_recv_us,
        ),
        round_trip(client_send_us, client_recv_us) == (if client_recv_us < client_send_us {
            0
        } else {
            client_recv_us - client_send_us
        }),
        sample_fits(client_send_us, server_us, client_recv_us) <==> {
            &&& -0x8000_0000_0000_0000 <= midpoint(client_send_us, client_recv_us)
                <= 0x7fff_ffff_ffff_ffff
            &&& -0x8000_0000_0000_0000 <= sample_offset(client_send_us, server_us, client_recv_us)
                <= 0x7fff_ffff_ffff_ffff
        },
{
}

/// Local times and deadlines for any sender's time: the signed time less the
/// offset, and the budget after that within the clock.
pub proof fn law_any_time_is_due_within_the_clock(
    clock: ClockView,
    capture_ts: u64,
    budget_us: u64,
)
    ensures
        clock.to_local(capture_ts) == signed(capture_ts) - clock.offset,
        ({
            let due = signed(capture_ts) - clock.offset + budget_us;
            &&& 0 <= due <= u64::MAX ==> clock.deadline(capture_ts, budget_us) == due
            &&& due < 0 ==> clock.deadline(capture_ts, budget_us) == 0
            &&& due > u64::MAX ==> clock.deadline(capture_ts, budget_us) == u64::MAX
        }),
{
}

} // verus!
