//! Holding playback back until the common start instant.

use vstd::prelude::*;

verus! {

/// What a [`PlayoutGate`] knows.
pub struct GateView {
    /// Local-clock microseconds at which to begin playing. 0: not armed yet.
    pub deadline: u64,
    /// The deadline has been seen to pass.
    pub started: bool,
}

impl GateView {
    /// Neither armed nor started.
    pub open spec fn fresh() -> GateView {
        GateView { deadline: 0, started: false }
    }

    /// After arming with `deadline_us`: only the first time counts.
    pub open spec fn armed_with(self, deadline_us: u64) -> GateView {
        if self.deadline != 0 {
            self
        } else {
            GateView {
                deadline: if deadline_us == 0 {
                    1
                } else {
                    deadline_us
                },
                started: self.started,
            }
        }
    }

    /// Whether the output plays at `now_us`.
    pub open spec fn plays(self, now_us: u64) -> bool {
        self.started || (self.deadline != 0 && now_us >= self.deadline)
    }

    /// After asking at `now_us` whether to play.
    pub open spec fn asked(self, now_us: u64) -> GateView {
        GateView { deadline: self.deadline, started: self.plays(now_us) }
    }

    /// After asking at each of the times `nows`, in order.
    pub open spec fn asked_all(self, nows: Seq<u64>) -> GateView
        decreases nows.len(),
    {
        if nows.len() == 0 {
            self
        } else {
            self.asked_all(nows.drop_last()).asked(nows.last())
        }
    }
}

/// Holds an audio output silent until a scheduled wall-clock deadline, then
/// latches open forever. This is the mechanism that makes playback start at the
/// *same instant* on every endpoint: each side arms its output with its own
/// local deadline (capture time minus clock offset plus budget), which then
/// stays muted, without draining the jitter buffer, until that moment arrives.
pub struct PlayoutGate {
    start_deadline_us: u64,
    started: bool,
}

impl View for PlayoutGate {
    type V = GateView;

    closed spec fn view(&self) -> GateView {
        GateView { deadline: self.start_deadline_us, started: self.started }
    }
}

impl PlayoutGate {
    #[verifier::type_invariant]
    spec fn started_is_armed(self) -> bool {
        self.started ==> self.start_deadline_us != 0
    }

    pub fn new() -> (gate: Self)
        ensures
            gate@ == GateView::fresh(),
    {
        PlayoutGate { start_deadline_us: 0, started: false }
    }

    /// Arm with a local-clock deadline. Only the first call takes
    /// effect (the first audio chunk anchors the whole stream).
    pub fn arm(&mut self, deadline_us: u64)
        ensures
            final(self)@ == old(self)@.armed_with(deadline_us),
    {
        proof {
            use_type_invariant(&*self);
        }
        if self.start_deadline_us == 0 {
            let deadline: u64 = if deadline_us == 0 {
                1
            } else {
                deadline_us
            };
            self.start_deadline_us = deadline;
        }
    }

    pub fn is_armed(&self) -> (r: bool)
        ensures
            r == (self@.deadline != 0),
    {
        self.start_deadline_us != 0
    }

    pub fn deadline_us(&self) -> (r: u64)
        ensures
            r == self@.deadline,
    {
        self.start_deadline_us
    }

    /// Whether the output should be producing audio at `now_us`. Latches true.
    pub fn should_play(&mut self, now_us: u64) -> (r: bool)
        ensures
            r == old(self)@.plays(now_us),
            final(self)@ == old(self)@.asked(now_us),
    {
        proof {
            use_type_invariant(&*self);
        }
        if self.started {
            return true;
        }
        let deadline: u64 = self.start_deadline_us;
        if deadline != 0 && now_us >= deadline {
            self.started = true;
            true
        } else {
            false
        }
    }

    pub fn has_started(&self) -> (r: bool)
        ensures
            r == self@.started,
            r ==> self@.deadline != 0,
    {
        proof {
            use_type_invariant(self);
        }
        self.started
    }
}

impl Default for PlayoutGate {
    fn default() -> (gate: Self)
        ensures
            gate@ == GateView::fresh(),
    {
        PlayoutGate::new()
    }
}

/// Only the first arming takes effect.
pub proof fn law_first_arming_wins(gate: GateView, first: u64, second: u64)
    ensures
        gate.armed_with(first).armed_with(second) == gate.armed_with(first),
{
}

/// An output that was never armed never plays.
pub proof fn law_unarmed_is_silent(nows: Seq<u64>, now_us: u64)
    ensures
        GateView::fresh().asked_all(nows) == GateView::fresh(),
        !GateView::fresh().asked_all(nows).plays(now_us),
    decreases nows.len(),
{
    if nows.len() > 0 {
        law_unarmed_is_silent(nows.drop_last(), nows.last());
    }
}

/// Playback starts at the deadline: asked at `nows` and then at `now_us`, it
/// plays exactly if one of these times has reached the deadline. So it is
/// silent before, and once it has played it plays at every later question,
/// whatever the time given there.
pub proof fn law_starts_at_the_deadline(deadline_us: u64, nows: Seq<u64>, now_us: u64)
    requires
        deadline_us != 0,
    ensures
        GateView::fresh().armed_with(deadline_us).asked_all(nows).plays(now_us) <==> (now_us
            >= deadline_us || exists|i: int| 0 <= i < nows.len() && #[trigger] nows[i] >= deadline_us),
    decreases nows.len(),
{
    let gate = GateView::fresh().armed_with(deadline_us);
    lemma_deadline_stays(gate, nows);
    if nows.len() > 0 {
        let front = nows.drop_last();
        let last = nows.last();
        law_starts_at_the_deadline(deadline_us, front, last);
        lemma_deadline_stays(gate, front);
        assert(nows[nows.len() - 1] == last);
        assert forall|i: int| 0 <= i < front.len() implies #[trigger] front[i] == nows[i] by {}
        if exists|i: int| 0 <= i < nows.len() && #[trigger] nows[i] >= deadline_us {
            let i = choose|i: int| 0 <= i < nows.len() && #[trigger] nows[i] >= deadline_us;
            if i < front.len() {
                assert(front[i] >= deadline_us);
            }
        }
        if exists|i: int| 0 <= i < front.len() && #[trigger] front[i] >= deadline_us {
            let i = choose|i: int| 0 <= i < front.len() && #[trigger] front[i] >= deadline_us;
            assert(nows[i] >= deadline_us);
        }
    }
}

proof fn lemma_deadline_stays(gate: GateView, nows: Seq<u64>)
    ensures
        gate.asked_all(nows).deadline == gate.deadline,
    decreases nows.len(),
{
    if nows.len() > 0 {
        lemma_deadline_stays(gate, nows.drop_last());
    }
}

/// What arming and asking do: an armed start stays, another is the deadline given,
/// and not before the first microsecond; an output plays from its deadline on and
/// forever once it was seen to play, and asking changes nothing else.
pub proof fn law_arming_and_asking(gate: GateView, deadline_us: u64, now_us: u64)
    ensures
        gate.armed_with(deadline_us).started == gate.started,
        gate.deadline != 0 ==> gate.armed_with(deadline_us).deadline == gate.deadline,
        gate.deadline == 0 && deadline_us > 0 ==> gate.armed_with(deadline_us).deadline
            == deadline_us,
        gate.deadline == 0 ==> gate.armed_with(0).deadline == 1,
        gate.started ==> gate.plays(now_us),
        !gate.started && gate.deadline == 0 ==> !gate.plays(now_us),
        !gate.started && gate.deadline != 0 ==> (gate.plays(now_us) <==> now_us >= gate.deadline),
        gate.asked(now_us).deadline == gate.deadline,
        gate.asked(now_us).started == gate.plays(now_us),
{
}

/// At first there is no deadline, and nothing has started.
pub proof fn law_fresh_start_is_open()
    ensures
        GateView::fresh().deadline == 0,
        !GateView::fresh().started,
{
}

} // verus!
