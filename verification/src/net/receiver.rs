//! The receiving side: what becomes of each datagram.

use vstd::prelude::*;

use crate::audio::level::{law_peak_is_the_maximum, louder, louder_of, peak, peak_of};
use crate::bytes::le_at;
use crate::net::codec::{claimed_samples, holds_packet};
use crate::net::protocol::{
    control_at, control_bytes, deserialize_control, deserialize_packet, law_control_is_not_audio,
    law_control_round_trip, law_fields_are_read_in_place, law_packet_round_trip, lemma_packet_len,
    packet_at, packet_bytes, packet_of, CodecError, ControlMessage, PacketView, MAX_PACKET_SIZE,
};
use crate::net::sender::{cut, joined, reply_to, subscribed_after, PeerAddr, REPORT_INTERVAL};
use crate::state::gate::{GateView, PlayoutGate};
use crate::state::jitter::{after_push, gap, law_pushes_join, JitterBuffer, JitterView};
use crate::sync::clock::{
    law_offset_error, law_offset_is_the_stamp_less_the_middle, law_shortest_round_trip_decides,
    round_trip, sample_fits, sample_offset, ClockSync, ClockView,
};

verus! {

/// Statistics of a running receiver.
#[derive(Debug, Clone, Copy, PartialEq, Eq, Structural)]
pub struct ReceiverReport {
    pub packets_received: u64,
    pub packets_lost: u64,
    /// How many samples the jitter buffer holds.
    pub buffer_fill: usize,
    pub underruns: u64,
    /// The loudest sample since the last report, out of 32768.
    pub peak: u16,
}

/// What a datagram was.
#[derive(Debug, Clone, Copy, PartialEq, Eq, Structural)]
pub enum Received {
    /// A packet of the stream, and the statistics where they are due.
    Audio(Option<ReceiverReport>),
    /// The sender is shutting down.
    Goodbye,
    /// A control message.
    Control(ControlMessage),
    /// Neither.
    Noise(CodecError),
}

/// What a datagram says.
pub enum Datagram {
    Audio(PacketView),
    Goodbye,
    Control(ControlMessage),
    Noise(CodecError),
}

/// What the datagram `data` says. Audio and control share one socket: whatever
/// holds a whole packet is audio, and what is too short for the head of a packet
/// is tried as a control message. A packet that was cut off is neither. The
/// number `u64::MAX` marks the end of the stream.
pub open spec fn datagram(data: Seq<u8>) -> Datagram {
    if holds_packet(data) {
        if packet_at(data).sequence_number == u64::MAX {
            Datagram::Goodbye
        } else {
            Datagram::Audio(packet_at(data))
        }
    } else if data.len() >= 30 {
        Datagram::Noise(CodecError::Malformed)
    } else {
        match control_at(data) {
            Ok(msg) => Datagram::Control(msg),
            Err(e) => Datagram::Noise(e),
        }
    }
}

/// The parts of a receiver that datagrams change.
pub struct ReceiverParts {
    /// The loudest sample since the last report.
    pub peak: u16,
    /// The capture time of the first audio that came.
    pub anchor: Option<u64>,
    pub jitter: JitterView,
    pub clock: ClockView,
    pub gate: GateView,
}

impl ReceiverParts {
    /// The capture time of the first audio, where audio captured at `stamp` has
    /// come.
    pub open spec fn anchored(self, stamp: u64) -> u64 {
        match self.anchor {
            Some(first) => first,
            None => stamp,
        }
    }

    /// After the datagram `d`, with the playout budget `budget_us`, at `now_us`.
    ///
    /// Audio goes into the jitter buffer. The first of it anchors the stream: as
    /// soon as audio comes and the clock offset can be trusted, playback is armed
    /// for when that first audio is due. The answer to a time request goes into
    /// the clock. Nothing else changes anything.
    pub open spec fn after(self, d: Datagram, budget_us: u64, now_us: u64) -> ReceiverParts {
        match d {
            Datagram::Audio(packet) => ReceiverParts {
                peak: if packet.sequence_number % REPORT_INTERVAL == 0 {
                    0
                } else {
                    louder(self.peak as nat, peak(packet.audio_data)) as u16
                },
                anchor: Some(self.anchored(packet.timestamp_micros)),
                jitter: self.jitter.recorded(packet.sequence_number).pushed(packet.audio_data),
                clock: self.clock,
                gate: if self.clock.good() {
                    self.gate.armed_with(
                        self.clock.deadline(self.anchored(packet.timestamp_micros), budget_us),
                    )
                } else {
                    self.gate
                },
            },
            Datagram::Control(ControlMessage::TimeSyncResponse { client_send_us, server_us }) => {
                if sample_fits(client_send_us, server_us, now_us) {
                    ReceiverParts {
                        clock: self.clock.fold(client_send_us, server_us, now_us),
                        ..self
                    }
                } else {
                    self
                }
            },
            _ => self,
        }
    }

    /// What the datagram `d` is reported as.
    pub open spec fn received(self, d: Datagram) -> Received {
        match d {
            Datagram::Audio(packet) => Received::Audio(
                if packet.sequence_number % REPORT_INTERVAL == 0 {
                    let jitter = self.jitter.recorded(packet.sequence_number).pushed(
                        packet.audio_data,
                    );
                    Some(
                        ReceiverReport {
                            packets_received: packet.sequence_number,
                            packets_lost: jitter.packets_lost,
                            buffer_fill: jitter.samples.len() as usize,
                            underruns: jitter.underruns,
                            peak: louder(self.peak as nat, peak(packet.audio_data)) as u16,
                        },
                    )
                } else {
                    None
                },
            ),
            Datagram::Goodbye => Received::Goodbye,
            Datagram::Control(msg) => Received::Control(msg),
            Datagram::Noise(e) => Received::Noise(e),
        }
    }
}

/// The receiver-side session.
pub struct ReceiverSession {
    peak: u16,
    anchor: Option<u64>,
}

impl ReceiverSession {
    /// The loudest sample since the last report.
    pub closed spec fn peak(&self) -> u16 {
        self.peak
    }

    /// The capture time of the first audio that came.
    pub closed spec fn anchor(&self) -> Option<u64> {
        self.anchor
    }

    pub fn new() -> (session: Self)
        ensures
            session.peak() == 0,
            session.anchor() is None,
    {
        ReceiverSession { peak: 0, anchor: None }
    }

    /// Take in one datagram that arrived at `now_us` on the local clock.
    pub fn receive(
        &mut self,
        data: &[u8],
        jitter: &mut JitterBuffer,
        clock: &mut ClockSync,
        gate: &mut PlayoutGate,
        budget_us: u64,
        now_us: u64,
    ) -> (r: Received)
        ensures
            ({
                let before = ReceiverParts {
                    peak: old(self).peak(),
                    anchor: old(self).anchor(),
                    jitter: old(jitter)@,
                    clock: old(clock)@,
                    gate: old(gate)@,
                };
                let after = ReceiverParts {
                    peak: final(self).peak(),
                    anchor: final(self).anchor(),
                    jitter: final(jitter)@,
                    clock: final(clock)@,
                    gate: final(gate)@,
                };
                &&& after == before.after(datagram(data@), budget_us, now_us)
                &&& r == before.received(datagram(data@))
            }),
    {
        match deserialize_packet(data) {
            Ok(packet) => {
                let seq: u64 = packet.sequence_number;
                if seq == u64::MAX {
                    return Received::Goodbye;
                }
                jitter.record_sequence(seq);
                self.peak = louder_of(self.peak, peak_of(packet.audio_data.as_slice()));
                let first: u64 = match self.anchor {
                    Some(first) => first,
                    None => packet.timestamp_micros,
                };
                self.anchor = Some(first);
                if clock.is_good() {
                    gate.arm(clock.playout_deadline_us(first, budget_us));
                }
                jitter.push_packet(packet.audio_data.as_slice());
                if seq % REPORT_INTERVAL == 0 {
                    let report = ReceiverReport {
                        packets_received: seq,
                        packets_lost: jitter.packets_lost(),
                        buffer_fill: jitter.fill_samples(),
                        underruns: jitter.underruns(),
                        peak: self.peak,
                    };
                    self.peak = 0;
                    Received::Audio(Some(report))
                } else {
                    Received::Audio(None)
                }
            },
            Err(_) => if data.len() >= 30 {
                Received::Noise(CodecError::Malformed)
            } else {
                match deserialize_control(data) {
                    Ok(msg) => {
                        if let ControlMessage::TimeSyncResponse { client_send_us, server_us } = msg {
                            let _ = clock.try_update(client_send_us, server_us, now_us);
                        }
                        Received::Control(msg)
                    },
                    Err(e) => Received::Noise(e),
                }
            },
        }
    }
}

/// How often the sender is asked for its clock, in microseconds.
pub const TIME_REQUEST_US: u64 = 250_000;

/// Whether the sender is to be asked for its clock at `now_us`, given when it was
/// asked last.
pub fn time_request_due(last_us: Option<u64>, now_us: u64) -> (due: bool)
    ensures
        due == (match last_us {
            Some(last) => now_us - last >= TIME_REQUEST_US,
            None => true,
        }),
{
    match last_us {
        Some(last) => now_us >= last && now_us - last >= TIME_REQUEST_US,
        None => true,
    }
}

/// Why nothing was received.
#[derive(Debug, Clone, Copy, PartialEq, Eq, Structural)]
pub enum ReceiveFailure {
    /// Nothing came in time.
    TimedOut,
    /// The socket reported an error.
    Broken,
}

/// How the receive loop goes on.
#[derive(Debug, Clone, Copy, PartialEq, Eq, Structural)]
pub enum LoopStep {
    /// At once.
    Again,
    /// After a short pause.
    Pause,
    /// Not at all.
    Stop,
}

/// How the receive loop goes on when nothing was received: a timeout is there to
/// notice the wish to stop, and an error is the end only with that wish.
pub fn after_failure(failure: ReceiveFailure, stop: bool) -> (step: LoopStep)
    ensures
        step == (match failure {
            ReceiveFailure::TimedOut => LoopStep::Again,
            ReceiveFailure::Broken => if stop {
                LoopStep::Stop
            } else {
                LoopStep::Pause
            },
        }),
{
    match failure {
        ReceiveFailure::TimedOut => LoopStep::Again,
        ReceiveFailure::Broken => if stop {
            LoopStep::Stop
        } else {
            LoopStep::Pause
        },
    }
}

/// What the sender streams arrives as it was captured: the datagram of every
/// packet but the one that marks the end is audio, with the samples, the number
/// and the capture time that the sender gave it.
pub proof fn law_stream_arrives(sequence_number: u64, capture_ts: u64, audio: Seq<i16>)
    requires
        sequence_number != u64::MAX,
        audio.len() <= u64::MAX,
    ensures
        datagram(packet_bytes(packet_of(sequence_number, capture_ts, audio))) == Datagram::Audio(
            packet_of(sequence_number, capture_ts, audio),
        ),
{
    let packet = packet_of(sequence_number, capture_ts, audio);
    law_packet_round_trip(packet, Seq::empty());
    assert(packet_bytes(packet) + Seq::empty() =~= packet_bytes(packet));
}

impl ReceiverParts {
    /// After the packets of a stream, in order: packet `i` has the number
    /// `first + i`, the capture time `stamps[i]` and the audio `chunks[i]`.
    pub open spec fn after_stream(
        self,
        first: u64,
        stamps: Seq<u64>,
        chunks: Seq<Seq<i16>>,
        budget_us: u64,
        now_us: u64,
    ) -> ReceiverParts
        decreases chunks.len(),
    {
        if chunks.len() == 0 {
            self
        } else {
            let front = chunks.drop_last();
            let packet = packet_of(
                (first + front.len()) as u64,
                stamps[front.len() as int],
                chunks.last(),
            );
            self.after_stream(first, stamps, front, budget_us, now_us).after(
                datagram(packet_bytes(packet)),
                budget_us,
                now_us,
            )
        }
    }
}

/// From end to end: where every packet of a stream arrives in order, what the
/// receiver has to play is what it had and then everything that was captured,
/// sample by sample, less the oldest samples beyond the cap, and no packet counts
/// as lost.
pub proof fn law_captured_audio_is_held(
    parts: ReceiverParts,
    first: u64,
    stamps: Seq<u64>,
    chunks: Seq<Seq<i16>>,
    budget_us: u64,
    now_us: u64,
)
    requires
        parts.jitter.cap matches Some(max) ==> parts.jitter.samples.len() <= max,
        parts.jitter.last_sequence == u64::MAX || parts.jitter.last_sequence + 1 == first,
        first + chunks.len() <= u64::MAX,
        forall|i: int| 0 <= i < chunks.len() ==> (#[trigger] chunks[i]).len() <= u64::MAX,
    ensures
        ({
            let after = parts.after_stream(first, stamps, chunks, budget_us, now_us);
            &&& after.jitter.samples == after_push(
                parts.jitter.samples,
                parts.jitter.cap,
                joined(chunks),
            )
            &&& after.jitter.packets_lost == parts.jitter.packets_lost
            &&& after.jitter.cap == parts.jitter.cap
            &&& chunks.len() > 0 ==> after.jitter.last_sequence == first + chunks.len() - 1
            &&& chunks.len() == 0 ==> after == parts
        }),
    decreases chunks.len(),
{
    let held = parts.jitter.samples;
    let cap = parts.jitter.cap;
    if chunks.len() == 0 {
        assert(after_push(held, cap, joined(chunks)) =~= held);
    } else {
        let front = chunks.drop_last();
        assert forall|i: int| 0 <= i < front.len() implies (#[trigger] front[i]).len()
            <= u64::MAX by {
            assert(front[i] == chunks[i]);
        }
        law_captured_audio_is_held(parts, first, stamps, front, budget_us, now_us);
        let before = parts.after_stream(first, stamps, front, budget_us, now_us);
        let number = (first + front.len()) as u64;
        assert(chunks[chunks.len() - 1] == chunks.last());
        lemma_packet_is_held(
            before,
            number,
            stamps[front.len() as int],
            chunks.last(),
            budget_us,
            now_us,
        );
        law_pushes_join(held, cap, joined(front), chunks.last());
    }
}

/// The next packet of a stream is held behind what was held before.
proof fn lemma_packet_is_held(
    parts: ReceiverParts,
    number: u64,
    stamp: u64,
    audio: Seq<i16>,
    budget_us: u64,
    now_us: u64,
)
    requires
        parts.jitter.last_sequence == u64::MAX || parts.jitter.last_sequence + 1 == number,
        number != u64::MAX,
        audio.len() <= u64::MAX,
    ensures
        ({
            let after = parts.after(
                datagram(packet_bytes(packet_of(number, stamp, audio))),
                budget_us,
                now_us,
            );
            &&& after.jitter.samples == after_push(parts.jitter.samples, parts.jitter.cap, audio)
            &&& after.jitter.packets_lost == parts.jitter.packets_lost
            &&& after.jitter.cap == parts.jitter.cap
            &&& after.jitter.last_sequence == number
        }),
{
    law_stream_arrives(number, stamp, audio);
    let after = parts.after(
        Datagram::Audio(packet_of(number, stamp, audio)),
        budget_us,
        now_us,
    );
    assert(after.jitter == parts.jitter.recorded(number).pushed(audio));
}

impl ReceiverParts {
    /// Nothing has come yet: nothing held, no audio seen, playback not armed.
    pub open spec fn untouched(self) -> bool {
        &&& self.jitter.samples.len() == 0
        &&& self.anchor is None
        &&& self.gate == GateView::fresh()
    }

    /// After the datagrams of `events`, in order, each with the time at which it
    /// came.
    pub open spec fn after_all(self, events: Seq<(Datagram, u64)>, budget_us: u64) -> ReceiverParts
        decreases events.len(),
    {
        if events.len() == 0 {
            self
        } else {
            self.after_all(events.drop_last(), budget_us).after(
                events.last().0,
                budget_us,
                events.last().1,
            )
        }
    }
}

/// The audio in `events`, chunk by chunk.
pub open spec fn audio_chunks(events: Seq<(Datagram, u64)>) -> Seq<Seq<i16>>
    decreases events.len(),
{
    if events.len() == 0 {
        Seq::empty()
    } else {
        match events.last().0 {
            Datagram::Audio(packet) => audio_chunks(events.drop_last()).push(packet.audio_data),
            _ => audio_chunks(events.drop_last()),
        }
    }
}

/// The capture time of the first audio in `events`.
pub open spec fn first_stamp(events: Seq<(Datagram, u64)>) -> Option<u64>
    decreases events.len(),
{
    if events.len() == 0 {
        None
    } else {
        match (first_stamp(events.drop_last()), events.last().0) {
            (Some(first), _) => Some(first),
            (None, Datagram::Audio(packet)) => Some(packet.timestamp_micros),
            (None, _) => None,
        }
    }
}

/// The start belongs to the audio that is held. Whatever datagrams come, with
/// whatever lost or late among them and whenever the clock becomes good: what is
/// held is all the audio that came, in order, less the oldest beyond the cap; and
/// once playback is armed, it is armed for when the first of that audio is due,
/// by the clock as it was known at some point.
pub proof fn law_first_audio_anchors_the_stream(
    parts: ReceiverParts,
    events: Seq<(Datagram, u64)>,
    budget_us: u64,
)
    requires
        parts.untouched(),
    ensures
        ({
            let after = parts.after_all(events, budget_us);
            &&& after.anchor == first_stamp(events)
            &&& after.jitter.cap == parts.jitter.cap
            &&& after.jitter.samples == after_push(
                Seq::empty(),
                parts.jitter.cap,
                joined(audio_chunks(events)),
            )
            &&& after.gate.deadline != 0 ==> exists|k: int|
                {
                    &&& 0 <= k < events.len()
                    &&& armed_at(parts, events, budget_us, k)
                }
            &&& after.gate.deadline == 0 ==> after.gate == GateView::fresh()
        }),
    decreases events.len(),
{
    let cap = parts.jitter.cap;
    let after = parts.after_all(events, budget_us);
    if events.len() == 0 {
        assert(parts.jitter.samples =~= Seq::<i16>::empty());
        assert(after_push(Seq::empty(), cap, joined(audio_chunks(events))) =~= Seq::<i16>::empty());
    } else {
        let front = events.drop_last();
        let last = events.last().0;
        law_first_audio_anchors_the_stream(parts, front, budget_us);
        let before = parts.after_all(front, budget_us);
        if let Datagram::Audio(packet) = last {
            let chunks = audio_chunks(events);
            assert(chunks.drop_last() =~= audio_chunks(front));
            law_pushes_join(Seq::empty(), cap, joined(audio_chunks(front)), packet.audio_data);
        }
        if after.gate.deadline != 0 {
            if before.gate.deadline != 0 {
                let k = choose|k: int|
                    0 <= k < front.len() && armed_at(parts, front, budget_us, k);
                assert(front.take(k) =~= events.take(k));
                assert(after.gate == before.gate);
                assert(armed_at(parts, events, budget_us, k));
            } else {
                assert(events.take(events.len() - 1) =~= front);
                assert(armed_at(parts, events, budget_us, events.len() - 1));
            }
        }
    }
}

/// Playback is armed for when the first audio of `events` is due, by the clock as
/// it was known, and good, before event `k`.
pub open spec fn armed_at(
    parts: ReceiverParts,
    events: Seq<(Datagram, u64)>,
    budget_us: u64,
    k: int,
) -> bool {
    let clock = parts.after_all(events.take(k), budget_us).clock;
    &&& clock.good()
    &&& first_stamp(events) is Some
    &&& parts.after_all(events, budget_us).gate == GateView::fresh().armed_with(
        clock.deadline(first_stamp(events)->Some_0, budget_us),
    )
}

/// What one sample of the clock means for the start. Let a receiver that had
/// nothing be armed by the clock it had before event `k`, let that clock be
/// from a round trip of `there` and `back`, and let the source's clock be ahead
/// by `true_offset`. Then the receiver starts to play, seen on the source's
/// clock, within 20 ms of the budget after the capture of the first audio that
/// came, and that audio is what it starts with, if all that came fits the cap.
pub proof fn law_audio_is_played_when_due(
    parts: ReceiverParts,
    events: Seq<(Datagram, u64)>,
    budget_us: u64,
    k: int,
    client_send_us: u64,
    there: nat,
    back: nat,
    true_offset: int,
)
    requires
        parts.untouched(),
        0 <= k < events.len(),
        armed_at(parts, events, budget_us, k),
        client_send_us + there + back <= i64::MAX,
        0 <= client_send_us + there + true_offset <= i64::MAX,
        ({
            let clock = parts.after_all(events.take(k), budget_us).clock;
            let capture_ts = first_stamp(events)->Some_0;
            &&& clock.best_rtt == there + back
            &&& clock.offset == sample_offset(
                client_send_us,
                (client_send_us + there + true_offset) as u64,
                (client_send_us + there + back) as u64,
            )
            &&& capture_ts <= i64::MAX
            &&& 0 < clock.to_local(capture_ts) + budget_us <= u64::MAX
        }),
    ensures
        ({
            let after = parts.after_all(events, budget_us);
            let due = first_stamp(events)->Some_0 + budget_us;
            let audio = joined(audio_chunks(events));
            &&& -20_000 <= after.gate.deadline + true_offset - due <= 20_000
            &&& (parts.jitter.cap matches Some(max) ==> audio.len() <= max) ==> after.jitter.samples
                == audio
        }),
{
    let clock = parts.after_all(events.take(k), budget_us).clock;
    law_endpoints_start_together(
        clock,
        client_send_us,
        there,
        back,
        true_offset,
        first_stamp(events)->Some_0,
        budget_us,
    );
    law_first_audio_anchors_the_stream(parts, events, budget_us);
    let audio = joined(audio_chunks(events));
    assert(Seq::<i16>::empty() + audio =~= audio);
}

/// The answers to time requests in `events`, as samples of the clock: those whose
/// offset is a signed 64-bit number.
pub open spec fn time_answers(events: Seq<(Datagram, u64)>) -> Seq<(u64, u64, u64)>
    decreases events.len(),
{
    if events.len() == 0 {
        Seq::empty()
    } else {
        let front = time_answers(events.drop_last());
        let now_us = events.last().1;
        match events.last().0 {
            Datagram::Control(ControlMessage::TimeSyncResponse { client_send_us, server_us }) => {
                if sample_fits(client_send_us, server_us, now_us) {
                    front.push((client_send_us, server_us, now_us))
                } else {
                    front
                }
            },
            _ => front,
        }
    }
}

/// The clock is what the answers to time requests say, and nothing else: from a
/// fresh clock on, it is all of them folded in, in order.
pub proof fn law_clock_is_from_the_answers(
    parts: ReceiverParts,
    events: Seq<(Datagram, u64)>,
    budget_us: u64,
)
    requires
        parts.clock == ClockView::fresh(),
    ensures
        parts.after_all(events, budget_us).clock == ClockView::fold_all(time_answers(events)),
    decreases events.len(),
{
    if events.len() > 0 {
        let front = time_answers(events.drop_last());
        law_clock_is_from_the_answers(parts, events.drop_last(), budget_us);
        if let Datagram::Control(
            ControlMessage::TimeSyncResponse { client_send_us, server_us },
        ) = events.last().0 {
            let sample = (client_send_us, server_us, events.last().1);
            assert(front.push(sample).drop_last() =~= front);
        }
    }
}

/// The sample is from a true round trip to a clock that is ahead by
/// `true_offset`: the sender stamped it after it was sent and before the answer
/// came, and the times are below the sign bit.
pub open spec fn true_round_trip(sample: (u64, u64, u64), true_offset: int) -> bool {
    &&& sample.0 <= sample.1 - true_offset <= sample.2
    &&& sample.1 <= i64::MAX
    &&& sample.2 <= i64::MAX
}

/// Every endpoint plays audio the budget after its capture. Let a receiver that
/// had nothing get any datagrams, of which the answers to time requests are from
/// true round trips to a source whose clock is ahead by `true_offset`. Once it is
/// armed, it starts to play within 20 ms of when the source plays the first audio
/// that came, the budget after its capture; and that audio is what it starts with,
/// if all that came fits the cap.
pub proof fn law_every_endpoint_plays_at_the_same_instant(
    parts: ReceiverParts,
    events: Seq<(Datagram, u64)>,
    budget_us: u64,
    true_offset: int,
)
    requires
        parts.untouched(),
        parts.clock == ClockView::fresh(),
        forall|i: int|
            0 <= i < time_answers(events).len() ==> true_round_trip(
                #[trigger] time_answers(events)[i],
                true_offset,
            ),
        parts.after_all(events, budget_us).gate.deadline != 0,
        first_stamp(events) matches Some(capture_ts) ==> {
            &&& capture_ts <= i64::MAX
            &&& 0 <= capture_ts + budget_us - true_offset <= u64::MAX
        },
    ensures
        ({
            let after = parts.after_all(events, budget_us);
            let source = first_stamp(events)->Some_0 + budget_us;
            let audio = joined(audio_chunks(events));
            &&& first_stamp(events) is Some
            &&& -20_000 <= after.gate.deadline + true_offset - source <= 20_000
            &&& (parts.jitter.cap matches Some(max) ==> audio.len() <= max) ==> after.jitter.samples
                == audio
        }),
{
    law_first_audio_anchors_the_stream(parts, events, budget_us);
    let k = choose|k: int| 0 <= k < events.len() && armed_at(parts, events, budget_us, k);
    let known = events.take(k);
    let samples = time_answers(known);
    let clock = parts.after_all(known, budget_us).clock;
    law_clock_is_from_the_answers(parts, known, budget_us);
    assert(samples.len() > 0);
    law_shortest_round_trip_decides(samples);
    let j = choose|j: int|
        {
            &&& 0 <= j < samples.len()
            &&& clock.best_rtt == round_trip((#[trigger] samples[j]).0, samples[j].2)
            &&& clock.offset == sample_offset(samples[j].0, samples[j].1, samples[j].2)
            &&& forall|i: int|
                j < i < samples.len() ==> clock.best_rtt < round_trip(
                    (#[trigger] samples[i]).0,
                    samples[i].2,
                )
        };
    lemma_answers_stay(events, k);
    assert(time_answers(events)[j] == samples[j]);
    let s = samples[j];
    let there = (s.1 - true_offset - s.0) as nat;
    let back = (s.2 - (s.1 - true_offset)) as nat;
    law_offset_error(s.0, there, back, true_offset);
    let audio = joined(audio_chunks(events));
    assert(Seq::<i16>::empty() + audio =~= audio);
}

/// More datagrams add answers behind those that were there.
proof fn lemma_answers_stay(events: Seq<(Datagram, u64)>, k: int)
    requires
        0 <= k <= events.len(),
    ensures
        time_answers(events.take(k)).len() <= time_answers(events).len(),
        forall|i: int|
            0 <= i < time_answers(events.take(k)).len() ==> time_answers(events)[i]
                == #[trigger] time_answers(events.take(k))[i],
    decreases events.len(),
{
    if k == events.len() {
        assert(events.take(k) =~= events);
    } else {
        lemma_answers_stay(events.drop_last(), k);
        assert(events.drop_last().take(k) =~= events.take(k));
    }
}

/// The same for the packets of a stream: a receiver that had nothing and has a
/// clock is armed for when the first chunk is due, if at all, and holds the
/// chunks from the first on, less the oldest samples beyond the cap.
pub proof fn law_first_chunk_is_due_at_the_start(
    parts: ReceiverParts,
    first: u64,
    stamps: Seq<u64>,
    chunks: Seq<Seq<i16>>,
    budget_us: u64,
    now_us: u64,
)
    requires
        parts.untouched(),
        first + chunks.len() <= u64::MAX,
        forall|i: int| 0 <= i < chunks.len() ==> (#[trigger] chunks[i]).len() <= u64::MAX,
    ensures
        ({
            let after = parts.after_stream(first, stamps, chunks, budget_us, now_us);
            let due = parts.clock.deadline(stamps[0], budget_us);
            &&& after.gate.deadline != 0 ==> after.gate.deadline == (if due == 0 {
                1
            } else {
                due
            })
            &&& after.gate.deadline != 0 <==> parts.clock.good() && chunks.len() > 0
            &&& after.jitter.samples == after_push(
                Seq::empty(),
                parts.jitter.cap,
                joined(chunks),
            )
            &&& after.jitter.cap == parts.jitter.cap
            &&& after.clock == parts.clock
            &&& after.anchor == (if chunks.len() > 0 {
                Some(stamps[0])
            } else {
                None
            })
        }),
    decreases chunks.len(),
{
    let cap = parts.jitter.cap;
    if chunks.len() == 0 {
        assert(parts.jitter.samples =~= Seq::<i16>::empty());
        assert(after_push(Seq::empty(), cap, joined(chunks)) =~= Seq::<i16>::empty());
    } else {
        let front = chunks.drop_last();
        assert forall|i: int| 0 <= i < front.len() implies (#[trigger] front[i]).len()
            <= u64::MAX by {
            assert(front[i] == chunks[i]);
        }
        law_first_chunk_is_due_at_the_start(parts, first, stamps, front, budget_us, now_us);
        assert(chunks[chunks.len() - 1] == chunks.last());
        law_stream_arrives(
            (first + front.len()) as u64,
            stamps[front.len() as int],
            chunks.last(),
        );
        law_pushes_join(Seq::empty(), cap, joined(front), chunks.last());
    }
}

/// A chunk that fits a datagram is sent whole. The datagram of one that does not
/// is taken neither for audio nor for a control message and changes nothing; the
/// packet behind it then counts one packet as lost.
pub proof fn law_cut_packet_is_lost(
    parts: ReceiverParts,
    sequence_number: u64,
    capture_ts: u64,
    audio: Seq<i16>,
    budget_us: u64,
    now_us: u64,
)
    requires
        audio.len() <= u64::MAX,
    ensures
        ({
            let bytes = packet_bytes(packet_of(sequence_number, capture_ts, audio));
            let fits = 30 + 2 * audio.len() <= MAX_PACKET_SIZE;
            &&& fits ==> cut(bytes) == bytes
            &&& !fits ==> datagram(cut(bytes)) == Datagram::Noise(CodecError::Malformed)
            &&& !fits ==> parts.after(datagram(cut(bytes)), budget_us, now_us) == parts
        }),
        sequence_number < u64::MAX && 0 < sequence_number ==> gap(
            (sequence_number - 1) as u64,
            (sequence_number + 1) as u64,
        ) == 1,
{
    let packet = packet_of(sequence_number, capture_ts, audio);
    let bytes = packet_bytes(packet);
    lemma_packet_len(packet);
    if 30 + 2 * audio.len() > MAX_PACKET_SIZE {
        law_packet_round_trip(packet, Seq::empty());
        assert(bytes + Seq::empty() =~= bytes);
        assert(cut(bytes).subrange(22, 30) =~= bytes.subrange(22, 30));
        assert(claimed_samples(bytes) == audio.len()) by {
            assert(packet_at(bytes).audio_data.len() == claimed_samples(bytes));
        }
    }
}

/// The end of the stream is understood as such.
pub proof fn law_goodbye_arrives()
    ensures
        datagram(packet_bytes(packet_of(u64::MAX, 0, Seq::empty()))) is Goodbye,
{
    let packet = packet_of(u64::MAX, 0, Seq::empty());
    law_packet_round_trip(packet, Seq::empty());
    assert(packet_bytes(packet) + Seq::empty() =~= packet_bytes(packet));
}

/// Control messages on the audio socket are understood as control messages.
pub proof fn law_control_arrives(msg: ControlMessage)
    ensures
        datagram(control_bytes(msg)) == Datagram::Control(msg),
{
    law_control_is_not_audio(msg);
    law_control_round_trip(msg, Seq::empty());
    assert(control_bytes(msg) + Seq::empty() =~= control_bytes(msg));
}

/// Two endpoints mean the same instant. The source plays a chunk captured
/// at `capture_ts` at `capture_ts + budget_us` on its clock. Let that clock be
/// ahead of the receiver's by `true_offset`, and let the receiver's estimate, of
/// however many, be from a round trip that took `there` and `back`. Then the
/// receiver's deadline for the same chunk, seen on the source's clock, differs
/// from the source's by at most half the round trip, and for a good clock by at
/// most 20 ms.
pub proof fn law_endpoints_start_together(
    clock: ClockView,
    client_send_us: u64,
    there: nat,
    back: nat,
    true_offset: int,
    capture_ts: u64,
    budget_us: u64,
)
    requires
        client_send_us + there + back <= i64::MAX,
        0 <= client_send_us + there + true_offset <= i64::MAX,
        clock.synced,
        clock.best_rtt == there + back,
        clock.offset == sample_offset(
            client_send_us,
            (client_send_us + there + true_offset) as u64,
            (client_send_us + there + back) as u64,
        ),
        capture_ts <= i64::MAX,
        0 <= clock.to_local(capture_ts) + budget_us <= u64::MAX,
    ensures
        ({
            let source = capture_ts + budget_us;
            let receiver = clock.deadline(capture_ts, budget_us) + true_offset;
            &&& -(there + back) - 1 <= 2 * (receiver - source) <= there + back
            &&& clock.good() ==> -20_000 <= receiver - source <= 20_000
        }),
{
    law_offset_error(client_send_us, there, back, true_offset);
}

/// A receiver's start is fixed once and for good by the first audio that comes
/// when the clock is good; no later datagram moves it.
pub proof fn law_start_is_fixed(
    parts: ReceiverParts,
    d: Datagram,
    budget_us: u64,
    now_us: u64,
)
    ensures
        parts.gate.deadline != 0 ==> parts.after(d, budget_us, now_us).gate == parts.gate,
        parts.clock.good() && d is Audio ==> parts.after(d, budget_us, now_us).gate.deadline != 0,
        !parts.clock.good() ==> parts.after(d, budget_us, now_us).gate == parts.gate,
{
}

/// What a datagram is, by its length and its first 30 bytes: audio if it is as
/// long as its sample count says, the end of the stream if its number is the
/// largest; a control message if it is shorter than 30 bytes and reads as one.
pub proof fn law_what_a_datagram_is(data: Seq<u8>)
    ensures
        ({
            let whole = data.len() >= 30 && data.len() >= 30 + 2 * le_at(data, 22, 8);
            let last = le_at(data, 0, 8) == u64::MAX;
            &&& whole && last <==> datagram(data) is Goodbye
            &&& whole && !last <==> datagram(data) is Audio
            &&& whole && !last ==> datagram(data)->Audio_0 == packet_at(data)
            &&& data.len() < 30 && control_at(data) is Ok ==> datagram(data) == Datagram::Control(
                control_at(data)->Ok_0,
            )
            &&& data.len() < 30 && control_at(data) is Err ==> datagram(data) == Datagram::Noise(
                control_at(data)->Err_0,
            )
            &&& data.len() >= 30 && !whole ==> datagram(data) == Datagram::Noise(
                CodecError::Malformed,
            )
        }),
{
    if data.len() >= 30 {
        law_fields_are_read_in_place(data);
    }
}

/// What audio changes: its number and its samples go to the jitter buffer, the
/// first of it stays the anchor, a good clock arms playback by that anchor, and
/// its level is kept until it was reported. The clock is left alone.
pub proof fn law_what_audio_changes(
    parts: ReceiverParts,
    packet: PacketView,
    budget_us: u64,
    now_us: u64,
)
    ensures
        ({
            let after = parts.after(Datagram::Audio(packet), budget_us, now_us);
            let first = match parts.anchor {
                Some(stamp) => stamp,
                None => packet.timestamp_micros,
            };
            let reported = packet.sequence_number % 50 == 0;
            &&& after.jitter == parts.jitter.recorded(packet.sequence_number).pushed(
                packet.audio_data,
            )
            &&& after.clock == parts.clock
            &&& after.anchor == Some(first)
            &&& !parts.clock.good() ==> after.gate == parts.gate
            &&& parts.clock.good() ==> after.gate == parts.gate.armed_with(
                parts.clock.deadline(first, budget_us),
            )
            &&& reported ==> after.peak == 0
            &&& !reported ==> after.peak == louder(parts.peak as nat, peak(packet.audio_data))
            &&& parts.received(Datagram::Audio(packet)) is Audio
            &&& (parts.received(Datagram::Audio(packet))->Audio_0 is Some <==> reported)
        }),
{
    law_peak_is_the_maximum(packet.audio_data);
}

/// What a report says: the number of its packet, and of the jitter buffer with
/// this packet in it the losses, the fill and the underruns; and the loudest
/// sample since the last report.
pub proof fn law_report_is_about_the_buffer(parts: ReceiverParts, packet: PacketView)
    requires
        packet.sequence_number % 50 == 0,
        parts.jitter.recorded(packet.sequence_number).pushed(packet.audio_data).samples.len()
            <= usize::MAX,
    ensures
        ({
            let jitter = parts.jitter.recorded(packet.sequence_number).pushed(packet.audio_data);
            let report = parts.received(Datagram::Audio(packet))->Audio_0->Some_0;
            &&& report.packets_received == packet.sequence_number
            &&& report.packets_lost == jitter.packets_lost
            &&& report.buffer_fill == jitter.samples.len()
            &&& report.underruns == parts.jitter.underruns
            &&& report.peak == louder(parts.peak as nat, peak(packet.audio_data))
        }),
{
    law_peak_is_the_maximum(packet.audio_data);
}

/// What everything else changes: the answer to a time request the clock, if its
/// offset is a number that fits, and nothing but the clock; the rest nothing.
pub proof fn law_what_other_datagrams_change(
    parts: ReceiverParts,
    msg: ControlMessage,
    e: CodecError,
    budget_us: u64,
    now_us: u64,
)
    ensures
        parts.after(Datagram::Goodbye, budget_us, now_us) == parts,
        parts.after(Datagram::Noise(e), budget_us, now_us) == parts,
        ({
            let after = parts.after(Datagram::Control(msg), budget_us, now_us);
            &&& after.jitter == parts.jitter
            &&& after.gate == parts.gate
            &&& after.peak == parts.peak
            &&& after.anchor == parts.anchor
            &&& !(msg is TimeSyncResponse) ==> after.clock == parts.clock
            &&& msg matches ControlMessage::TimeSyncResponse { client_send_us, server_us }
                ==> after.clock == (if sample_fits(client_send_us, server_us, now_us) {
                parts.clock.fold(client_send_us, server_us, now_us)
            } else {
                parts.clock
            })
        }),
        parts.received(Datagram::Goodbye) == Received::Goodbye,
        parts.received(Datagram::Control(msg)) == Received::Control(msg),
        parts.received(Datagram::Noise(e)) == Received::Noise(e),
{
}

/// Asking for the time synchronizes the clock. Whoever asks, subscribed or not, is
/// answered by the sender with its clock; and once the answer is there, the clock
/// is synchronized, and good if the answer took at most 40 ms.
pub proof fn law_asking_for_the_time_synchronizes(
    receivers: Set<PeerAddr>,
    from: PeerAddr,
    parts: ReceiverParts,
    budget_us: u64,
    client_send_us: u64,
    server_us: u64,
    client_recv_us: u64,
)
    requires
        client_send_us <= client_recv_us <= i64::MAX,
        server_us <= i64::MAX,
        !parts.clock.synced ==> parts.clock.best_rtt == u64::MAX,
    ensures
        ({
            let request = control_bytes(ControlMessage::TimeSyncRequest { client_send_us });
            let reply = reply_to(control_at(request), receivers.contains(from), server_us);
            let after = parts.after(
                datagram(control_bytes(reply->Some_0)),
                budget_us,
                client_recv_us,
            );
            &&& reply == Some(ControlMessage::TimeSyncResponse { client_send_us, server_us })
            &&& subscribed_after(receivers, control_at(request), from) == receivers
            &&& after.clock.synced
            &&& after.clock.best_rtt <= client_recv_us - client_send_us
            &&& client_recv_us - client_send_us <= 40_000 ==> after.clock.good()
        }),
{
    let ask = ControlMessage::TimeSyncRequest { client_send_us };
    let answer = ControlMessage::TimeSyncResponse { client_send_us, server_us };
    law_control_round_trip(ask, Seq::empty());
    assert(control_bytes(ask) + Seq::empty() =~= control_bytes(ask));
    law_control_arrives(answer);
    law_offset_is_the_stamp_less_the_middle(client_send_us, server_us, client_recv_us);
}

} // verus!
