//! The sending side: who listens, what they are answered, and the packets they
//! get.

use vstd::prelude::*;

use crate::audio::level::{louder, louder_of, peak, peak_of};
use crate::bytes::le_at;
use crate::net::protocol::{
    build_packet, control_at, control_bytes, deserialize_control, law_fields_are_read_in_place,
    law_packet_round_trip, lemma_packet_len, packet_bytes, packet_of, serialize_control,
    serialize_packet, CodecError, ControlMessage, MAX_PACKET_SIZE,
};
use crate::state::gate::{GateView, PlayoutGate};
use crate::state::jitter::{after_push, law_pushes_join, JitterBuffer, JitterView};

verus! {

/// Every how many packets the statistics are reported.
pub const REPORT_INTERVAL: u64 = 50;

/// The network address of a receiver.
#[derive(Debug, Clone, Copy, PartialEq, Eq, Structural)]
pub enum PeerAddr {
    V4 { ip: u32, port: u16 },
    V6 { ip6: u128, port: u16, flowinfo: u32, scope_id: u32 },
}

/// Per-receiver bookkeeping. Presence is what counts; the counters are reserved
/// for per-receiver statistics.
#[derive(Debug, Clone, Copy, PartialEq, Eq, Structural)]
pub struct ReceiverStats {
    pub packets_sent: u64,
    pub bytes_sent: u64,
}

impl Default for ReceiverStats {
    fn default() -> (stats: Self)
        ensures
            stats == (ReceiverStats { packets_sent: 0, bytes_sent: 0 }),
    {
        ReceiverStats { packets_sent: 0, bytes_sent: 0 }
    }
}

/// Statistics of a running sender.
#[derive(Debug, Clone, Copy, PartialEq, Eq, Structural)]
pub struct SenderReport {
    pub packets_sent: u64,
    pub bytes_sent: u64,
    pub receiver_count: usize,
    /// The loudest sample since the last report, out of 32768.
    pub peak: u16,
}

/// A datagram for every receiver, and the statistics where they are due.
pub struct Outgoing {
    pub datagram: Vec<u8>,
    pub report: Option<SenderReport>,
}

/// What the sender answers to `msg`: a welcome to a new receiver, a goodbye to
/// one that leaves, its clock to one that asks. `known` says whether the
/// receiver is subscribed already.
pub open spec fn reply_to(
    msg: Result<ControlMessage, CodecError>,
    known: bool,
    now_us: u64,
) -> Option<ControlMessage> {
    match msg {
        Ok(ControlMessage::Subscribe) => if known {
            None
        } else {
            Some(ControlMessage::Welcome { sample_rate: 48000, channels: 2 })
        },
        Ok(ControlMessage::Unsubscribe) => Some(ControlMessage::Goodbye),
        Ok(ControlMessage::TimeSyncRequest { client_send_us }) => Some(
            ControlMessage::TimeSyncResponse { client_send_us, server_us: now_us },
        ),
        _ => None,
    }
}

/// Who is subscribed after `msg` came from `from`.
pub open spec fn subscribed_after(
    receivers: Set<PeerAddr>,
    msg: Result<ControlMessage, CodecError>,
    from: PeerAddr,
) -> Set<PeerAddr> {
    match msg {
        Ok(ControlMessage::Subscribe) => receivers.insert(from),
        Ok(ControlMessage::Unsubscribe) => receivers.remove(from),
        _ => receivers,
    }
}

/// What of a packet's bytes goes into its datagram: all of them, or as many as
/// the largest datagram takes.
pub open spec fn cut(bytes: Seq<u8>) -> Seq<u8> {
    if bytes.len() > MAX_PACKET_SIZE {
        bytes.take(MAX_PACKET_SIZE as int)
    } else {
        bytes
    }
}

/// How long the datagram with `samples` samples is.
pub open spec fn datagram_len(samples: nat) -> nat {
    if 30 + 2 * samples > MAX_PACKET_SIZE {
        MAX_PACKET_SIZE as nat
    } else {
        30 + 2 * samples
    }
}

/// What a [`SenderSession`] knows.
#[verifier::ext_equal]
pub struct SenderView {
    /// Who gets the stream.
    pub receivers: Set<PeerAddr>,
    /// The number of the next packet.
    pub sequence_number: u64,
    /// How many bytes of datagrams were made.
    pub bytes_total: u64,
    /// The loudest sample since the last report.
    pub peak: u16,
}

impl SenderView {
    /// Nobody listens and nothing was sent.
    pub open spec fn fresh() -> SenderView {
        SenderView { receivers: Set::empty(), sequence_number: 0, bytes_total: 0, peak: 0 }
    }

    /// The statistics are due with the next packet.
    pub open spec fn report_due(self) -> bool {
        self.sequence_number % REPORT_INTERVAL == 0
    }

    /// The statistics with the next packet, of `len` bytes and with `audio`.
    pub open spec fn report(self, len: nat, audio: Seq<i16>) -> SenderReport {
        SenderReport {
            packets_sent: self.sequence_number,
            bytes_sent: (self.bytes_total + len) as u64,
            receiver_count: self.receivers.len() as usize,
            peak: louder(self.peak as nat, peak(audio)) as u16,
        }
    }

    /// After the next packet, of `len` bytes and with `audio`.
    pub open spec fn after_packet(self, len: nat, audio: Seq<i16>) -> SenderView {
        SenderView {
            receivers: self.receivers,
            sequence_number: if self.sequence_number == u64::MAX {
                0
            } else {
                (self.sequence_number + 1) as u64
            },
            bytes_total: (self.bytes_total + len) as u64,
            peak: if self.report_due() {
                0
            } else {
                louder(self.peak as nat, peak(audio)) as u16
            },
        }
    }
}

/// The addresses of `entries`.
spec fn addresses(entries: Seq<(PeerAddr, ReceiverStats)>) -> Seq<PeerAddr> {
    entries.map_values(|e: (PeerAddr, ReceiverStats)| e.0)
}

/// The sender-side session: the subscribed receivers, and the stream they get.
pub struct SenderSession {
    receivers: Vec<(PeerAddr, ReceiverStats)>,
    sequence_number: u64,
    bytes_total: u64,
    peak: u16,
}

impl View for SenderSession {
    type V = SenderView;

    closed spec fn view(&self) -> SenderView {
        SenderView {
            receivers: addresses(self.receivers@).to_set(),
            sequence_number: self.sequence_number,
            bytes_total: self.bytes_total,
            peak: self.peak,
        }
    }
}

impl SenderSession {
    /// No receiver is listed twice, and its counters are still at zero.
    #[verifier::type_invariant]
    spec fn listed_once(self) -> bool {
        &&& addresses(self.receivers@).no_duplicates()
        &&& forall|i: int|
            0 <= i < self.receivers@.len() ==> (#[trigger] self.receivers@[i]).1 == (
            ReceiverStats { packets_sent: 0, bytes_sent: 0 })
    }

    /// A session that nobody listens to yet.
    pub fn new() -> (session: Self)
        ensures
            session@ == SenderView::fresh(),
    {
        let session = SenderSession {
            receivers: Vec::new(),
            sequence_number: 0,
            bytes_total: 0,
            peak: 0,
        };
        assert(addresses(session.receivers@) =~= Seq::<PeerAddr>::empty());
        assert(session@.receivers =~= Set::<PeerAddr>::empty());
        session
    }

    /// Where `addr` is listed.
    fn position(&self, addr: PeerAddr) -> (at: Option<usize>)
        ensures
            match at {
                Some(i) => i < self.receivers@.len() && self.receivers@[i as int].0 == addr
                    && self@.receivers.contains(addr),
                None => !self@.receivers.contains(addr),
            },
    {
        let mut i: usize = 0;
        while i < self.receivers.len()
            invariant
                i <= self.receivers@.len(),
                forall|j: int| 0 <= j < i ==> (#[trigger] self.receivers@[j]).0 != addr,
            decreases self.receivers@.len() - i,
        {
            if self.receivers[i].0 == addr {
                assert(addresses(self.receivers@)[i as int] == addr);
                return Some(i);
            }
            i = i + 1;
        }
        assert(!addresses(self.receivers@).contains(addr));
        None
    }

    /// The bookkeeping of a receiver, if it is subscribed.
    pub fn stats_of(&self, addr: PeerAddr) -> (stats: Option<ReceiverStats>)
        ensures
            stats == (if self@.receivers.contains(addr) {
                Some(ReceiverStats { packets_sent: 0, bytes_sent: 0 })
            } else {
                None
            }),
    {
        proof {
            use_type_invariant(self);
        }
        match self.position(addr) {
            Some(i) => Some(self.receivers[i].1),
            None => None,
        }
    }

    /// How many receivers are subscribed.
    pub fn receiver_count(&self) -> (n: usize)
        ensures
            n == self@.receivers.len(),
    {
        proof {
            use_type_invariant(self);
            addresses(self.receivers@).unique_seq_to_set();
        }
        self.receivers.len()
    }

    /// The subscribed receivers, each once.
    pub fn targets(&self) -> (targets: Vec<PeerAddr>)
        ensures
            targets@.no_duplicates(),
            targets@.to_set() == self@.receivers,
    {
        proof {
            use_type_invariant(self);
        }
        let mut targets: Vec<PeerAddr> = Vec::new();
        let mut i: usize = 0;
        while i < self.receivers.len()
            invariant
                i <= self.receivers@.len(),
                targets@ == addresses(self.receivers@).take(i as int),
            decreases self.receivers@.len() - i,
        {
            targets.push(self.receivers[i].0);
            assert(targets@ =~= addresses(self.receivers@).take(i + 1));
            i = i + 1;
        }
        assert(targets@ =~= addresses(self.receivers@));
        targets
    }

    /// The number of the next packet.
    pub fn sequence_number(&self) -> (n: u64)
        ensures
            n == self@.sequence_number,
    {
        self.sequence_number
    }

    /// How many bytes of datagrams were made so far.
    pub fn bytes_total(&self) -> (n: u64)
        ensures
            n == self@.bytes_total,
    {
        self.bytes_total
    }

    /// Enter a new receiver.
    fn subscribe(&mut self, addr: PeerAddr)
        requires
            !old(self)@.receivers.contains(addr),
        ensures
            final(self)@ == (SenderView {
                receivers: old(self)@.receivers.insert(addr),
                ..old(self)@
            }),
    {
        proof {
            use_type_invariant(&*self);
        }
        let ghost before = addresses(self.receivers@);
        let mut receivers: Vec<(PeerAddr, ReceiverStats)> = Vec::new();
        std::mem::swap(&mut receivers, &mut self.receivers);
        receivers.push((addr, ReceiverStats::default()));
        proof {
            let after = addresses(receivers@);
            assert(after =~= before.push(addr));
            assert(!before.contains(addr));
            assert(after.to_set() =~= before.to_set().insert(addr)) by {
                assert forall|a: PeerAddr| before.contains(a) implies after.contains(a) by {
                    let k = before.index_of(a);
                    assert(after[k] == a);
                }
                assert(after[before.len() as int] == addr);
            }
        }
        self.receivers = receivers;
    }

    /// Strike a receiver off the list.
    fn unsubscribe(&mut self, addr: PeerAddr)
        ensures
            final(self)@ == (SenderView {
                receivers: old(self)@.receivers.remove(addr),
                ..old(self)@
            }),
    {
        proof {
            use_type_invariant(&*self);
        }
        match self.position(addr) {
            Some(i) => {
                let ghost before = addresses(self.receivers@);
                let mut receivers: Vec<(PeerAddr, ReceiverStats)> = Vec::new();
                std::mem::swap(&mut receivers, &mut self.receivers);
                let _ = receivers.remove(i);
                proof {
                    let after = addresses(receivers@);
                    assert(after =~= before.remove(i as int));
                    assert(before[i as int] == addr);
                    assert forall|a: PeerAddr| after.contains(a) <==> before.contains(a) && a
                        != addr by {
                        if before.contains(a) && a != addr {
                            let k = before.index_of(a);
                            if k < i {
                                assert(after[k] == a);
                            } else {
                                assert(after[k - 1] == a);
                            }
                        }
                        if after.contains(a) {
                            let k = after.index_of(a);
                            if k < i {
                                assert(before[k] == a);
                            } else {
                                assert(before[k + 1] == a);
                            }
                        }
                    }
                    assert(after.to_set() =~= before.to_set().remove(addr));
                }
                self.receivers = receivers;
            },
            None => {
                assert(self@.receivers =~= self@.receivers.remove(addr));
            },
        }
    }

    /// Process one incoming control datagram. Returns the datagram to answer
    /// with, if there is an answer.
    pub fn process_control_message(&mut self, data: &[u8], from: PeerAddr, now_us: u64) -> (reply:
        Option<Vec<u8>>)
        ensures
            final(self)@ == (SenderView {
                receivers: subscribed_after(old(self)@.receivers, control_at(data@), from),
                ..old(self)@
            }),
            match reply_to(control_at(data@), old(self)@.receivers.contains(from), now_us) {
                Some(msg) => reply matches Some(bytes) && bytes@ == control_bytes(msg),
                None => reply is None,
            },
    {
        let answer: Option<ControlMessage> = match deserialize_control(data) {
            Ok(ControlMessage::Subscribe) => match self.position(from) {
                Some(_) => {
                    assert(self@.receivers.insert(from) =~= self@.receivers);
                    None
                },
                None => {
                    self.subscribe(from);
                    Some(ControlMessage::Welcome { sample_rate: 48000, channels: 2 })
                },
            },
            Ok(ControlMessage::Unsubscribe) => {
                self.unsubscribe(from);
                Some(ControlMessage::Goodbye)
            },
            Ok(ControlMessage::TimeSyncRequest { client_send_us }) => Some(
                ControlMessage::TimeSyncResponse { client_send_us, server_us: now_us },
            ),
            _ => None,
        };
        match answer {
            Some(msg) => match serialize_control(&msg) {
                Ok(bytes) => Some(bytes),
                Err(_) => None,
            },
            None => None,
        }
    }

    /// The next packet of the stream, with audio captured at `capture_ts`.
    ///
    /// A chunk that is too large for a datagram is cut off at the largest
    /// datagram. The packet keeps its number; receivers do not take it for
    /// audio, and count it as lost with the next one.
    pub fn next_packet(&mut self, audio_data: Vec<i16>, capture_ts: u64) -> (out: Outgoing)
        requires
            30 + 2 * audio_data@.len() <= isize::MAX,
            old(self)@.bytes_total + datagram_len(audio_data@.len()) <= u64::MAX,
        ensures
            out.datagram@ == cut(
                packet_bytes(packet_of(old(self)@.sequence_number, capture_ts, audio_data@)),
            ),
            out.datagram@.len() == datagram_len(audio_data@.len()),
            out.report == (if old(self)@.report_due() {
                Some(old(self)@.report(out.datagram@.len(), audio_data@))
            } else {
                None
            }),
            final(self)@ == old(self)@.after_packet(out.datagram@.len(), audio_data@),
            final(self)@.sequence_number == (old(self)@.sequence_number + 1)
                % 0x1_0000_0000_0000_0000,
            final(self)@.bytes_total == old(self)@.bytes_total + out.datagram@.len(),
    {
        proof {
            use_type_invariant(&*self);
            crate::audio::level::law_peak_is_the_maximum(audio_data@);
        }
        let level: u16 = louder_of(self.peak, peak_of(audio_data.as_slice()));
        let ghost audio = audio_data@;
        let sequence_number: u64 = self.sequence_number;
        let packet = build_packet(sequence_number, capture_ts, audio_data);
        let mut datagram: Vec<u8> = match serialize_packet(&packet) {
            Ok(bytes) => bytes,
            Err(_) => Vec::new(),
        };
        proof {
            lemma_packet_len(packet@);
        }
        if datagram.len() > MAX_PACKET_SIZE {
            datagram.truncate(MAX_PACKET_SIZE);
        }
        self.bytes_total = self.bytes_total + datagram.len() as u64;
        self.peak = level;
        let mut report: Option<SenderReport> = None;
        if sequence_number % REPORT_INTERVAL == 0 {
            report = Some(
                SenderReport {
                    packets_sent: sequence_number,
                    bytes_sent: self.bytes_total,
                    receiver_count: self.receiver_count(),
                    peak: self.peak,
                },
            );
            self.peak = 0;
        }
        self.sequence_number = sequence_number.wrapping_add(1);
        Outgoing { datagram, report }
    }
}

/// Subscribing twice is the same as subscribing once, and only the first time is
/// welcomed.
pub proof fn law_welcomed_once(receivers: Set<PeerAddr>, from: PeerAddr, now_us: u64)
    ensures
        ({
            let msg = Ok::<ControlMessage, CodecError>(ControlMessage::Subscribe);
            let once = subscribed_after(receivers, msg, from);
            &&& once.contains(from)
            &&& subscribed_after(once, msg, from) == once
            &&& reply_to(msg, once.contains(from), now_us) is None
            &&& !receivers.contains(from) ==> reply_to(msg, receivers.contains(from), now_us)
                == Some(ControlMessage::Welcome { sample_rate: 48000, channels: 2 })
        }),
{
    let msg = Ok::<ControlMessage, CodecError>(ControlMessage::Subscribe);
    let once = subscribed_after(receivers, msg, from);
    assert(once.insert(from) =~= once);
}

/// Unsubscribing undoes subscribing, and is always answered with a goodbye.
pub proof fn law_unsubscribing_undoes(receivers: Set<PeerAddr>, from: PeerAddr, now_us: u64)
    requires
        !receivers.contains(from),
    ensures
        ({
            let join = Ok::<ControlMessage, CodecError>(ControlMessage::Subscribe);
            let leave = Ok::<ControlMessage, CodecError>(ControlMessage::Unsubscribe);
            &&& subscribed_after(subscribed_after(receivers, join, from), leave, from) == receivers
            &&& forall|known: bool|
                #[trigger] reply_to(leave, known, now_us) == Some(ControlMessage::Goodbye)
        }),
{
    assert(receivers.insert(from).remove(from) =~= receivers);
}

/// Nobody can subscribe or unsubscribe anybody but themselves.
pub proof fn law_only_the_origin_is_affected(
    receivers: Set<PeerAddr>,
    msg: Result<ControlMessage, CodecError>,
    from: PeerAddr,
    other: PeerAddr,
)
    requires
        other != from,
    ensures
        subscribed_after(receivers, msg, from).contains(other) == receivers.contains(other),
{
}

/// All the samples of `chunks`, in order.
pub open spec fn joined(chunks: Seq<Seq<i16>>) -> Seq<i16>
    decreases chunks.len(),
{
    if chunks.len() == 0 {
        Seq::empty()
    } else {
        joined(chunks.drop_last()) + chunks.last()
    }
}

impl SenderView {
    /// After packets with the audio of `chunks`, in order.
    pub open spec fn after_packets(self, chunks: Seq<Seq<i16>>) -> SenderView
        decreases chunks.len(),
    {
        if chunks.len() == 0 {
            self
        } else {
            self.after_packets(chunks.drop_last()).after_packet(
                datagram_len(chunks.last().len()),
                chunks.last(),
            )
        }
    }
}

/// Packets are numbered without gaps, and the level that a report shows is the
/// peak of everything sent since the report before it.
pub proof fn law_report_covers_the_interval(session: SenderView, chunks: Seq<Seq<i16>>)
    requires
        session.peak == 0,
        session.sequence_number % REPORT_INTERVAL == 1,
        chunks.len() < REPORT_INTERVAL,
        session.sequence_number + chunks.len() <= u64::MAX,
    ensures
        session.after_packets(chunks).sequence_number == session.sequence_number + chunks.len(),
        session.after_packets(chunks).peak == peak(joined(chunks)),
        chunks.len() == REPORT_INTERVAL - 1 ==> forall|len: nat, audio: Seq<i16>|
            #![trigger session.after_packets(chunks).report(len, audio)]
            session.after_packets(chunks).report_due() && session.after_packets(chunks).report(
                len,
                audio,
            ).peak == peak(joined(chunks) + audio),
    decreases chunks.len(),
{
    if chunks.len() > 0 {
        let front = chunks.drop_last();
        law_report_covers_the_interval(session, front);
        crate::audio::level::law_peaks_join(joined(front), chunks.last());
        crate::audio::level::law_peak_is_the_maximum(joined(chunks));
        assert(!session.after_packets(front).report_due());
    }
    if chunks.len() == REPORT_INTERVAL - 1 {
        assert forall|len: nat, audio: Seq<i16>|
            #![trigger session.after_packets(chunks).report(len, audio)]
            session.after_packets(chunks).report_due() && session.after_packets(chunks).report(
                len,
                audio,
            ).peak == peak(joined(chunks) + audio) by {
            crate::audio::level::law_peaks_join(joined(chunks), audio);
            crate::audio::level::law_peak_is_the_maximum(joined(chunks) + audio);
        }
    }
}

/// The packet that tells every receiver that the stream ends.
pub fn goodbye_packet() -> (datagram: Vec<u8>)
    ensures
        datagram@ == packet_bytes(packet_of(u64::MAX, 0, Seq::empty())),
{
    let audio: Vec<i16> = Vec::new();
    let packet = build_packet(u64::MAX, 0, audio);
    assert(packet@ =~= packet_of(u64::MAX, 0, Seq::empty()));
    match serialize_packet(&packet) {
        Ok(bytes) => bytes,
        Err(_) => Vec::new(),
    }
}

/// Feed the source's own delayed monitor: the chunk captured at `capture_ts`
/// plays locally `budget_us` later, when the receivers play it too.
pub fn feed_monitor(
    jitter: &mut JitterBuffer,
    gate: &mut PlayoutGate,
    budget_us: u64,
    audio_data: &[i16],
    capture_ts: u64,
)
    requires
        capture_ts + budget_us <= u64::MAX,
    ensures
        final(jitter)@ == old(jitter)@.pushed(audio_data@),
        final(gate)@ == old(gate)@.armed_with((capture_ts + budget_us) as u64),
{
    jitter.push_packet(audio_data);
    gate.arm(capture_ts + budget_us);
}

/// The monitor's buffer and start after it was fed `chunks`, in order, captured at
/// `stamps`.
pub open spec fn monitor_after(
    jitter: JitterView,
    gate: GateView,
    budget_us: u64,
    stamps: Seq<u64>,
    chunks: Seq<Seq<i16>>,
) -> (JitterView, GateView)
    decreases chunks.len(),
{
    if chunks.len() == 0 {
        (jitter, gate)
    } else {
        let front = chunks.drop_last();
        let before = monitor_after(jitter, gate, budget_us, stamps, front);
        (
            before.0.pushed(chunks.last()),
            before.1.armed_with((stamps[front.len() as int] + budget_us) as u64),
        )
    }
}

/// The source plays its own audio the budget after its capture: a monitor that
/// had nothing starts when the first chunk is due, and holds the chunks from the
/// first on, less the oldest samples beyond the cap.
pub proof fn law_monitor_starts_with_the_first_chunk(
    jitter: JitterView,
    budget_us: u64,
    stamps: Seq<u64>,
    chunks: Seq<Seq<i16>>,
)
    requires
        jitter.samples.len() == 0,
        chunks.len() > 0,
        stamps[0] + budget_us <= u64::MAX,
    ensures
        ({
            let after = monitor_after(jitter, GateView::fresh(), budget_us, stamps, chunks);
            let due = stamps[0] + budget_us;
            &&& after.1 == GateView::fresh().armed_with(due as u64)
            &&& after.1.deadline == (if due == 0 {
                1
            } else {
                due
            })
            &&& after.0.cap == jitter.cap
            &&& after.0.samples == after_push(Seq::empty(), jitter.cap, joined(chunks))
        }),
    decreases chunks.len(),
{
    let front = chunks.drop_last();
    let fresh = GateView::fresh();
    assert(jitter.samples =~= Seq::<i16>::empty());
    if front.len() == 0 {
        assert(monitor_after(jitter, fresh, budget_us, stamps, front) == (jitter, fresh));
        assert(joined(front) =~= Seq::<i16>::empty());
        assert(joined(chunks) =~= chunks.last());
    } else {
        law_monitor_starts_with_the_first_chunk(jitter, budget_us, stamps, front);
        law_pushes_join(Seq::empty(), jitter.cap, joined(front), chunks.last());
    }
}

/// Every packet moves the number on by one, from the largest to zero, whether a
/// report is due with it or not. It adds its bytes to the total, leaves the
/// receivers alone, and its level is kept until it was reported.
pub proof fn law_every_packet_counts_one(session: SenderView, len: nat, audio: Seq<i16>)
    requires
        session.bytes_total + len <= u64::MAX,
    ensures
        ({
            let after = session.after_packet(len, audio);
            &&& after.sequence_number == (session.sequence_number + 1) % 0x1_0000_0000_0000_0000
            &&& after.bytes_total == session.bytes_total + len
            &&& after.receivers == session.receivers
            &&& session.sequence_number % 50 == 0 ==> after.peak == 0
            &&& session.sequence_number % 50 != 0 ==> after.peak == louder(
                session.peak as nat,
                peak(audio),
            )
        }),
{
    crate::audio::level::law_peak_is_the_maximum(audio);
}

/// Packets are numbered in the order in which they are sent, without a gap or a
/// repetition, over any number of reports: after `chunks` packets the next has the
/// number of the first plus their count, and from a fresh session on packet `n`
/// has the number `n`.
pub proof fn law_packets_are_numbered_in_order(session: SenderView, chunks: Seq<Seq<i16>>)
    ensures
        session.after_packets(chunks).sequence_number == (session.sequence_number + chunks.len())
            % 0x1_0000_0000_0000_0000,
        session == SenderView::fresh() && chunks.len() <= u64::MAX ==> session.after_packets(
            chunks,
        ).sequence_number == chunks.len(),
        session.after_packets(chunks).receivers == session.receivers,
    decreases chunks.len(),
{
    if chunks.len() > 0 {
        law_packets_are_numbered_in_order(session, chunks.drop_last());
    }
}

/// The number of a packet is what receivers read of it, also where the packet was
/// cut off, and packets with different numbers have different datagrams.
pub proof fn law_number_is_in_the_datagram(
    sequence_number: u64,
    capture_ts: u64,
    audio: Seq<i16>,
)
    requires
        audio.len() <= u64::MAX,
    ensures
        ({
            let datagram = cut(packet_bytes(packet_of(sequence_number, capture_ts, audio)));
            &&& le_at(datagram, 0, 8) == sequence_number
            &&& le_at(datagram, 8, 8) == capture_ts
            &&& datagram.len() == datagram_len(audio.len())
        }),
{
    let packet = packet_of(sequence_number, capture_ts, audio);
    let bytes = packet_bytes(packet);
    lemma_packet_len(packet);
    law_packet_round_trip(packet, Seq::empty());
    assert(bytes + Seq::empty() =~= bytes);
    law_fields_are_read_in_place(bytes);
    assert(cut(bytes).subrange(0, 8) =~= bytes.subrange(0, 8));
    assert(cut(bytes).subrange(8, 16) =~= bytes.subrange(8, 16));
}

/// A datagram is the front of its packet, all of it up to 4096 bytes.
pub proof fn law_datagram_is_the_front_of_the_packet(bytes: Seq<u8>, samples: nat, i: int)
    ensures
        bytes.len() <= 4096 ==> cut(bytes) == bytes,
        bytes.len() > 4096 ==> cut(bytes).len() == 4096,
        0 <= i < cut(bytes).len() ==> cut(bytes)[i] == bytes[i],
        samples <= 2033 ==> datagram_len(samples) == 30 + 2 * samples,
        samples >= 2033 ==> datagram_len(samples) == 4096,
{
}

/// A report is due with every fiftieth packet, and says how many packets went
/// before it, how many bytes went out with it, who listens, and the loudest sample
/// since the last one.
pub proof fn law_report_is_about_the_stream(session: SenderView, len: nat, audio: Seq<i16>)
    requires
        session.bytes_total + len <= u64::MAX,
        session.receivers.len() <= usize::MAX,
    ensures
        session.report_due() <==> session.sequence_number % 50 == 0,
        session.report(len, audio).packets_sent == session.sequence_number,
        session.report(len, audio).bytes_sent == session.bytes_total + len,
        session.report(len, audio).receiver_count == session.receivers.len(),
        session.report(len, audio).peak == louder(session.peak as nat, peak(audio)),
{
    crate::audio::level::law_peak_is_the_maximum(audio);
}

/// Who is answered, and how, for every message, whenever it comes. A request for
/// the clock is answered with the clock, to whoever asks; a wish to leave with a
/// goodbye; a wish to listen with a welcome, the first time. Nothing else is
/// answered.
pub proof fn law_who_is_answered(
    msg: Result<ControlMessage, CodecError>,
    known: bool,
    now_us: u64,
)
    ensures
        msg matches Ok(ControlMessage::TimeSyncRequest { client_send_us }) ==> reply_to(
            msg,
            known,
            now_us,
        ) == Some(ControlMessage::TimeSyncResponse { client_send_us, server_us: now_us }),
        msg == Ok::<ControlMessage, CodecError>(ControlMessage::Unsubscribe) ==> reply_to(
            msg,
            known,
            now_us,
        ) == Some(ControlMessage::Goodbye),
        msg == Ok::<ControlMessage, CodecError>(ControlMessage::Subscribe) && !known ==> reply_to(
            msg,
            known,
            now_us,
        ) == Some(ControlMessage::Welcome { sample_rate: 48000, channels: 2 }),
        reply_to(msg, known, now_us) is Some ==> {
            ||| msg matches Ok(ControlMessage::TimeSyncRequest { client_send_us })
            ||| msg == Ok::<ControlMessage, CodecError>(ControlMessage::Unsubscribe)
            ||| msg == Ok::<ControlMessage, CodecError>(ControlMessage::Subscribe) && !known
        },
{
}

/// Who listens after a message: whoever did, and whoever asked to; not whoever
/// asked to leave. No other message changes it, and an answer depends on nobody
/// but who asked.
pub proof fn law_who_listens(
    receivers: Set<PeerAddr>,
    msg: Result<ControlMessage, CodecError>,
    from: PeerAddr,
    who: PeerAddr,
)
    ensures
        subscribed_after(receivers, msg, from).contains(who) <==> {
            ||| who == from && msg == Ok::<ControlMessage, CodecError>(ControlMessage::Subscribe)
            ||| receivers.contains(who) && !(who == from && msg == Ok::<ControlMessage, CodecError>(
                ControlMessage::Unsubscribe,
            ))
        },
{
}

/// Chunks are joined in their order, each as it is.
pub proof fn law_chunks_are_joined_in_order(chunks: Seq<Seq<i16>>, chunk: Seq<i16>)
    ensures
        joined(Seq::empty()).len() == 0,
        joined(chunks.push(chunk)) == joined(chunks) + chunk,
{
    assert(chunks.push(chunk).drop_last() =~= chunks);
}

/// A new session has no listeners and starts with packet zero.
pub proof fn law_new_session_is_empty(who: PeerAddr)
    ensures
        !SenderView::fresh().receivers.contains(who),
        SenderView::fresh().sequence_number == 0,
        SenderView::fresh().bytes_total == 0,
        SenderView::fresh().peak == 0,
{
}

} // verus!
