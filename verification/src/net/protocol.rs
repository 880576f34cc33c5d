//! The datagrams: audio packets from the sender, control messages both ways.

use vstd::prelude::*;

use crate::bytes::{
    lemma_byte_bounds, lemma_le_bytes_len, lemma_le_round_trip, lemma_le_value_bound,
    lemma_samples_bytes_len, lemma_samples_round_trip, le_at, le_bytes, samples_at, samples_bytes,
};
use crate::net::codec::{
    claimed_samples, decode_packet, decode_u32, decode_u32_u32_u16, decode_u32_u64,
    decode_u32_u64_u64, encode_packet, encode_u32, encode_u32_u32_u16, encode_u32_u64,
    encode_u32_u64_u64, holds_packet, packet_header,
};

verus! {

/// The largest datagram: about 2 KB of audio and its header, with room.
pub const MAX_PACKET_SIZE: usize = 4096;

/// Audio packet sent from sender to receivers via UDP.
#[derive(Debug, Clone)]
pub struct AudioPacket {
    /// Increases by one from packet to packet.
    pub sequence_number: u64,
    /// Microseconds on the sender's clock at which the audio was captured.
    pub timestamp_micros: u64,
    /// Number of audio frames in this packet (typically 480 for 10 ms).
    pub frame_count: u32,
    /// Number of channels (2 for stereo).
    pub channels: u16,
    /// Interleaved stereo PCM: [L0, R0, L1, R1, ...]
    pub audio_data: Vec<i16>,
}

/// What an [`AudioPacket`] says.
#[verifier::ext_equal]
pub struct PacketView {
    pub sequence_number: u64,
    pub timestamp_micros: u64,
    pub frame_count: u32,
    pub channels: u16,
    pub audio_data: Seq<i16>,
}

impl View for AudioPacket {
    type V = PacketView;

    open spec fn view(&self) -> PacketView {
        PacketView {
            sequence_number: self.sequence_number,
            timestamp_micros: self.timestamp_micros,
            frame_count: self.frame_count,
            channels: self.channels,
            audio_data: self.audio_data@,
        }
    }
}

/// Control messages exchanged between sender and receivers.
#[derive(Debug, Clone, Copy, PartialEq, Eq, Structural)]
pub enum ControlMessage {
    /// Receiver to sender: send me the stream.
    Subscribe,
    /// Receiver to sender: stop sending me the stream.
    Unsubscribe,
    /// Sender to receiver: subscribed, and this is the stream.
    Welcome { sample_rate: u32, channels: u16 },
    /// Sender to receiver: the stream ends for you.
    Goodbye,
    /// Receiver to sender: what does your clock say?
    TimeSyncRequest { client_send_us: u64 },
    /// Sender to receiver: my clock, and your own stamp back.
    TimeSyncResponse { client_send_us: u64, server_us: u64 },
}

/// Why a datagram could not be written or read.
#[derive(Debug, Clone, Copy, PartialEq, Eq, Structural)]
pub enum CodecError {
    /// The bytes end before the value does.
    Malformed,
    /// No control message has this number.
    UnknownMessage(u32),
}

/// The packet that `sequence_number`, a capture time and stereo audio make.
pub open spec fn packet_of(
    sequence_number: u64,
    timestamp_micros: u64,
    audio_data: Seq<i16>,
) -> PacketView {
    PacketView {
        sequence_number,
        timestamp_micros,
        frame_count: ((audio_data.len() / 2) % 0x1_0000_0000) as u32,
        channels: 2,
        audio_data,
    }
}

/// The datagram that carries `packet`.
pub open spec fn packet_bytes(packet: PacketView) -> Seq<u8> {
    packet_header(
        packet.sequence_number,
        packet.timestamp_micros,
        packet.frame_count,
        packet.channels,
        packet.audio_data.len(),
    ) + samples_bytes(packet.audio_data)
}

/// The packet that the datagram `data` carries, where it carries one.
pub open spec fn packet_at(data: Seq<u8>) -> PacketView {
    PacketView {
        sequence_number: le_at(data, 0, 8) as u64,
        timestamp_micros: le_at(data, 8, 8) as u64,
        frame_count: le_at(data, 16, 4) as u32,
        channels: le_at(data, 20, 2) as u16,
        audio_data: samples_at(data, 30, claimed_samples(data)),
    }
}

/// The datagram that carries `msg`: its number, then its fields.
pub open spec fn control_bytes(msg: ControlMessage) -> Seq<u8> {
    match msg {
        ControlMessage::Subscribe => le_bytes(0, 4),
        ControlMessage::Unsubscribe => le_bytes(1, 4),
        ControlMessage::Welcome { sample_rate, channels } => le_bytes(2, 4) + le_bytes(
            sample_rate as nat,
            4,
        ) + le_bytes(channels as nat, 2),
        ControlMessage::Goodbye => le_bytes(3, 4),
        ControlMessage::TimeSyncRequest { client_send_us } => le_bytes(4, 4) + le_bytes(
            client_send_us as nat,
            8,
        ),
        ControlMessage::TimeSyncResponse { client_send_us, server_us } => le_bytes(5, 4) + le_bytes(
            client_send_us as nat,
            8,
        ) + le_bytes(server_us as nat, 8),
    }
}

/// The control message that the datagram `data` carries, or why it carries none.
pub open spec fn control_at(data: Seq<u8>) -> Result<ControlMessage, CodecError> {
    let number = le_at(data, 0, 4);
    if data.len() < 4 {
        Err(CodecError::Malformed)
    } else if number == 0 {
        Ok(ControlMessage::Subscribe)
    } else if number == 1 {
        Ok(ControlMessage::Unsubscribe)
    } else if number == 2 {
        if data.len() < 10 {
            Err(CodecError::Malformed)
        } else {
            Ok(
                ControlMessage::Welcome {
                    sample_rate: le_at(data, 4, 4) as u32,
                    channels: le_at(data, 8, 2) as u16,
                },
            )
        }
    } else if number == 3 {
        Ok(ControlMessage::Goodbye)
    } else if number == 4 {
        if data.len() < 12 {
            Err(CodecError::Malformed)
        } else {
            Ok(ControlMessage::TimeSyncRequest { client_send_us: le_at(data, 4, 8) as u64 })
        }
    } else if number == 5 {
        if data.len() < 20 {
            Err(CodecError::Malformed)
        } else {
            Ok(
                ControlMessage::TimeSyncResponse {
                    client_send_us: le_at(data, 4, 8) as u64,
                    server_us: le_at(data, 12, 8) as u64,
                },
            )
        }
    } else {
        Err(CodecError::UnknownMessage(number as u32))
    }
}

/// Build a new AudioPacket for sending.
pub fn build_packet(sequence_number: u64, timestamp_micros: u64, audio_data: Vec<i16>) -> (packet:
    AudioPacket)
    ensures
        packet@ == packet_of(sequence_number, timestamp_micros, audio_data@),
{
    let frames: usize = audio_data.len() / 2;
    let frame_count: u32 = low_word(frames);
    AudioPacket { sequence_number, timestamp_micros, frame_count, channels: 2, audio_data }
}

/// The low 32 bits of a length.
fn low_word(n: usize) -> (low: u32)
    ensures
        low == n as nat % 0x1_0000_0000,
{
    let wide: u64 = n as u64;
    let low: u32 = #[verifier::truncate] (wide as u32);
    assert(low as u64 == wide % 0x1_0000_0000) by (bit_vector)
        requires
            low == wide as u32,
    ;
    low
}

/// Serialize an AudioPacket to bytes.
pub fn serialize_packet(packet: &AudioPacket) -> (r: Result<Vec<u8>, CodecError>)
    requires
        30 + 2 * packet.audio_data@.len() <= isize::MAX,
    ensures
        r matches Ok(bytes) && bytes@ == packet_bytes(packet@),
{
    match encode_packet(
        packet.sequence_number,
        packet.timestamp_micros,
        packet.frame_count,
        packet.channels,
        &packet.audio_data,
    ) {
        Ok(bytes) => Ok(bytes),
        Err(_) => Err(CodecError::Malformed),
    }
}

/// Deserialize an AudioPacket from bytes. What stands behind it is ignored.
pub fn deserialize_packet(data: &[u8]) -> (r: Result<AudioPacket, CodecError>)
    ensures
        match r {
            Ok(packet) => holds_packet(data@) && packet@ == packet_at(data@),
            Err(e) => !holds_packet(data@) && e == CodecError::Malformed,
        },
{
    match decode_packet(data) {
        Ok((sequence_number, timestamp_micros, frame_count, channels, audio_data)) => Ok(
            AudioPacket { sequence_number, timestamp_micros, frame_count, channels, audio_data },
        ),
        Err(_) => Err(CodecError::Malformed),
    }
}

/// Serialize a ControlMessage to bytes.
pub fn serialize_control(msg: &ControlMessage) -> (r: Result<Vec<u8>, CodecError>)
    ensures
        r matches Ok(bytes) && bytes@ == control_bytes(*msg),
{
    let encoded = match *msg {
        ControlMessage::Subscribe => encode_u32(0),
        ControlMessage::Unsubscribe => encode_u32(1),
        ControlMessage::Welcome { sample_rate, channels } => encode_u32_u32_u16(
            2,
            sample_rate,
            channels,
        ),
        ControlMessage::Goodbye => encode_u32(3),
        ControlMessage::TimeSyncRequest { client_send_us } => encode_u32_u64(4, client_send_us),
        ControlMessage::TimeSyncResponse { client_send_us, server_us } => encode_u32_u64_u64(
            5,
            client_send_us,
            server_us,
        ),
    };
    match encoded {
        Ok(bytes) => Ok(bytes),
        Err(_) => Err(CodecError::Malformed),
    }
}

/// Deserialize a ControlMessage from bytes. What stands behind it is ignored.
pub fn deserialize_control(data: &[u8]) -> (r: Result<ControlMessage, CodecError>)
    ensures
        r == control_at(data@),
{
    proof {
        lemma_byte_bounds();
        lemma_le_value_bound(data@.subrange(0, 4));
    }
    match decode_u32(data) {
        Err(_) => Err(CodecError::Malformed),
        Ok(number) => {
            if number == 0 {
                Ok(ControlMessage::Subscribe)
            } else if number == 1 {
                Ok(ControlMessage::Unsubscribe)
            } else if number == 2 {
                match decode_u32_u32_u16(data) {
                    Ok((_, sample_rate, channels)) => Ok(
                        ControlMessage::Welcome { sample_rate, channels },
                    ),
                    Err(_) => Err(CodecError::Malformed),
                }
            } else if number == 3 {
                Ok(ControlMessage::Goodbye)
            } else if number == 4 {
                match decode_u32_u64(data) {
                    Ok((_, client_send_us)) => Ok(
                        ControlMessage::TimeSyncRequest { client_send_us },
                    ),
                    Err(_) => Err(CodecError::Malformed),
                }
            } else if number == 5 {
                match decode_u32_u64_u64(data) {
                    Ok((_, client_send_us, server_us)) => Ok(
                        ControlMessage::TimeSyncResponse { client_send_us, server_us },
                    ),
                    Err(_) => Err(CodecError::Malformed),
                }
            } else {
                Err(CodecError::UnknownMessage(number))
            }
        },
    }
}

/// A field that starts at `at` keeps its bytes when more stands behind it.
proof fn lemma_field(front: Seq<u8>, n: nat, len: nat, behind: Seq<u8>)
    requires
        n < crate::bytes::byte_bound(len),
    ensures
        le_at(front + le_bytes(n, len) + behind, front.len() as int, len as int) == n,
{
    lemma_le_round_trip(n, len);
    let at = front.len() as int;
    assert((front + le_bytes(n, len) + behind).subrange(at, at + len) =~= le_bytes(n, len));
}

/// A packet's datagram is its header of 30 bytes and two bytes a sample.
pub proof fn lemma_packet_len(packet: PacketView)
    ensures
        packet_bytes(packet).len() == 30 + 2 * packet.audio_data.len(),
{
    lemma_le_bytes_len(packet.sequence_number as nat, 8);
    lemma_le_bytes_len(packet.timestamp_micros as nat, 8);
    lemma_le_bytes_len(packet.frame_count as nat, 4);
    lemma_le_bytes_len(packet.channels as nat, 2);
    lemma_le_bytes_len(packet.audio_data.len(), 8);
    lemma_samples_bytes_len(packet.audio_data);
}

/// What a receiver reads of a packet is what the sender put into it, field by
/// field and sample by sample, whatever stands behind it in the datagram.
pub proof fn law_packet_round_trip(packet: PacketView, behind: Seq<u8>)
    requires
        packet.audio_data.len() <= u64::MAX,
    ensures
        holds_packet(packet_bytes(packet) + behind),
        packet_at(packet_bytes(packet) + behind) == packet,
{
    let data = packet_bytes(packet) + behind;
    let f0 = le_bytes(packet.sequence_number as nat, 8);
    let f1 = le_bytes(packet.timestamp_micros as nat, 8);
    let f2 = le_bytes(packet.frame_count as nat, 4);
    let f3 = le_bytes(packet.channels as nat, 2);
    let f4 = le_bytes(packet.audio_data.len(), 8);
    let samples = samples_bytes(packet.audio_data);
    lemma_byte_bounds();
    lemma_le_bytes_len(packet.sequence_number as nat, 8);
    lemma_le_bytes_len(packet.timestamp_micros as nat, 8);
    lemma_le_bytes_len(packet.frame_count as nat, 4);
    lemma_le_bytes_len(packet.channels as nat, 2);
    lemma_le_bytes_len(packet.audio_data.len(), 8);
    lemma_samples_bytes_len(packet.audio_data);
    lemma_field(Seq::empty(), packet.sequence_number as nat, 8, f1 + f2 + f3 + f4 + samples + behind);
    assert(data =~= Seq::empty() + f0 + (f1 + f2 + f3 + f4 + samples + behind));
    lemma_field(f0, packet.timestamp_micros as nat, 8, f2 + f3 + f4 + samples + behind);
    assert(data =~= f0 + f1 + (f2 + f3 + f4 + samples + behind));
    lemma_field(f0 + f1, packet.frame_count as nat, 4, f3 + f4 + samples + behind);
    assert(data =~= (f0 + f1) + f2 + (f3 + f4 + samples + behind));
    lemma_field(f0 + f1 + f2, packet.channels as nat, 2, f4 + samples + behind);
    assert(data =~= (f0 + f1 + f2) + f3 + (f4 + samples + behind));
    lemma_field(f0 + f1 + f2 + f3, packet.audio_data.len(), 8, samples + behind);
    assert(data =~= (f0 + f1 + f2 + f3) + f4 + (samples + behind));
    let header = f0 + f1 + f2 + f3 + f4;
    lemma_samples_round_trip(header, packet.audio_data);
    assert forall|i: int| 0 <= i < packet.audio_data.len() implies #[trigger] samples_at(
        data,
        30,
        packet.audio_data.len(),
    )[i] == packet.audio_data[i] by {
        assert(data.subrange(30 + 2 * i, 30 + 2 * i + 2) =~= (header + samples).subrange(
            30 + 2 * i,
            30 + 2 * i + 2,
        ));
        assert(samples_at(header + samples, 30, packet.audio_data.len())[i]
            == packet.audio_data[i]);
    }
    assert(packet_at(data).audio_data =~= packet.audio_data);
}

/// What one side reads of a control message is what the other side wrote.
pub proof fn law_control_round_trip(msg: ControlMessage, behind: Seq<u8>)
    ensures
        control_at(control_bytes(msg) + behind) == Ok::<ControlMessage, CodecError>(msg),
{
    let data = control_bytes(msg) + behind;
    let none = Seq::<u8>::empty();
    lemma_byte_bounds();
    match msg {
        ControlMessage::Subscribe => {
            lemma_le_bytes_len(0, 4);
            lemma_field(none, 0, 4, behind);
            assert(data =~= none + le_bytes(0, 4) + behind);
        },
        ControlMessage::Unsubscribe => {
            lemma_le_bytes_len(1, 4);
            lemma_field(none, 1, 4, behind);
            assert(data =~= none + le_bytes(1, 4) + behind);
        },
        ControlMessage::Welcome { sample_rate, channels } => {
            let f0 = le_bytes(2, 4);
            let f1 = le_bytes(sample_rate as nat, 4);
            let f2 = le_bytes(channels as nat, 2);
            lemma_le_bytes_len(2, 4);
            lemma_le_bytes_len(sample_rate as nat, 4);
            lemma_le_bytes_len(channels as nat, 2);
            lemma_field(none, 2, 4, f1 + f2 + behind);
            assert(data =~= none + f0 + (f1 + f2 + behind));
            lemma_field(f0, sample_rate as nat, 4, f2 + behind);
            assert(data =~= f0 + f1 + (f2 + behind));
            lemma_field(f0 + f1, channels as nat, 2, behind);
            assert(data =~= (f0 + f1) + f2 + behind);
        },
        ControlMessage::Goodbye => {
            lemma_le_bytes_len(3, 4);
            lemma_field(none, 3, 4, behind);
            assert(data =~= none + le_bytes(3, 4) + behind);
        },
        ControlMessage::TimeSyncRequest { client_send_us } => {
            let f0 = le_bytes(4, 4);
            let f1 = le_bytes(client_send_us as nat, 8);
            lemma_le_bytes_len(4, 4);
            lemma_le_bytes_len(client_send_us as nat, 8);
            lemma_field(none, 4, 4, f1 + behind);
            assert(data =~= none + f0 + (f1 + behind));
            lemma_field(f0, client_send_us as nat, 8, behind);
            assert(data =~= f0 + f1 + behind);
        },
        ControlMessage::TimeSyncResponse { client_send_us, server_us } => {
            let f0 = le_bytes(5, 4);
            let f1 = le_bytes(client_send_us as nat, 8);
            let f2 = le_bytes(server_us as nat, 8);
            lemma_le_bytes_len(5, 4);
            lemma_le_bytes_len(client_send_us as nat, 8);
            lemma_le_bytes_len(server_us as nat, 8);
            lemma_field(none, 5, 4, f1 + f2 + behind);
            assert(data =~= none + f0 + (f1 + f2 + behind));
            lemma_field(f0, client_send_us as nat, 8, f2 + behind);
            assert(data =~= f0 + f1 + (f2 + behind));
            lemma_field(f0 + f1, server_us as nat, 8, behind);
            assert(data =~= (f0 + f1) + f2 + behind);
        },
    }
}

/// A control message that arrives on the socket of the audio stream is never
/// taken for audio: it is shorter than the head of a packet.
pub proof fn law_control_is_not_audio(msg: ControlMessage)
    ensures
        control_bytes(msg).len() < 30,
        !holds_packet(control_bytes(msg)),
{
    lemma_le_bytes_len(0, 4);
    lemma_le_bytes_len(1, 4);
    lemma_le_bytes_len(2, 4);
    lemma_le_bytes_len(3, 4);
    lemma_le_bytes_len(4, 4);
    lemma_le_bytes_len(5, 4);
    match msg {
        ControlMessage::Welcome { sample_rate, channels } => {
            lemma_le_bytes_len(sample_rate as nat, 4);
            lemma_le_bytes_len(channels as nat, 2);
        },
        ControlMessage::TimeSyncRequest { client_send_us } => {
            lemma_le_bytes_len(client_send_us as nat, 8);
        },
        ControlMessage::TimeSyncResponse { client_send_us, server_us } => {
            lemma_le_bytes_len(client_send_us as nat, 8);
            lemma_le_bytes_len(server_us as nat, 8);
        },
        _ => {},
    }
}

/// A packet is made of what was given: its number, its time and its audio as they
/// are, two channels, and a frame for every two samples.
pub proof fn law_packet_has_what_was_given(
    sequence_number: u64,
    timestamp_micros: u64,
    audio: Seq<i16>,
)
    ensures
        ({
            let packet = packet_of(sequence_number, timestamp_micros, audio);
            &&& packet.sequence_number == sequence_number
            &&& packet.timestamp_micros == timestamp_micros
            &&& packet.audio_data == audio
            &&& packet.channels == 2
            &&& packet.frame_count == (audio.len() / 2) % 0x1_0000_0000
        }),
{
}

/// Where the fields of a packet stand in its datagram.
pub proof fn law_packet_layout(packet: PacketView, i: int)
    requires
        packet.audio_data.len() <= u64::MAX,
        0 <= i < packet.audio_data.len(),
    ensures
        ({
            let bytes = packet_bytes(packet);
            let sample = packet.audio_data[i];
            &&& bytes.len() == 30 + 2 * packet.audio_data.len()
            &&& le_at(bytes, 0, 8) == packet.sequence_number
            &&& le_at(bytes, 8, 8) == packet.timestamp_micros
            &&& le_at(bytes, 16, 4) == packet.frame_count
            &&& le_at(bytes, 20, 2) == packet.channels
            &&& le_at(bytes, 22, 8) == packet.audio_data.len()
            &&& le_at(bytes, 30 + 2 * i, 2) == (if sample >= 0 {
                sample as int
            } else {
                sample + 0x1_0000
            })
        }),
{
    let bytes = packet_bytes(packet);
    lemma_packet_len(packet);
    law_packet_round_trip(packet, Seq::empty());
    assert(bytes + Seq::empty() =~= bytes);
    law_fields_are_read_in_place(bytes);
    assert(packet_at(bytes).audio_data[i] == packet.audio_data[i]);
    lemma_byte_bounds();
    lemma_le_value_bound(bytes.subrange(30 + 2 * i, 30 + 2 * i + 2));
}

/// Each field of a packet is read from its place in the datagram.
pub proof fn law_fields_are_read_in_place(data: Seq<u8>)
    requires
        data.len() >= 30,
    ensures
        packet_at(data).sequence_number == le_at(data, 0, 8),
        packet_at(data).timestamp_micros == le_at(data, 8, 8),
        packet_at(data).frame_count == le_at(data, 16, 4),
        packet_at(data).channels == le_at(data, 20, 2),
        packet_at(data).audio_data.len() == le_at(data, 22, 8),
        holds_packet(data) <==> data.len() >= 30 + 2 * le_at(data, 22, 8),
{
    lemma_byte_bounds();
    lemma_le_value_bound(data.subrange(0, 8));
    lemma_le_value_bound(data.subrange(8, 16));
    lemma_le_value_bound(data.subrange(16, 20));
    lemma_le_value_bound(data.subrange(20, 22));
}

/// Every control message has its own number and length, and its fields behind
/// the number in the order in which they are named.
pub proof fn law_control_layout(msg: ControlMessage)
    ensures
        ({
            let bytes = control_bytes(msg);
            let number = le_at(bytes, 0, 4);
            match msg {
                ControlMessage::Subscribe => number == 0 && bytes.len() == 4,
                ControlMessage::Unsubscribe => number == 1 && bytes.len() == 4,
                ControlMessage::Welcome { sample_rate, channels } => {
                    &&& number == 2 && bytes.len() == 10
                    &&& le_at(bytes, 4, 4) == sample_rate
                    &&& le_at(bytes, 8, 2) == channels
                },
                ControlMessage::Goodbye => number == 3 && bytes.len() == 4,
                ControlMessage::TimeSyncRequest { client_send_us } => {
                    &&& number == 4 && bytes.len() == 12
                    &&& le_at(bytes, 4, 8) == client_send_us
                },
                ControlMessage::TimeSyncResponse { client_send_us, server_us } => {
                    &&& number == 5 && bytes.len() == 20
                    &&& le_at(bytes, 4, 8) == client_send_us
                    &&& le_at(bytes, 12, 8) == server_us
                },
            }
        }),
{
    let bytes = control_bytes(msg);
    law_control_round_trip(msg, Seq::empty());
    assert(bytes + Seq::empty() =~= bytes);
    lemma_byte_bounds();
    lemma_le_bytes_len(0, 4);
    lemma_le_bytes_len(1, 4);
    lemma_le_bytes_len(2, 4);
    lemma_le_bytes_len(3, 4);
    lemma_le_bytes_len(4, 4);
    lemma_le_bytes_len(5, 4);
    match msg {
        ControlMessage::Welcome { sample_rate, channels } => {
            lemma_le_bytes_len(sample_rate as nat, 4);
            lemma_le_bytes_len(channels as nat, 2);
            lemma_le_value_bound(bytes.subrange(4, 8));
            lemma_le_value_bound(bytes.subrange(8, 10));
        },
        ControlMessage::TimeSyncRequest { client_send_us } => {
            lemma_le_bytes_len(client_send_us as nat, 8);
            lemma_le_value_bound(bytes.subrange(4, 12));
        },
        ControlMessage::TimeSyncResponse { client_send_us, server_us } => {
            lemma_le_bytes_len(client_send_us as nat, 8);
            lemma_le_bytes_len(server_us as nat, 8);
            lemma_le_value_bound(bytes.subrange(4, 12));
            lemma_le_value_bound(bytes.subrange(12, 20));
        },
        _ => {},
    }
}

/// What is no control message is refused, and why: a number beyond those of the
/// messages, or an end before that of the message.
pub proof fn law_no_control_message_is_made_up(data: Seq<u8>)
    ensures
        ({
            let number = le_at(data, 0, 4);
            let needed: int = if number == 2 {
                10
            } else if number == 4 {
                12
            } else if number == 5 {
                20
            } else {
                4
            };
            &&& data.len() < 4 ==> control_at(data) == Err::<ControlMessage, CodecError>(
                CodecError::Malformed,
            )
            &&& data.len() >= 4 && number > 5 ==> control_at(data) == Err::<
                ControlMessage,
                CodecError,
            >(CodecError::UnknownMessage(number as u32))
            &&& data.len() >= 4 && number <= 5 && data.len() < needed ==> control_at(data) == Err::<
                ControlMessage,
                CodecError,
            >(CodecError::Malformed)
            &&& data.len() >= 4 && number <= 5 && data.len() >= needed ==> control_at(data) is Ok
        }),
{
}

/// What the view of a packet shows: every field.
pub proof fn law_packets_are_shown_whole(packet: AudioPacket)
    ensures
        packet@.sequence_number == packet.sequence_number,
        packet@.timestamp_micros == packet.timestamp_micros,
        packet@.frame_count == packet.frame_count,
        packet@.channels == packet.channels,
        packet@.audio_data == packet.audio_data@,
{
}

} // verus!
