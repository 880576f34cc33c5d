//! Constants of the stream, and the playback ratio.

use vstd::prelude::*;

verus! {

pub const SAMPLE_RATE: u32 = 48_000;

pub const CHANNELS: u16 = 2;

pub const AUDIO_PORT: u16 = 12345;

pub const CONTROL_PORT: u16 = 12346;

/// The service under which senders are advertised and looked for.
pub const MDNS_SERVICE_TYPE: &'static str = "_syncplay._udp.local.";

/// Default synchronized-playout budget: the fixed delay, measured from the
/// moment audio is captured on the sender, at which *every* endpoint (the
/// source included) plays it. Must exceed worst-case network and device latency
/// so the buffer is primed by the time the deadline arrives.
pub const DEFAULT_PLAYOUT_DELAY_MS: u64 = 200;

/// A sender that was found on the network or named by the user.
#[derive(Debug)]
pub struct DiscoveredSender {
    pub name: String,
    pub host: String,
    pub port: u16,
    pub sample_rate: u32,
    /// Advertised channel count (informational; playback always uses stereo).
    pub channels: u16,
}

/// What a [`DiscoveredSender`] says.
pub struct SenderInfo {
    pub name: Seq<char>,
    pub host: Seq<char>,
    pub port: u16,
    pub sample_rate: u32,
    pub channels: u16,
}

impl View for DiscoveredSender {
    type V = SenderInfo;

    open spec fn view(&self) -> SenderInfo {
        SenderInfo {
            name: self.name@,
            host: self.host@,
            port: self.port,
            sample_rate: self.sample_rate,
            channels: self.channels,
        }
    }
}

impl Clone for DiscoveredSender {
    fn clone(&self) -> (copy: Self)
        ensures
            copy@ == self@,
    {
        DiscoveredSender {
            name: self.name.clone(),
            host: self.host.clone(),
            port: self.port,
            sample_rate: self.sample_rate,
            channels: self.channels,
        }
    }
}

/// What the senders of a list say.
pub open spec fn sender_infos(senders: Seq<DiscoveredSender>) -> Seq<SenderInfo> {
    senders.map_values(|s: DiscoveredSender| s@)
}

/// The resample ratio that the sync controller sets and the audio output reads,
/// as the bits of a double.
pub struct SharedRatio {
    raw: u64,
}

impl SharedRatio {
    /// The bits of the ratio.
    pub closed spec fn bits(&self) -> u64 {
        self.raw
    }

    pub fn new(initial_bits: u64) -> (ratio: Self)
        ensures
            ratio.bits() == initial_bits,
    {
        SharedRatio { raw: initial_bits }
    }

    pub fn set(&mut self, bits: u64)
        ensures
            final(self).bits() == bits,
    {
        self.raw = bits;
    }

    pub fn get(&self) -> (bits: u64)
        ensures
            bits == self.bits(),
    {
        self.raw
    }
}

/// What the views of senders show: every field, and every sender of a list in its
/// place.
pub proof fn law_senders_are_shown_whole(senders: Seq<DiscoveredSender>, i: int)
    requires
        0 <= i < senders.len(),
    ensures
        sender_infos(senders).len() == senders.len(),
        sender_infos(senders)[i].name == senders[i].name@,
        sender_infos(senders)[i].host == senders[i].host@,
        sender_infos(senders)[i].port == senders[i].port,
        sender_infos(senders)[i].sample_rate == senders[i].sample_rate,
        sender_infos(senders)[i].channels == senders[i].channels,
        senders[i]@ == sender_infos(senders)[i],
{
}

} // verus!
