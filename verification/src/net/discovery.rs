//! Senders on the network: what they advertise, and which are known.

use vstd::prelude::*;
use vstd::utf8::encode_utf8;

use crate::state::shared::{
    sender_infos, DiscoveredSender, SenderInfo, AUDIO_PORT, CHANNELS, SAMPLE_RATE,
};
use crate::text::{
    contains, contains_text, decimal, decimal_string, law_contains_is_being_a_part,
    law_decimal_round_trip,
    parse_unsigned, parsed, push, push_decimal,
};

verus! {

/// The host name for an address: dots and colons become dashes, so that it is a
/// single label under `.local.`.
pub open spec fn host_label(ip: Seq<char>) -> Seq<char> {
    ip.map_values(
        |c: char|
            if c == '.' || c == ':' {
                '-'
            } else {
                c
            },
    )
}

/// The host name to register for the address `ip`.
pub fn host_name(ip: &str) -> (name: String)
    ensures
        name@ == host_label(ip@) + ".local."@,
{
    let mut name = String::new();
    let len: usize = ip.unicode_len();
    let mut i: usize = 0;
    while i < len
        invariant
            i <= len,
            len == ip@.len(),
            name@ == host_label(ip@).take(i as int),
        decreases len - i,
    {
        let c: char = ip.get_char(i);
        if c == '.' || c == ':' {
            push(&mut name, '-');
        } else {
            push(&mut name, c);
        }
        assert(name@ =~= host_label(ip@).take(i + 1));
        i = i + 1;
    }
    assert(name@ =~= host_label(ip@));
    name.append(".local.");
    name
}

/// A host and a port as one address.
pub fn endpoint(host: &str, port: u16) -> (address: String)
    ensures
        address@ == host@ + ":"@ + decimal(port as nat),
{
    let mut address = host.to_owned();
    address.append(":");
    push_decimal(&mut address, port as u64);
    address
}

/// A property of an advertised service.
pub struct Property {
    pub key: String,
    pub value: String,
}

/// The property `key`, `value`.
pub open spec fn is_property(p: Property, key: Seq<char>, value: Seq<char>) -> bool {
    p.key@ == key && p.value@ == value
}

/// The properties that a sender advertises.
pub fn sender_properties(sample_rate: u32, channels: u16) -> (properties: Vec<Property>)
    ensures
        properties@.len() == 3,
        is_property(properties@[0], "sample_rate"@, decimal(sample_rate as nat)),
        is_property(properties@[1], "channels"@, decimal(channels as nat)),
        is_property(properties@[2], "version"@, "1"@),
{
    let mut properties: Vec<Property> = Vec::new();
    properties.push(
        Property { key: "sample_rate".to_owned(), value: decimal_string(sample_rate as u64) },
    );
    properties.push(Property { key: "channels".to_owned(), value: decimal_string(channels as u64) });
    properties.push(Property { key: "version".to_owned(), value: "1".to_owned() });
    properties
}

/// The number up to `max` that a property holds; `fallback` where the property
/// is missing or holds something else.
pub open spec fn property_number(value: Option<Seq<u8>>, max: nat, fallback: nat) -> nat {
    match value {
        Some(bytes) => match parsed(bytes, max) {
            Some(n) => n,
            None => fallback,
        },
        None => fallback,
    }
}

/// The bytes of a property.
pub open spec fn property_bytes(value: Option<Vec<u8>>) -> Option<Seq<u8>> {
    match value {
        Some(bytes) => Some(bytes@),
        None => None,
    }
}

fn read_property(value: &Option<Vec<u8>>, max: u32, fallback: u32) -> (n: u32)
    requires
        fallback <= max,
    ensures
        n == property_number(property_bytes(*value), max as nat, fallback as nat),
        n <= max,
{
    match value {
        Some(bytes) => match parse_unsigned(bytes.as_slice(), max) {
            Some(n) => n,
            None => fallback,
        },
        None => fallback,
    }
}

/// The sender that a resolved service stands for: its first address or else its
/// host name, its port, and what its properties say of the stream, with 48 kHz
/// stereo where they say nothing.
pub fn resolved_sender(
    fullname: String,
    address: Option<String>,
    hostname: String,
    port: u16,
    sample_rate: Option<Vec<u8>>,
    channels: Option<Vec<u8>>,
) -> (sender: DiscoveredSender)
    ensures
        sender@ == (SenderInfo {
            name: fullname@,
            host: match address {
                Some(a) => a@,
                None => hostname@,
            },
            port,
            sample_rate: property_number(
                property_bytes(sample_rate),
                u32::MAX as nat,
                48000,
            ) as u32,
            channels: property_number(property_bytes(channels), u16::MAX as nat, 2) as u16,
        }),
{
    let host: String = match address {
        Some(a) => a,
        None => hostname,
    };
    DiscoveredSender {
        name: fullname,
        host,
        port,
        sample_rate: read_property(&sample_rate, u32::MAX, 48000),
        channels: read_property(&channels, 65535, 2) as u16,
    }
}

/// The sender at an address that the user gave.
pub fn manual_sender(ip: String) -> (sender: DiscoveredSender)
    ensures
        sender@ == (SenderInfo {
            name: "manual@"@ + ip@,
            host: ip@,
            port: AUDIO_PORT,
            sample_rate: SAMPLE_RATE,
            channels: CHANNELS,
        }),
{
    let mut name = "manual@".to_owned();
    name.append(ip.as_str());
    DiscoveredSender {
        name,
        host: ip,
        port: AUDIO_PORT,
        sample_rate: SAMPLE_RATE,
        channels: CHANNELS,
    }
}

/// Both are at the same address.
pub open spec fn same_place(a: SenderInfo, b: SenderInfo) -> bool {
    a.host == b.host && a.port == b.port
}

/// A sender at the address of `sender` is known.
pub open spec fn knows(known: Seq<SenderInfo>, sender: SenderInfo) -> bool {
    exists|i: int| 0 <= i < known.len() && same_place(#[trigger] known[i], sender)
}

/// No two known senders are at the same address.
pub open spec fn known_once(known: Seq<SenderInfo>) -> bool {
    forall|i: int, j: int|
        0 <= i < j < known.len() ==> !same_place(#[trigger] known[i], #[trigger] known[j])
}

/// The known senders after `sender` was found.
pub open spec fn after_found(known: Seq<SenderInfo>, sender: SenderInfo) -> Seq<SenderInfo> {
    if knows(known, sender) {
        known
    } else {
        known.push(sender)
    }
}

/// The known senders after the service `instance` went away: those stay whose
/// name is not part of its name.
pub open spec fn after_removed(known: Seq<SenderInfo>, instance: Seq<char>) -> Seq<SenderInfo> {
    known.filter(|s: SenderInfo| !contains_text(instance, s.name))
}

/// Enter a sender that was found, unless one at its address is known already.
/// Returns whether it is new.
pub fn add_sender(known: &mut Vec<DiscoveredSender>, sender: DiscoveredSender) -> (new: bool)
    ensures
        sender_infos(final(known)@) == after_found(sender_infos(old(known)@), sender@),
        new == !knows(sender_infos(old(known)@), sender@),
{
    let ghost before = sender_infos(known@);
    let mut i: usize = 0;
    while i < known.len()
        invariant
            i <= known@.len(),
            before == sender_infos(known@),
            *known == *old(known),
            forall|j: int| 0 <= j < i ==> !same_place(#[trigger] before[j], sender@),
        decreases known@.len() - i,
    {
        assert(before[i as int] == known@[i as int]@);
        if known[i].host == sender.host && known[i].port == sender.port {
            assert(same_place(before[i as int], sender@));
            return false;
        }
        i = i + 1;
    }
    let ghost info = sender@;
    known.push(sender);
    assert(sender_infos(known@) =~= before.push(info));
    true
}

/// Strike the senders of a service that went away.
pub fn remove_senders(known: &mut Vec<DiscoveredSender>, instance_name: &str)
    ensures
        sender_infos(final(known)@) == after_removed(sender_infos(old(known)@), instance_name@),
{
    let ghost before = sender_infos(known@);
    let ghost stays = |s: SenderInfo| !contains_text(instance_name@, s.name);
    let ghost mut seen: int = 0;
    let mut i: usize = 0;
    assert(before.take(0).filter(stays) =~= Seq::<SenderInfo>::empty()) by {
        reveal(Seq::filter);
    }
    assert(sender_infos(known@) =~= before.take(0).filter(stays) + before.skip(0));
    while i < known.len()
        invariant
            0 <= seen <= before.len(),
            stays == (|s: SenderInfo| !contains_text(instance_name@, s.name)),
            before.take(seen).filter(stays).len() == i,
            sender_infos(known@) == before.take(seen).filter(stays) + before.skip(seen),
        decreases known@.len() - i,
    {
        let ghost kept = before.take(seen).filter(stays);
        let ghost now = sender_infos(known@);
        assert(now[i as int] == known@[i as int]@);
        assert(now[i as int] == before[seen]);
        proof {
            assert(before.take(seen + 1).drop_last() =~= before.take(seen));
            assert(before.take(seen + 1).last() == before[seen]);
            reveal(Seq::filter);
        }
        if contains(instance_name, known[i].name.as_str()) {
            let _ = known.remove(i);
            assert(sender_infos(known@) =~= now.remove(i as int));
            assert(now.remove(i as int) =~= kept + before.skip(seen + 1));
        } else {
            assert(now =~= kept.push(before[seen]) + before.skip(seen + 1));
            i = i + 1;
        }
        proof {
            seen = seen + 1;
        }
    }
    assert(seen == before.len());
    assert(before.take(seen) =~= before);
    assert(sender_infos(known@) =~= before.filter(stays));
}

/// Every event keeps the list free of duplicates.
pub proof fn law_known_once(known: Seq<SenderInfo>, sender: SenderInfo, instance: Seq<char>)
    requires
        known_once(known),
    ensures
        known_once(after_found(known, sender)),
        known_once(after_removed(known, instance)),
        knows(after_found(known, sender), sender),
{
    if !knows(known, sender) {
        let more = known.push(sender);
        assert forall|i: int, j: int| 0 <= i < j < more.len() implies !same_place(
            #[trigger] more[i],
            #[trigger] more[j],
        ) by {
            assert(more[i] == known[i]);
            if j < known.len() {
                assert(more[j] == known[j]);
            } else {
                assert(!same_place(known[i], sender));
            }
        }
        assert(same_place(more[known.len() as int], sender));
    }
    lemma_filter_keeps_once(known, |s: SenderInfo| !contains_text(instance, s.name));
}

proof fn lemma_filter_keeps_once(known: Seq<SenderInfo>, stays: spec_fn(SenderInfo) -> bool)
    requires
        known_once(known),
    ensures
        known_once(known.filter(stays)),
        forall|i: int|
            0 <= i < known.filter(stays).len() ==> known.contains(
                #[trigger] known.filter(stays)[i],
            ),
    decreases known.len(),
{
    reveal(Seq::filter);
    if known.len() > 0 {
        let front = known.drop_last();
        let last = known.last();
        assert(known_once(front)) by {
            assert forall|i: int, j: int| 0 <= i < j < front.len() implies !same_place(
                #[trigger] front[i],
                #[trigger] front[j],
            ) by {
                assert(front[i] == known[i] && front[j] == known[j]);
            }
        }
        lemma_filter_keeps_once(front, stays);
        let kept = front.filter(stays);
        assert forall|i: int| 0 <= i < known.filter(stays).len() implies known.contains(
            #[trigger] known.filter(stays)[i],
        ) by {
            if i < kept.len() {
                assert(front.contains(kept[i]));
                let k = front.index_of(kept[i]);
                assert(known[k] == kept[i]);
            } else {
                assert(known[known.len() - 1] == last);
            }
        }
        assert forall|i: int, j: int| 0 <= i < j < known.filter(stays).len() implies !same_place(
            #[trigger] known.filter(stays)[i],
            #[trigger] known.filter(stays)[j],
        ) by {
            assert(known.filter(stays)[i] == kept[i]);
            if j < kept.len() {
                assert(known.filter(stays)[j] == kept[j]);
            } else {
                assert(front.contains(kept[i]));
                let k = front.index_of(kept[i]);
                assert(known[k] == kept[i]);
                assert(known[known.len() - 1] == last);
            }
        }
    }
}

/// What a receiver reads of an advertisement is what the sender advertised: the
/// properties travel as the bytes of their text.
pub proof fn law_advertised_is_read_back(sample_rate: u32, channels: u16)
    ensures
        property_number(
            Some(encode_utf8(decimal(sample_rate as nat))),
            u32::MAX as nat,
            48000,
        ) == sample_rate,
        property_number(Some(encode_utf8(decimal(channels as nat))), u16::MAX as nat, 2)
            == channels,
{
    law_decimal_round_trip(sample_rate as nat, u32::MAX as nat);
    law_decimal_round_trip(channels as nat, u16::MAX as nat);
}

/// A host name keeps every character of the address in its place, but for dots and
/// colons, which become dashes.
pub proof fn law_host_label_keeps_the_address(ip: Seq<char>, i: int)
    requires
        0 <= i < ip.len(),
    ensures
        host_label(ip).len() == ip.len(),
        ip[i] == '.' || ip[i] == ':' ==> host_label(ip)[i] == '-',
        ip[i] != '.' && ip[i] != ':' ==> host_label(ip)[i] == ip[i],
{
}

/// What a property says: the number in it, where it is one up to the limit, and
/// the fallback otherwise.
pub proof fn law_property_or_fallback(value: Option<Seq<u8>>, max: nat, fallback: nat)
    ensures
        value is None ==> property_number(value, max, fallback) == fallback,
        value is Some && parsed(value->Some_0, max) is None ==> property_number(
            value,
            max,
            fallback,
        ) == fallback,
        value is Some && parsed(value->Some_0, max) is Some ==> property_number(
            value,
            max,
            fallback,
        ) == parsed(value->Some_0, max)->Some_0,
{
}

/// A sender that was found is entered behind the others, unless a known one has
/// its host and its port. Nobody is struck or moved.
pub proof fn law_found_sender_is_entered(known: Seq<SenderInfo>, sender: SenderInfo)
    ensures
        (exists|i: int|
            0 <= i < known.len() && (#[trigger] known[i]).host == sender.host && known[i].port
                == sender.port) ==> after_found(known, sender) == known,
        (forall|i: int|
            0 <= i < known.len() ==> (#[trigger] known[i]).host != sender.host || known[i].port
                != sender.port) ==> after_found(known, sender) == known.push(sender),
{
    if exists|i: int|
        0 <= i < known.len() && (#[trigger] known[i]).host == sender.host && known[i].port
            == sender.port {
        let i = choose|i: int|
            0 <= i < known.len() && (#[trigger] known[i]).host == sender.host && known[i].port
                == sender.port;
        assert(same_place(known[i], sender));
    }
}

/// Who is known after a service went away: exactly those who were known and whose
/// name is no part of the name of the service. In particular no sender of that
/// very name is left.
pub proof fn law_removed_senders_are_gone(
    known: Seq<SenderInfo>,
    instance: Seq<char>,
    sender: SenderInfo,
)
    ensures
        after_removed(known, instance).contains(sender) <==> known.contains(sender)
            && !contains_text(instance, sender.name),
        sender.name == instance ==> !after_removed(known, instance).contains(sender),
        forall|i: int|
            0 <= i < after_removed(known, instance).len() ==> !contains_text(
                instance,
                (#[trigger] after_removed(known, instance)[i]).name,
            ),
    decreases known.len(),
{
    law_contains_is_being_a_part(instance, sender.name, 0);
    reveal(Seq::filter);
    if known.len() > 0 {
        let front = known.drop_last();
        let last = known.last();
        law_removed_senders_are_gone(front, instance, sender);
        law_removal_goes_one_by_one(front, last, instance);
        assert(front.push(last) =~= known);
        let before = after_removed(front, instance);
        let after = after_removed(known, instance);
        if known.contains(sender) {
            let k = known.index_of(sender);
            if k < front.len() {
                assert(front[k] == sender);
            }
        }
        if front.contains(sender) {
            let k = front.index_of(sender);
            assert(known[k] == sender);
        }
        assert(known[known.len() - 1] == last);
        if before.contains(sender) {
            let k = before.index_of(sender);
            assert(after[k] == sender);
        }
        if !contains_text(instance, last.name) {
            assert(after[after.len() - 1] == last);
        }
        if after.contains(sender) {
            let k = after.index_of(sender);
            if k < before.len() {
                assert(before[k] == sender);
            }
        }
        assert forall|i: int| 0 <= i < after.len() implies !contains_text(
            instance,
            (#[trigger] after[i]).name,
        ) by {
            if i < before.len() {
                assert(after[i] == before[i]);
            }
        }
    }
}

/// Those who stay keep their order, one by one: a sender behind the others stays
/// behind those of them who stay, or goes, by its own name alone.
pub proof fn law_removal_goes_one_by_one(
    known: Seq<SenderInfo>,
    sender: SenderInfo,
    instance: Seq<char>,
)
    ensures
        after_removed(Seq::empty(), instance).len() == 0,
        contains_text(instance, sender.name) ==> after_removed(known.push(sender), instance)
            == after_removed(known, instance),
        !contains_text(instance, sender.name) ==> after_removed(known.push(sender), instance)
            == after_removed(known, instance).push(sender),
{
    reveal(Seq::filter);
    assert(known.push(sender).drop_last() =~= known);
}

/// A property has its key and its value, and its bytes are those it came with.
pub proof fn law_properties_are_whole(
    p: Property,
    key: Seq<char>,
    value: Seq<char>,
    bytes: Option<Vec<u8>>,
)
    ensures
        is_property(p, key, value) <==> p.key@ == key && p.value@ == value,
        bytes is None ==> property_bytes(bytes) is None,
        bytes is Some ==> property_bytes(bytes) == Some(bytes->Some_0@),
{
}

} // verus!
