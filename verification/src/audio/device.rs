//! Choosing among audio devices and their configurations.

use vstd::prelude::*;

use crate::state::shared::{CHANNELS, SAMPLE_RATE};
use crate::text::{
    contains, contains_text, law_contains_is_being_a_part, lemma_less_irreflexive,
    lemma_less_total, lemma_less_transitive, less, lowercase, text_less, to_lowercase,
};

verus! {

/// An audio device, as a list shows it.
#[derive(Debug, Clone)]
pub struct DeviceInfo {
    pub name: String,
    pub is_default: bool,
}

/// What a [`DeviceInfo`] says.
pub struct DeviceView {
    pub name: Seq<char>,
    pub is_default: bool,
}

impl View for DeviceInfo {
    type V = DeviceView;

    open spec fn view(&self) -> DeviceView {
        DeviceView { name: self.name@, is_default: self.is_default }
    }
}

/// The device named `name` of a system with this default device.
pub open spec fn device_of(name: String, default: Option<String>) -> DeviceView {
    DeviceView { name: name@, is_default: default is Some && default->Some_0@ == name@ }
}

/// What a device is listed by: whether it is the default, and its name in lower
/// case.
pub struct ListingKey {
    pub is_default: bool,
    pub lower_name: String,
}

/// What a [`ListingKey`] says.
pub struct KeyView {
    pub is_default: bool,
    pub lower_name: Seq<char>,
}

impl View for ListingKey {
    type V = KeyView;

    open spec fn view(&self) -> KeyView {
        KeyView { is_default: self.is_default, lower_name: self.lower_name@ }
    }
}

/// What the keys of a list say.
pub open spec fn key_views(keys: Seq<ListingKey>) -> Seq<KeyView> {
    keys.map_values(|k: ListingKey| k@)
}

/// What the devices named `names` are listed by.
pub open spec fn keys_of(names: Seq<String>, default: Option<String>) -> Seq<KeyView> {
    names.map_values(
        |name: String|
            KeyView {
                is_default: device_of(name, default).is_default,
                lower_name: lowercase(name@),
            },
    )
}

/// `a` is listed before `b`: the default before the others, and otherwise by
/// name, upper and lower case alike.
pub open spec fn listed_before(a: KeyView, b: KeyView) -> bool {
    ||| a.is_default && !b.is_default
    ||| a.is_default == b.is_default && text_less(a.lower_name, b.lower_name)
}

/// The device with key `a` from place `i` is listed ahead of that with key `b`
/// from place `j`: devices of which neither is listed before the other keep
/// their order.
pub open spec fn comes_first(a: KeyView, i: int, b: KeyView, j: int) -> bool {
    listed_before(a, b) || (!listed_before(b, a) && i < j)
}

/// `origin` gives the places of all the devices with these keys, in the order in
/// which they are listed.
pub open spec fn is_listing_order(keys: Seq<KeyView>, origin: Seq<usize>) -> bool {
    &&& origin.len() == keys.len()
    &&& origin.no_duplicates()
    &&& forall|i: int| 0 <= i < origin.len() ==> #[trigger] origin[i] < keys.len()
    &&& forall|i: int, j: int|
        0 <= i < j < origin.len() ==> comes_first(
            keys[#[trigger] origin[i] as int],
            origin[i] as int,
            keys[#[trigger] origin[j] as int],
            origin[j] as int,
        )
}

pub proof fn lemma_listing_transitive(a: KeyView, b: KeyView, c: KeyView)
    ensures
        listed_before(a, b) && listed_before(b, c) ==> listed_before(a, c),
        listed_before(a, b) && !listed_before(c, b) ==> listed_before(a, c),
        !listed_before(b, a) && listed_before(b, c) ==> listed_before(a, c),
        !listed_before(a, a),
{
    let (x, y, z) = (a.lower_name, b.lower_name, c.lower_name);
    lemma_less_irreflexive(x);
    lemma_less_irreflexive(y);
    lemma_less_total(x, y);
    lemma_less_total(y, z);
    if text_less(x, y) && text_less(y, z) {
        lemma_less_transitive(x, y, z);
    }
}

/// Whether the device with key `a` is listed before that with key `b`.
fn is_listed_before(a: &ListingKey, b: &ListingKey) -> (r: bool)
    ensures
        r == listed_before(a@, b@),
{
    if a.is_default != b.is_default {
        a.is_default
    } else {
        less(a.lower_name.as_str(), b.lower_name.as_str())
    }
}

/// The places of the devices with these keys, in listing order.
pub fn listing_order(keys: &[ListingKey]) -> (origin: Vec<usize>)
    ensures
        is_listing_order(key_views(keys@), origin@),
{
    let ghost views = key_views(keys@);
    let mut origin: Vec<usize> = Vec::new();
    let mut k: usize = 0;
    while k < keys.len()
        invariant
            k <= keys@.len(),
            views == key_views(keys@),
            is_listing_order(views.take(k as int), origin@),
        decreases keys@.len() - k,
    {
        let ghost front = views.take(k as int);
        let mut p: usize = origin.len();
        while p > 0 && is_listed_before(&keys[k], &keys[origin[p - 1]])
            invariant
                p <= origin@.len(),
                k < keys@.len(),
                views == key_views(keys@),
                front == views.take(k as int),
                is_listing_order(front, origin@),
                forall|j: int|
                    p <= j < origin@.len() ==> listed_before(
                        views[k as int],
                        front[#[trigger] origin@[j] as int],
                    ),
            decreases p,
        {
            p = p - 1;
        }
        proof {
            assert(views.take(k + 1) =~= front.push(views[k as int]));
            lemma_insert_keeps_order(front, origin@, p as int, views[k as int], k);
        }
        origin.insert(p, k);
        k = k + 1;
    }
    assert(views.take(k as int) =~= views);
    origin
}

/// A device from behind all others goes behind the last device that it is not
/// listed before.
proof fn lemma_insert_keeps_order(
    keys: Seq<KeyView>,
    origin: Seq<usize>,
    p: int,
    key: KeyView,
    place: usize,
)
    requires
        is_listing_order(keys, origin),
        place == keys.len(),
        0 <= p <= origin.len(),
        forall|j: int|
            p <= j < origin.len() ==> listed_before(key, keys[#[trigger] origin[j] as int]),
        p > 0 ==> !listed_before(key, keys[origin[p - 1] as int]),
    ensures
        is_listing_order(keys.push(key), origin.insert(p, place)),
{
    let keys2 = keys.push(key);
    let origin2 = origin.insert(p, place);
    assert forall|i: int| 0 <= i < origin2.len() implies #[trigger] origin2[i] < keys2.len() by {
        if i < p {
            assert(origin2[i] == origin[i]);
        } else if i > p {
            assert(origin2[i] == origin[i - 1]);
        }
    }
    assert forall|i: int, j: int| 0 <= i < j < origin2.len() implies origin2[i] != origin2[j]
        && comes_first(
        keys2[#[trigger] origin2[i] as int],
        origin2[i] as int,
        keys2[#[trigger] origin2[j] as int],
        origin2[j] as int,
    ) by {
        let i0 = if i < p {
            i
        } else {
            i - 1
        };
        let j0 = if j < p {
            j
        } else {
            j - 1
        };
        if i != p && j != p {
            assert(origin2[i] == origin[i0] && origin2[j] == origin[j0]);
            assert(origin[i0] < keys.len() && origin[j0] < keys.len());
        } else if i == p {
            assert(origin2[j] == origin[j0]);
            assert(listed_before(key, keys[origin[j0] as int]));
        } else {
            // The device stands behind `i`, and is not listed before it.
            assert(origin2[i] == origin[i] && origin[i] < keys.len());
            if i < p - 1 {
                let a = keys[origin[i] as int];
                let b = keys[origin[p - 1] as int];
                assert(comes_first(a, origin[i] as int, b, origin[p - 1] as int));
                lemma_listing_transitive(a, b, key);
                lemma_listing_transitive(key, a, b);
            }
        }
    }
    assert(origin2.no_duplicates());
}

/// The devices named `names`, default first, then alphabetical.
pub fn list_devices(names: Vec<String>, default: Option<String>) -> (devices: Vec<DeviceInfo>)
    ensures
        exists|origin: Seq<usize>|
            {
                &&& #[trigger] is_listing_order(keys_of(names@, default), origin)
                &&& devices@.len() == origin.len()
                &&& forall|i: int|
                    0 <= i < devices@.len() ==> (#[trigger] devices@[i])@ == device_of(
                        names@[origin[i] as int],
                        default,
                    )
            },
{
    let mut keys: Vec<ListingKey> = Vec::new();
    let mut k: usize = 0;
    while k < names.len()
        invariant
            k <= names@.len(),
            keys@.len() == k,
            forall|j: int|
                0 <= j < k ==> (#[trigger] keys@[j])@ == keys_of(names@, default)[j],
        decreases names@.len() - k,
    {
        let is_default: bool = match &default {
            Some(name) => *name == names[k],
            None => false,
        };
        keys.push(ListingKey { is_default, lower_name: to_lowercase(names[k].as_str()) });
        k = k + 1;
    }
    assert(key_views(keys@) =~= keys_of(names@, default));
    let origin: Vec<usize> = listing_order(keys.as_slice());
    let mut devices: Vec<DeviceInfo> = Vec::new();
    let mut i: usize = 0;
    while i < origin.len()
        invariant
            i <= origin@.len(),
            keys@.len() == names@.len(),
            key_views(keys@) == keys_of(names@, default),
            is_listing_order(keys_of(names@, default), origin@),
            devices@.len() == i,
            forall|j: int|
                0 <= j < i ==> (#[trigger] devices@[j])@ == device_of(
                    names@[origin@[j] as int],
                    default,
                ),
        decreases origin@.len() - i,
    {
        let at: usize = origin[i];
        assert(key_views(keys@)[at as int] == keys_of(names@, default)[at as int]);
        devices.push(DeviceInfo { name: names[at].clone(), is_default: keys[at].is_default });
        i = i + 1;
    }
    devices
}

/// The list is determined: the same keys have only one listing order.
pub proof fn law_listing_order_is_unique(
    keys: Seq<KeyView>,
    origin1: Seq<usize>,
    origin2: Seq<usize>,
)
    requires
        is_listing_order(keys, origin1),
        is_listing_order(keys, origin2),
    ensures
        origin1 == origin2,
{
    assert forall|i: int| 0 <= i < origin1.len() implies origin1[i] == origin2[i] by {
        lemma_same_place(keys, origin1, origin2, i);
    }
    assert(origin1 =~= origin2);
}

/// What stands at place `i` of one listing order stands there in the other.
proof fn lemma_same_place(keys: Seq<KeyView>, origin1: Seq<usize>, origin2: Seq<usize>, i: int)
    requires
        is_listing_order(keys, origin1),
        is_listing_order(keys, origin2),
        0 <= i < keys.len(),
    ensures
        origin1[i] == origin2[i],
    decreases i,
{
    let n = keys.len();
    assert forall|j: int| 0 <= j < i implies origin1[j] == origin2[j] by {
        lemma_same_place(keys, origin1, origin2, j);
    }
    if origin1[i] != origin2[i] {
        lemma_covers(origin1, n, origin2[i]);
        lemma_covers(origin2, n, origin1[i]);
        let a = origin1.index_of(origin2[i]);
        let b = origin2.index_of(origin1[i]);
        assert(a > i) by {
            if a < i {
                assert(origin2[a] == origin2[i]);
            }
        }
        assert(b > i) by {
            if b < i {
                assert(origin1[b] == origin1[i]);
            }
        }
        let x = keys[origin1[i] as int];
        let y = keys[origin1[a] as int];
        assert(comes_first(x, origin1[i] as int, y, origin1[a] as int));
        assert(comes_first(
            keys[origin2[i] as int],
            origin2[i] as int,
            keys[origin2[b] as int],
            origin2[b] as int,
        ));
        lemma_listing_transitive(x, y, x);
    }
}

/// `n` different places below `n` are all the places below `n`.
proof fn lemma_covers(origin: Seq<usize>, n: nat, x: usize)
    requires
        origin.len() == n,
        origin.no_duplicates(),
        forall|i: int| 0 <= i < origin.len() ==> #[trigger] origin[i] < n,
        x < n,
    ensures
        origin.contains(x),
{
    if !origin.contains(x) {
        let places = origin.map_values(|p: usize| p as int);
        assert(places.no_duplicates()) by {
            assert forall|i: int, j: int|
                0 <= i < places.len() && 0 <= j < places.len() && i != j implies places[i]
                != places[j] by {
                assert(origin[i] != origin[j]);
            }
        }
        places.unique_seq_to_set();
        let others = vstd::set_lib::set_int_range(0, n as int).remove(x as int);
        vstd::set_lib::lemma_int_range(0, n as int);
        assert forall|y: int| places.to_set().contains(y) implies others.contains(y) by {
            let k = places.index_of(y);
            assert(places[k] == y && origin[k] == y);
        }
        vstd::set_lib::lemma_len_subset(places.to_set(), others);
    }
}

/// The device at place `i` has a name that contains `wanted`.
pub open spec fn name_matches(names: Seq<Option<String>>, i: int, wanted: Seq<char>) -> bool {
    names[i] is Some && contains_text(names[i]->Some_0@, wanted)
}

/// `found` is the first place whose name contains `wanted`.
pub open spec fn is_first_match(
    names: Seq<Option<String>>,
    wanted: Seq<char>,
    found: Option<usize>,
) -> bool {
    match found {
        Some(i) => i < names.len() && name_matches(names, i as int, wanted) && forall|j: int|
            0 <= j < i ==> !#[trigger] name_matches(names, j, wanted),
        None => forall|j: int| 0 <= j < names.len() ==> !#[trigger] name_matches(names, j, wanted),
    }
}

/// Find a device by name (partial match): the first whose name contains
/// `wanted`. A device without a readable name is never found.
pub fn find_device(names: &[Option<String>], wanted: &str) -> (found: Option<usize>)
    ensures
        match found {
            Some(i) => i < names@.len() && name_matches(names@, i as int, wanted@) && forall|j: int|
                0 <= j < i ==> !#[trigger] name_matches(names@, j, wanted@),
            None => forall|j: int|
                0 <= j < names@.len() ==> !#[trigger] name_matches(names@, j, wanted@),
        },
        is_first_match(names@, wanted@, found),
        forall|k: int|
            0 <= k < names@.len() && (#[trigger] names@[k]) is Some && contains_text(
                names@[k]->Some_0@,
                wanted@,
            ) ==> found is Some && found->Some_0 <= k,
        found is Some ==> names@[found->Some_0 as int] is Some && contains_text(
            names@[found->Some_0 as int]->Some_0@,
            wanted@,
        ),
{
    let mut i: usize = 0;
    while i < names.len()
        invariant
            i <= names@.len(),
            forall|j: int| 0 <= j < i ==> !#[trigger] name_matches(names@, j, wanted@),
            forall|j: int|
                0 <= j < i && (#[trigger] names@[j]) is Some ==> !contains_text(
                    names@[j]->Some_0@,
                    wanted@,
                ),
        decreases names@.len() - i,
    {
        if let Some(name) = &names[i] {
            if contains(name.as_str(), wanted) {
                assert(name_matches(names@, i as int, wanted@));
                return Some(i);
            }
        }
        i = i + 1;
    }
    None
}

/// Which device to open.
#[derive(Debug, Clone, Copy, PartialEq, Eq, Structural)]
pub enum DeviceChoice {
    /// The device at this place of the list.
    Listed(usize),
    /// The default of the system.
    Default,
}

/// The device to open for the name that was asked for: the first that matches,
/// and the default where none was asked for or none matches.
pub fn choose_device(names: &[Option<String>], wanted: &str) -> (choice: DeviceChoice)
    ensures
        match choice {
            DeviceChoice::Listed(i) => wanted@.len() > 0 && i < names@.len() && name_matches(
                names@,
                i as int,
                wanted@,
            ) && forall|j: int| 0 <= j < i ==> !#[trigger] name_matches(names@, j, wanted@),
            DeviceChoice::Default => wanted@.len() == 0 || forall|j: int|
                0 <= j < names@.len() ==> !#[trigger] name_matches(names@, j, wanted@),
        },
        wanted@.len() == 0 ==> choice == DeviceChoice::Default,
        forall|k: int|
            wanted@.len() > 0 && 0 <= k < names@.len() && (#[trigger] names@[k]) is Some && (
            contains_text(names@[k]->Some_0@, wanted@) || names@[k]->Some_0@ == wanted@)
                ==> (choice matches DeviceChoice::Listed(j) && j <= k),
{
    proof {
        law_contains_is_being_a_part(wanted@, wanted@, 0);
    }
    if wanted.is_empty() {
        DeviceChoice::Default
    } else {
        match find_device(names, wanted) {
            Some(i) => DeviceChoice::Listed(i),
            None => DeviceChoice::Default,
        }
    }
}

/// A range of stream configurations that a device offers.
#[derive(Debug, Clone, Copy, PartialEq, Eq, Structural)]
pub struct SupportedConfig {
    pub channels: u16,
    pub min_sample_rate: u32,
    pub max_sample_rate: u32,
}

/// The stream configuration to open a device with.
#[derive(Debug, Clone, Copy, PartialEq, Eq, Structural)]
pub struct ConfigChoice {
    pub channels: u16,
    pub sample_rate: u32,
}

impl SupportedConfig {
    /// Our sample rate is in the range.
    pub open spec fn at_our_rate(self) -> bool {
        self.min_sample_rate <= SAMPLE_RATE <= self.max_sample_rate
    }

    /// Our sample rate is in the range.
    fn is_at_our_rate(&self) -> (r: bool)
        ensures
            r == self.at_our_rate(),
    {
        self.min_sample_rate <= SAMPLE_RATE && self.max_sample_rate >= SAMPLE_RATE
    }
}

/// The first configuration at our sample rate.
pub open spec fn first_at_our_rate(supported: Seq<SupportedConfig>, i: int) -> bool {
    &&& 0 <= i < supported.len()
    &&& supported[i].at_our_rate()
    &&& forall|j: int| 0 <= j < i ==> !(#[trigger] supported[j]).at_our_rate()
}

/// Stereo at our sample rate is offered.
pub open spec fn offers_stereo(supported: Seq<SupportedConfig>) -> bool {
    exists|i: int|
        0 <= i < supported.len() && (#[trigger] supported[i]).channels == CHANNELS
            && supported[i].at_our_rate()
}

/// A suitable configuration: stereo at 48 kHz where that is offered; otherwise
/// the first offer at 48 kHz, with at most two channels; otherwise the first
/// offer, at its highest rate.
pub fn choose_config(supported: &[SupportedConfig]) -> (choice: ConfigChoice)
    requires
        supported@.len() > 0,
    ensures
        offers_stereo(supported@) ==> choice == (ConfigChoice {
            channels: CHANNELS,
            sample_rate: SAMPLE_RATE,
        }),
        !offers_stereo(supported@) ==> forall|i: int| #[trigger] first_at_our_rate(supported@, i) ==> choice == (
        ConfigChoice {
            channels: if supported@[i].channels < CHANNELS {
                supported@[i].channels
            } else {
                CHANNELS
            },
            sample_rate: SAMPLE_RATE,
        }),
        (forall|i: int| 0 <= i < supported@.len() ==> !(#[trigger] supported@[i]).at_our_rate())
            ==> choice == (ConfigChoice {
            channels: supported@[0].channels,
            sample_rate: supported@[0].max_sample_rate,
        }),
{
    let mut i: usize = 0;
    while i < supported.len()
        invariant
            i <= supported@.len(),
            forall|j: int|
                0 <= j < i ==> !((#[trigger] supported@[j]).channels == CHANNELS
                    && supported@[j].at_our_rate()),
        decreases supported@.len() - i,
    {
        if supported[i].channels == CHANNELS && supported[i].is_at_our_rate() {
            assert(supported@[i as int].channels == CHANNELS);
            return ConfigChoice { channels: CHANNELS, sample_rate: SAMPLE_RATE };
        }
        i = i + 1;
    }
    let mut k: usize = 0;
    while k < supported.len()
        invariant
            k <= supported@.len(),
            !offers_stereo(supported@),
            forall|j: int| 0 <= j < k ==> !(#[trigger] supported@[j]).at_our_rate(),
        decreases supported@.len() - k,
    {
        if supported[k].is_at_our_rate() {
            let channels: u16 = if supported[k].channels < CHANNELS {
                supported[k].channels
            } else {
                CHANNELS
            };
            assert forall|i: int| #[trigger] first_at_our_rate(supported@, i) implies i == k by {
                if i > k {
                    assert(!supported@[k as int].at_our_rate());
                }
            }
            return ConfigChoice { channels, sample_rate: SAMPLE_RATE };
        }
        k = k + 1;
    }
    ConfigChoice { channels: supported[0].channels, sample_rate: supported[0].max_sample_rate }
}

/// A device is found by any part of its name, by all of it among these: wherever
/// `find_device` found the first match, a device whose name contains what was
/// asked for is not passed over.
pub proof fn law_named_device_is_found(
    names: Seq<Option<String>>,
    wanted: Seq<char>,
    found: Option<usize>,
    i: int,
)
    requires
        is_first_match(names, wanted, found),
        0 <= i < names.len(),
        names[i] is Some,
    ensures
        names[i]->Some_0@ == wanted ==> found is Some && found->Some_0 <= i,
        contains_text(names[i]->Some_0@, wanted) ==> found is Some && found->Some_0 <= i,
        found is Some ==> {
            let k = found->Some_0 as int;
            &&& k < names.len()
            &&& names[k] is Some
            &&& contains_text(names[k]->Some_0@, wanted)
        },
        found is Some && i < found->Some_0 ==> !contains_text(names[i]->Some_0@, wanted),
{
    law_contains_is_being_a_part(names[i]->Some_0@, wanted, 0);
    if contains_text(names[i]->Some_0@, wanted) {
        assert(name_matches(names, i, wanted));
    }
}

/// How a list is ordered: no device stands behind one that is not the default if
/// it is the default itself; otherwise names in lower case only go up; and equal
/// ones stand as they came. Every device is in it once.
pub proof fn law_list_is_ordered(
    names: Seq<String>,
    default: Option<String>,
    origin: Seq<usize>,
    i: int,
    j: int,
    place: usize,
)
    requires
        is_listing_order(keys_of(names, default), origin),
        0 <= i < j < origin.len(),
        place < names.len(),
    ensures
        ({
            let a = names[origin[i] as int]@;
            let b = names[origin[j] as int]@;
            let a_default = default is Some && default->Some_0@ == a;
            let b_default = default is Some && default->Some_0@ == b;
            &&& b_default ==> a_default
            &&& a_default == b_default ==> !text_less(lowercase(b), lowercase(a))
            &&& a_default == b_default && lowercase(a) == lowercase(b) ==> origin[i] < origin[j]
            &&& origin[i] != origin[j]
        }),
        origin.len() == names.len(),
        origin.contains(place),
{
    let keys = keys_of(names, default);
    assert(comes_first(
        keys[origin[i] as int],
        origin[i] as int,
        keys[origin[j] as int],
        origin[j] as int,
    ));
    let (x, y) = (lowercase(names[origin[i] as int]@), lowercase(names[origin[j] as int]@));
    lemma_less_irreflexive(x);
    lemma_less_irreflexive(y);
    lemma_less_total(x, y);
    if text_less(x, y) && text_less(y, x) {
        lemma_less_transitive(x, y, x);
    }
    lemma_covers(origin, names.len(), place);
}

/// What a device is listed as: under its name, as the default exactly if the
/// default has its name.
pub proof fn law_device_is_listed_as_it_is(name: String, default: Option<String>)
    ensures
        device_of(name, default).name == name@,
        device_of(name, default).is_default <==> default is Some && default->Some_0@ == name@,
{
}

/// Which offers count: those whose range holds 48 kHz; and stereo is offered if
/// one of these has two channels.
pub proof fn law_offers_at_our_rate(supported: Seq<SupportedConfig>, i: int)
    requires
        0 <= i < supported.len(),
    ensures
        supported[i].at_our_rate() <==> supported[i].min_sample_rate <= 48_000
            <= supported[i].max_sample_rate,
        supported[i].channels == 2 && supported[i].min_sample_rate <= 48_000
            <= supported[i].max_sample_rate ==> offers_stereo(supported),
        offers_stereo(supported) ==> exists|k: int|
            {
                &&& 0 <= k < supported.len()
                &&& (#[trigger] supported[k]).channels == 2
                &&& supported[k].min_sample_rate <= 48_000 <= supported[k].max_sample_rate
            },
        first_at_our_rate(supported, i) <==> supported[i].min_sample_rate <= 48_000
            <= supported[i].max_sample_rate && forall|k: int|
            0 <= k < i ==> !((#[trigger] supported[k]).min_sample_rate <= 48_000
                <= supported[k].max_sample_rate),
{
    if forall|k: int|
        0 <= k < i ==> !((#[trigger] supported[k]).min_sample_rate <= 48_000
            <= supported[k].max_sample_rate) {
        assert forall|k: int| 0 <= k < i implies !(#[trigger] supported[k]).at_our_rate() by {}
    }
    if first_at_our_rate(supported, i) {
        assert forall|k: int| 0 <= k < i implies !((#[trigger] supported[k]).min_sample_rate
            <= 48_000 <= supported[k].max_sample_rate) by {
            assert(!supported[k].at_our_rate());
        }
    }
}

/// What the views of devices and keys show: every field, and every key of a list
/// in its place.
pub proof fn law_devices_are_shown_whole(device: DeviceInfo, keys: Seq<ListingKey>, i: int)
    requires
        0 <= i < keys.len(),
    ensures
        device@.name == device.name@,
        device@.is_default == device.is_default,
        key_views(keys).len() == keys.len(),
        key_views(keys)[i].is_default == keys[i].is_default,
        key_views(keys)[i].lower_name == keys[i].lower_name@,
{
}

} // verus!
