//! Setting up and tearing down a muted process tap.
//!
//! A tap, a private device that wraps it, and a callback on that device are made
//! one after another. Where one of them cannot be had, what was made before it
//! is taken down again, the latest first.

use vstd::prelude::*;

verus! {

/// Something that was made for a capture.
#[derive(Debug, Clone, Copy, PartialEq, Eq, Structural)]
pub enum TapPart {
    /// The tap, which mutes the tapped audio.
    Tap,
    /// The private device that wraps the tap.
    Aggregate,
    /// The callback installed on the device.
    Callback,
    /// The running callback.
    Running,
}

/// How far the setup has come.
#[derive(Debug, Clone, Copy, PartialEq, Eq, Structural)]
pub enum TapStage {
    /// Nothing is there yet.
    Empty,
    /// The tap is there.
    Tapped { tap_id: u32 },
    /// The tap is there, and what it is called is known.
    Named { tap_id: u32 },
    /// The device is there, too.
    Wrapped { tap_id: u32, agg_id: u32 },
    /// The callback is installed, too.
    Installed { tap_id: u32, agg_id: u32 },
    /// Audio flows.
    Capturing { tap_id: u32, agg_id: u32 },
}

/// What came of the next step of the setup. A status of 0 is success.
#[derive(Debug, Clone, Copy, PartialEq, Eq, Structural)]
pub enum TapEvent {
    /// The tap was asked for. The id is 0 where there is none.
    TapMade { status: i32, tap_id: u32 },
    /// The tap was asked for what it is called.
    NameRead { found: bool },
    /// The device was asked for. The id is 0 where there is none.
    AggregateMade { status: i32, agg_id: u32 },
    /// There is no output device to take the clock from.
    NoOutputDevice,
    /// The callback was installed, or not.
    CallbackMade { status: i32, present: bool },
    /// The callback was started.
    Started { status: i32 },
}

/// What has been made at `stage`, in the order in which it was made.
pub open spec fn made(stage: TapStage) -> Seq<TapPart> {
    match stage {
        TapStage::Empty => seq![],
        TapStage::Tapped { .. } => seq![TapPart::Tap],
        TapStage::Named { .. } => seq![TapPart::Tap],
        TapStage::Wrapped { .. } => seq![TapPart::Tap, TapPart::Aggregate],
        TapStage::Installed { .. } => seq![TapPart::Tap, TapPart::Aggregate, TapPart::Callback],
        TapStage::Capturing { .. } => seq![
            TapPart::Tap,
            TapPart::Aggregate,
            TapPart::Callback,
            TapPart::Running,
        ],
    }
}

/// `event` is what can come at `stage`.
pub open spec fn expected(stage: TapStage, event: TapEvent) -> bool {
    match (stage, event) {
        (TapStage::Empty, TapEvent::TapMade { .. }) => true,
        (TapStage::Tapped { .. }, TapEvent::NameRead { .. }) => true,
        (TapStage::Named { .. }, TapEvent::AggregateMade { .. }) => true,
        (TapStage::Named { .. }, TapEvent::NoOutputDevice) => true,
        (TapStage::Wrapped { .. }, TapEvent::CallbackMade { .. }) => true,
        (TapStage::Installed { .. }, TapEvent::Started { .. }) => true,
        _ => false,
    }
}

/// The stage after `event` at `stage`, or none where the setup has failed.
pub open spec fn stage_after(stage: TapStage, event: TapEvent) -> Option<TapStage> {
    match (stage, event) {
        (TapStage::Empty, TapEvent::TapMade { status, tap_id }) => if status == 0 && tap_id != 0 {
            Some(TapStage::Tapped { tap_id })
        } else {
            None
        },
        (TapStage::Tapped { tap_id }, TapEvent::NameRead { found }) => if found {
            Some(TapStage::Named { tap_id })
        } else {
            None
        },
        (TapStage::Named { tap_id }, TapEvent::AggregateMade { status, agg_id }) => if status == 0
            && agg_id != 0 {
            Some(TapStage::Wrapped { tap_id, agg_id })
        } else {
            None
        },
        (
            TapStage::Wrapped { tap_id, agg_id },
            TapEvent::CallbackMade { status, present },
        ) => if status == 0 && present {
            Some(TapStage::Installed { tap_id, agg_id })
        } else {
            None
        },
        (TapStage::Installed { tap_id, agg_id }, TapEvent::Started { status }) => if status == 0 {
            Some(TapStage::Capturing { tap_id, agg_id })
        } else {
            None
        },
        _ => None,
    }
}

/// What to take down at `stage`: everything that was made, the latest first.
pub fn teardown(stage: TapStage) -> (parts: Vec<TapPart>)
    ensures
        parts@ == made(stage).reverse(),
{
    let mut parts: Vec<TapPart> = Vec::new();
    match stage {
        TapStage::Empty => {},
        TapStage::Tapped { .. } | TapStage::Named { .. } => {
            parts.push(TapPart::Tap);
        },
        TapStage::Wrapped { .. } => {
            parts.push(TapPart::Aggregate);
            parts.push(TapPart::Tap);
        },
        TapStage::Installed { .. } => {
            parts.push(TapPart::Callback);
            parts.push(TapPart::Aggregate);
            parts.push(TapPart::Tap);
        },
        TapStage::Capturing { .. } => {
            parts.push(TapPart::Running);
            parts.push(TapPart::Callback);
            parts.push(TapPart::Aggregate);
            parts.push(TapPart::Tap);
        },
    }
    assert(parts@ =~= made(stage).reverse());
    parts
}

/// Go on with the setup after `event`. Where it has failed, returns what to take
/// down, in order.
pub fn advance(stage: TapStage, event: TapEvent) -> (r: Result<TapStage, Vec<TapPart>>)
    requires
        expected(stage, event),
    ensures
        match r {
            Ok(next) => stage_after(stage, event) == Some(next),
            Err(parts) => stage_after(stage, event) is None && parts@ == made(stage).reverse(),
        },
{
    let next: Option<TapStage> = match (stage, event) {
        (TapStage::Empty, TapEvent::TapMade { status, tap_id }) => if status == 0 && tap_id != 0 {
            Some(TapStage::Tapped { tap_id })
        } else {
            None
        },
        (TapStage::Tapped { tap_id }, TapEvent::NameRead { found }) => if found {
            Some(TapStage::Named { tap_id })
        } else {
            None
        },
        (TapStage::Named { tap_id }, TapEvent::AggregateMade { status, agg_id }) => if status == 0
            && agg_id != 0 {
            Some(TapStage::Wrapped { tap_id, agg_id })
        } else {
            None
        },
        (
            TapStage::Wrapped { tap_id, agg_id },
            TapEvent::CallbackMade { status, present },
        ) => if status == 0 && present {
            Some(TapStage::Installed { tap_id, agg_id })
        } else {
            None
        },
        (TapStage::Installed { tap_id, agg_id }, TapEvent::Started { status }) => if status == 0 {
            Some(TapStage::Capturing { tap_id, agg_id })
        } else {
            None
        },
        _ => None,
    };
    match next {
        Some(stage) => Ok(stage),
        None => Err(teardown(stage)),
    }
}

/// Each step that succeeds makes at most one thing more, behind what was there;
/// and what a failure or the end of the capture takes down is each thing made,
/// exactly once.
pub proof fn law_nothing_is_left_behind(stage: TapStage, event: TapEvent)
    requires
        expected(stage, event),
    ensures
        stage_after(stage, event) matches Some(next) ==> {
            &&& made(stage).len() <= made(next).len() <= made(stage).len() + 1
            &&& made(next).take(made(stage).len() as int) == made(stage)
        },
        made(stage).no_duplicates(),
        forall|part: TapPart|
            made(stage).contains(part) <==> #[trigger] made(stage).reverse().contains(part),
        made(stage).reverse().len() == made(stage).len(),
{
    if let Some(next) = stage_after(stage, event) {
        assert(made(next).take(made(stage).len() as int) =~= made(stage));
    }
    let parts = made(stage);
    assert forall|part: TapPart|
        parts.contains(part) <==> #[trigger] parts.reverse().contains(part) by {
        if parts.contains(part) {
            let k = parts.index_of(part);
            assert(parts.reverse()[parts.len() - 1 - k] == part);
        }
        if parts.reverse().contains(part) {
            let k = parts.reverse().index_of(part);
            assert(parts[parts.len() - 1 - k] == part);
        }
    }
}

/// An entry in the description of the private device.
#[derive(Debug)]
pub enum AggregateEntry {
    /// Its name.
    Name(String),
    /// Its identifier.
    Uid(String),
    /// Whether only this process sees it.
    Private(bool),
    /// Whether its parts play the same audio.
    Stacked(bool),
    /// Whether the tap starts with it.
    TapAutoStart(bool),
    /// The device that gives the clock.
    MainSubDevice(String),
    /// The devices in it.
    SubDevices(String),
    /// The tap in it, and whether its drift is compensated.
    Taps { uid: String, drift_compensation: bool },
}

/// What an [`AggregateEntry`] says.
pub enum EntryView {
    Name(Seq<char>),
    Uid(Seq<char>),
    Private(bool),
    Stacked(bool),
    TapAutoStart(bool),
    MainSubDevice(Seq<char>),
    SubDevices(Seq<char>),
    Taps(Seq<char>, bool),
}

impl View for AggregateEntry {
    type V = EntryView;

    open spec fn view(&self) -> EntryView {
        match *self {
            AggregateEntry::Name(s) => EntryView::Name(s@),
            AggregateEntry::Uid(s) => EntryView::Uid(s@),
            AggregateEntry::Private(b) => EntryView::Private(b),
            AggregateEntry::Stacked(b) => EntryView::Stacked(b),
            AggregateEntry::TapAutoStart(b) => EntryView::TapAutoStart(b),
            AggregateEntry::MainSubDevice(s) => EntryView::MainSubDevice(s@),
            AggregateEntry::SubDevices(s) => EntryView::SubDevices(s@),
            AggregateEntry::Taps { uid, drift_compensation } => EntryView::Taps(
                uid@,
                drift_compensation,
            ),
        }
    }
}

/// What the entries of a description say.
pub open spec fn entry_views(entries: Seq<AggregateEntry>) -> Seq<EntryView> {
    entries.map_values(|e: AggregateEntry| e@)
}

/// The entries of the private device around the tap `tap_uid`: with
/// `with_subdevice` the output device `out_uid` is in it and gives the clock.
pub open spec fn description(
    with_subdevice: bool,
    out_uid: Seq<char>,
    tap_uid: Seq<char>,
) -> Seq<EntryView> {
    seq![
        EntryView::Name("SyncPlay-Tap"@),
        EntryView::Uid("com.syncplay.tap.aggregate"@),
        EntryView::Private(true),
        EntryView::Stacked(false),
        EntryView::TapAutoStart(true),
    ] + (if with_subdevice {
        seq![EntryView::MainSubDevice(out_uid), EntryView::SubDevices(out_uid)]
    } else {
        seq![]
    }) + seq![EntryView::Taps(tap_uid, true)]
}

/// The description of the private device around the tap `tap_uid`. The tap
/// alone delivers audio; the output device as a part of it is for comparison.
pub fn aggregate_description(with_subdevice: bool, out_uid: &str, tap_uid: &str) -> (entries: Vec<
    AggregateEntry,
>)
    ensures
        entry_views(entries@) == description(with_subdevice, out_uid@, tap_uid@),
{
    let mut entries: Vec<AggregateEntry> = Vec::new();
    entries.push(AggregateEntry::Name("SyncPlay-Tap".to_owned()));
    entries.push(AggregateEntry::Uid("com.syncplay.tap.aggregate".to_owned()));
    entries.push(AggregateEntry::Private(true));
    entries.push(AggregateEntry::Stacked(false));
    entries.push(AggregateEntry::TapAutoStart(true));
    if with_subdevice {
        entries.push(AggregateEntry::MainSubDevice(out_uid.to_owned()));
        entries.push(AggregateEntry::SubDevices(out_uid.to_owned()));
    }
    entries.push(AggregateEntry::Taps { uid: tap_uid.to_owned(), drift_compensation: true });
    assert(entry_views(entries@) =~= description(with_subdevice, out_uid@, tap_uid@));
    entries
}

/// Which answers of the system carry the setup on: status 0, and the thing itself
/// where one was asked for. The handles are those that were given.
pub proof fn law_setup_needs_every_answer(
    tap: u32,
    agg: u32,
    status: i32,
    id: u32,
    there: bool,
)
    ensures
        stage_after(TapStage::Empty, TapEvent::TapMade { status, tap_id: id }) == (if status == 0
            && id != 0 {
            Some(TapStage::Tapped { tap_id: id })
        } else {
            None
        }),
        stage_after(TapStage::Tapped { tap_id: tap }, TapEvent::NameRead { found: there }) == (
        if there {
            Some(TapStage::Named { tap_id: tap })
        } else {
            None
        }),
        stage_after(
            TapStage::Named { tap_id: tap },
            TapEvent::AggregateMade { status, agg_id: id },
        ) == (if status == 0 && id != 0 {
            Some(TapStage::Wrapped { tap_id: tap, agg_id: id })
        } else {
            None
        }),
        stage_after(TapStage::Named { tap_id: tap }, TapEvent::NoOutputDevice) is None,
        stage_after(
            TapStage::Wrapped { tap_id: tap, agg_id: agg },
            TapEvent::CallbackMade { status, present: there },
        ) == (if status == 0 && there {
            Some(TapStage::Installed { tap_id: tap, agg_id: agg })
        } else {
            None
        }),
        stage_after(
            TapStage::Installed { tap_id: tap, agg_id: agg },
            TapEvent::Started { status },
        ) == (if status == 0 {
            Some(TapStage::Capturing { tap_id: tap, agg_id: agg })
        } else {
            None
        }),
{
}

/// The tap is there from the first stage on, the device, the callback and the
/// running callback from their stages on, made in this order.
pub proof fn law_parts_are_made_in_order(tap_id: u32, agg_id: u32)
    ensures
        made(TapStage::Empty).len() == 0,
        made(TapStage::Tapped { tap_id }) == seq![TapPart::Tap],
        made(TapStage::Named { tap_id }) == seq![TapPart::Tap],
        made(TapStage::Wrapped { tap_id, agg_id }) == seq![TapPart::Tap, TapPart::Aggregate],
        made(TapStage::Installed { tap_id, agg_id }) == seq![
            TapPart::Tap,
            TapPart::Aggregate,
            TapPart::Callback,
        ],
        made(TapStage::Capturing { tap_id, agg_id }) == seq![
            TapPart::Tap,
            TapPart::Aggregate,
            TapPart::Callback,
            TapPart::Running,
        ],
{
}

/// The device is private, not stacked and starts with its tap, whose drift is
/// compensated; the output device is in it, and gives the clock, exactly if asked
/// for.
pub proof fn law_description_is_complete(
    with_subdevice: bool,
    out_uid: Seq<char>,
    tap_uid: Seq<char>,
)
    ensures
        ({
            let entries = description(with_subdevice, out_uid, tap_uid);
            &&& entries.len() == (if with_subdevice {
                8int
            } else {
                6
            })
            &&& entries[0] == EntryView::Name("SyncPlay-Tap"@)
            &&& entries[1] == EntryView::Uid("com.syncplay.tap.aggregate"@)
            &&& entries[2] == EntryView::Private(true)
            &&& entries[3] == EntryView::Stacked(false)
            &&& entries[4] == EntryView::TapAutoStart(true)
            &&& entries.last() == EntryView::Taps(tap_uid, true)
            &&& with_subdevice ==> entries[5] == EntryView::MainSubDevice(out_uid) && entries[6]
                == EntryView::SubDevices(out_uid)
        }),
{
}

/// At each stage the event that answers it can come, and no other.
pub proof fn law_every_stage_has_its_event(stage: TapStage, event: TapEvent)
    ensures
        expected(stage, event) <==> {
            ||| stage is Empty && event is TapMade
            ||| stage is Tapped && event is NameRead
            ||| stage is Named && (event is AggregateMade || event is NoOutputDevice)
            ||| stage is Wrapped && event is CallbackMade
            ||| stage is Installed && event is Started
        },
{
}

/// What the entries say is what they hold, in their order.
pub proof fn law_entries_say_what_they_hold(entries: Seq<AggregateEntry>, i: int)
    requires
        0 <= i < entries.len(),
    ensures
        entry_views(entries).len() == entries.len(),
        entry_views(entries)[i] == entries[i]@,
        match entries[i] {
            AggregateEntry::Name(s) => entries[i]@ == EntryView::Name(s@),
            AggregateEntry::Uid(s) => entries[i]@ == EntryView::Uid(s@),
            AggregateEntry::Private(b) => entries[i]@ == EntryView::Private(b),
            AggregateEntry::Stacked(b) => entries[i]@ == EntryView::Stacked(b),
            AggregateEntry::TapAutoStart(b) => entries[i]@ == EntryView::TapAutoStart(b),
            AggregateEntry::MainSubDevice(s) => entries[i]@ == EntryView::MainSubDevice(s@),
            AggregateEntry::SubDevices(s) => entries[i]@ == EntryView::SubDevices(s@),
            AggregateEntry::Taps { uid, drift_compensation } => entries[i]@ == EntryView::Taps(
                uid@,
                drift_compensation,
            ),
        },
{
}

} // verus!
