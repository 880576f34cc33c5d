use syncplay::audio::tap::{
    advance, aggregate_description, teardown, AggregateEntry, TapEvent, TapPart, TapStage,
};

fn reach(events: &[TapEvent]) -> Result<TapStage, Vec<TapPart>> {
    let mut stage = TapStage::Empty;
    for event in events {
        stage = advance(stage, *event)?;
    }
    Ok(stage)
}

const TAP: TapEvent = TapEvent::TapMade { status: 0, tap_id: 5 };
const NAME: TapEvent = TapEvent::NameRead { found: true };
const AGGREGATE: TapEvent = TapEvent::AggregateMade { status: 0, agg_id: 6 };
const CALLBACK: TapEvent = TapEvent::CallbackMade { status: 0, present: true };
const STARTED: TapEvent = TapEvent::Started { status: 0 };

#[test]
fn setup_ends_in_capturing() {
    assert_eq!(
        reach(&[TAP, NAME, AGGREGATE, CALLBACK, STARTED]),
        Ok(TapStage::Capturing { tap_id: 5, agg_id: 6 })
    );
}

#[test]
fn failed_tap_leaves_nothing() {
    assert_eq!(reach(&[TapEvent::TapMade { status: -1, tap_id: 5 }]), Err(vec![]));
    assert_eq!(reach(&[TapEvent::TapMade { status: 0, tap_id: 0 }]), Err(vec![]));
}

#[test]
fn failure_takes_down_what_was_made() {
    assert_eq!(reach(&[TAP, TapEvent::NameRead { found: false }]), Err(vec![TapPart::Tap]));
    assert_eq!(reach(&[TAP, NAME, TapEvent::NoOutputDevice]), Err(vec![TapPart::Tap]));
    assert_eq!(
        reach(&[TAP, NAME, TapEvent::AggregateMade { status: 0, agg_id: 0 }]),
        Err(vec![TapPart::Tap])
    );
    assert_eq!(
        reach(&[TAP, NAME, TapEvent::AggregateMade { status: 3, agg_id: 6 }]),
        Err(vec![TapPart::Tap])
    );
    assert_eq!(
        reach(&[TAP, NAME, AGGREGATE, TapEvent::CallbackMade { status: 0, present: false }]),
        Err(vec![TapPart::Aggregate, TapPart::Tap])
    );
    assert_eq!(
        reach(&[TAP, NAME, AGGREGATE, TapEvent::CallbackMade { status: 1, present: true }]),
        Err(vec![TapPart::Aggregate, TapPart::Tap])
    );
    assert_eq!(
        reach(&[TAP, NAME, AGGREGATE, CALLBACK, TapEvent::Started { status: 1 }]),
        Err(vec![TapPart::Callback, TapPart::Aggregate, TapPart::Tap])
    );
}

#[test]
fn running_capture_is_taken_down_in_reverse() {
    assert_eq!(
        teardown(TapStage::Capturing { tap_id: 5, agg_id: 6 }),
        vec![TapPart::Running, TapPart::Callback, TapPart::Aggregate, TapPart::Tap]
    );
    assert_eq!(teardown(TapStage::Empty), vec![]);
}

#[test]
fn tap_alone_is_in_the_description() {
    let entries = aggregate_description(false, "out", "tap");
    assert_eq!(entries.len(), 6);
    assert!(matches!(&entries[0], AggregateEntry::Name(s) if s == "SyncPlay-Tap"));
    assert!(matches!(&entries[1], AggregateEntry::Uid(s) if s == "com.syncplay.tap.aggregate"));
    assert!(matches!(entries[2], AggregateEntry::Private(true)));
    assert!(matches!(entries[3], AggregateEntry::Stacked(false)));
    assert!(matches!(entries[4], AggregateEntry::TapAutoStart(true)));
    assert!(matches!(
        &entries[5],
        AggregateEntry::Taps { uid, drift_compensation: true } if uid == "tap"
    ));
}

#[test]
fn output_device_can_give_the_clock() {
    let entries = aggregate_description(true, "out", "tap");
    assert_eq!(entries.len(), 8);
    assert!(matches!(&entries[5], AggregateEntry::MainSubDevice(s) if s == "out"));
    assert!(matches!(&entries[6], AggregateEntry::SubDevices(s) if s == "out"));
    assert!(matches!(&entries[7], AggregateEntry::Taps { uid, .. } if uid == "tap"));
}
