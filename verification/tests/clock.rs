use syncplay::sync::clock::{now_us, ClockSync, GOOD_RTT_US};

#[test]
fn now_counts_whole_microseconds() {
    assert_eq!(now_us(0, 0), 0);
    assert_eq!(now_us(0, 999), 0);
    assert_eq!(now_us(0, 1_000), 1);
    assert_eq!(now_us(3, 250_000_999), 3_250_000);
}

#[test]
fn now_keeps_the_low_64_bits() {
    // u64::MAX seconds are 2^64 - 1 million microseconds modulo 2^64.
    assert_eq!(now_us(u64::MAX, 0), u64::MAX.wrapping_mul(1_000_000));
}

#[test]
fn clock_runs_forward() {
    assert!(now_us(1, 999_999_999) <= now_us(2, 0));
    assert!(now_us(2, 10) <= now_us(2, 20));
}

#[test]
fn fresh_clock_knows_nothing() {
    let clock = ClockSync::new();
    assert_eq!(clock.offset_us(), 0);
    assert_eq!(clock.best_rtt_us(), u64::MAX);
    assert!(!clock.is_synced());
    assert!(!clock.is_good());
    assert_eq!(ClockSync::default().best_rtt_us(), u64::MAX);
}

#[test]
fn one_sample_gives_the_offset() {
    let mut clock = ClockSync::new();
    clock.update(1_000, 51_000, 3_000);
    assert_eq!(clock.best_rtt_us(), 2_000);
    assert_eq!(clock.offset_us(), 49_000);
    assert!(clock.is_synced());
    assert!(clock.is_good());
}

#[test]
fn offset_can_be_negative() {
    let mut clock = ClockSync::new();
    clock.update(100_000, 40_000, 100_101);
    assert_eq!(clock.best_rtt_us(), 101);
    assert_eq!(clock.offset_us(), 40_000 - 100_050);
}

#[test]
fn shortest_round_trip_decides() {
    let mut clock = ClockSync::new();
    clock.update(0, 10_000, 8_000);
    clock.update(20_000, 25_000, 22_000);
    clock.update(40_000, 90_000, 49_000);
    assert_eq!(clock.best_rtt_us(), 2_000);
    assert_eq!(clock.offset_us(), 4_000);
}

#[test]
fn equally_short_round_trip_replaces() {
    let mut clock = ClockSync::new();
    clock.update(0, 1_000, 100);
    clock.update(500, 2_000, 600);
    assert_eq!(clock.offset_us(), 2_000 - 550);
}

#[test]
fn reply_before_request_counts_as_no_time() {
    let mut clock = ClockSync::new();
    clock.update(5_000, 6_000, 4_000);
    assert_eq!(clock.best_rtt_us(), 0);
    assert_eq!(clock.offset_us(), 1_000);
}

#[test]
fn only_short_round_trips_are_good() {
    let mut clock = ClockSync::new();
    clock.update(0, 0, GOOD_RTT_US + 1);
    assert!(clock.is_synced());
    assert!(!clock.is_good());
    clock.update(0, 0, GOOD_RTT_US);
    assert!(clock.is_good());
    clock.update(0, 0, 1_000_000);
    assert!(clock.is_good());
    assert_eq!(GOOD_RTT_US, 40_000);
}

#[test]
fn sample_that_fits_is_taken() {
    let mut clock = ClockSync::new();
    assert!(clock.try_update(1_000, 51_000, 3_000));
    assert_eq!(clock.offset_us(), 49_000);
}

#[test]
fn sample_beyond_the_range_is_not_taken() {
    let mut clock = ClockSync::new();
    // Send stamp i64::MIN, server stamp i64::MAX: the difference does not fit.
    assert!(!clock.try_update(1 << 63, i64::MAX as u64, 1 << 63));
    assert!(!clock.is_synced());
    assert_eq!(clock.offset_us(), 0);
}

#[test]
fn remote_time_in_local_time() {
    let mut clock = ClockSync::new();
    clock.update(1_000, 51_000, 3_000);
    assert_eq!(clock.remote_to_local_us(149_000), 100_000);
    assert_eq!(clock.remote_to_local_us(0), -49_000);
}

#[test]
fn deadline_is_capture_minus_offset_plus_budget() {
    let mut clock = ClockSync::new();
    clock.update(1_000, 51_000, 3_000);
    assert_eq!(clock.playout_deadline_us(149_000, 200_000), 300_000);
}

#[test]
fn deadline_stays_on_the_clock() {
    let mut early = ClockSync::new();
    early.update(0, 1_000_000, 0);
    assert_eq!(early.playout_deadline_us(0, 200_000), 0);
    let mut late = ClockSync::new();
    late.update(1_000_000, 0, 1_000_000);
    assert_eq!(late.playout_deadline_us(5, u64::MAX), u64::MAX);
}

#[test]
fn offset_error_is_at_most_half_the_round_trip() {
    // The sender's clock is 70 ms ahead; 1 ms there and 9 ms back.
    let mut clock = ClockSync::new();
    clock.update(500_000, 500_000 + 1_000 + 70_000, 500_000 + 10_000);
    let error = clock.offset_us() - 70_000;
    assert_eq!(error, -4_000);
    assert!(error.abs() <= 5_000);
}
