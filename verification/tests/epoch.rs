use microsleep::epoch::{epoch_to_instant, instant_to_epoch, millis_to_epoch};
use std::time::{Duration, Instant};

#[test]
fn reference_instant_has_epoch_zero() {
    let start = Instant::now();
    assert_eq!(instant_to_epoch(start, start), 0);
}

#[test]
fn epoch_counts_whole_milliseconds() {
    let start = Instant::now();
    assert_eq!(instant_to_epoch(start, start + Duration::from_millis(1_500)), 1_500);
    assert_eq!(instant_to_epoch(start, start + Duration::from_micros(1_999)), 1);
    assert_eq!(instant_to_epoch(start, start + Duration::from_micros(999)), 0);
    assert_eq!(instant_to_epoch(start, start + Duration::from_secs(3_600)), 3_600_000);
}

#[test]
fn instant_before_the_reference_has_epoch_zero() {
    let earlier = Instant::now();
    let start = earlier + Duration::from_millis(750);
    assert_eq!(instant_to_epoch(start, earlier), 0);
}

#[test]
fn epoch_to_instant_adds_milliseconds_to_the_reference() {
    let start = Instant::now();
    assert_eq!(epoch_to_instant(start, 0), Some(start));
    assert_eq!(epoch_to_instant(start, 250), Some(start + Duration::from_millis(250)));
}

#[test]
fn epoch_survives_the_round_trip() {
    let start = Instant::now();
    for epoch in [0u64, 1, 49, 50, 51, 1_000, 86_400_000] {
        let at = epoch_to_instant(start, epoch).expect("the instant is representable");
        assert_eq!(instant_to_epoch(start, at), epoch);
    }
}

#[test]
fn unrepresentable_instant_is_none_or_keeps_its_epoch() {
    let start = Instant::now();
    match epoch_to_instant(start, u64::MAX) {
        Some(at) => assert_eq!(instant_to_epoch(start, at), u64::MAX),
        None => (),
    }
}

#[test]
fn millis_to_epoch_saturates() {
    assert_eq!(millis_to_epoch(0), 0);
    assert_eq!(millis_to_epoch(42), 42);
    assert_eq!(millis_to_epoch(u64::MAX as u128), u64::MAX);
    assert_eq!(millis_to_epoch(u64::MAX as u128 + 1), u64::MAX);
    assert_eq!(millis_to_epoch(u128::MAX), u64::MAX);
}

#[test]
fn epoch_to_instant_depends_on_its_arguments_alone() {
    let start = Instant::now();
    assert_eq!(epoch_to_instant(start, 77), epoch_to_instant(start, 77));
    assert_eq!(epoch_to_instant(start, u64::MAX), epoch_to_instant(start, u64::MAX));
    assert_ne!(epoch_to_instant(start, 77), epoch_to_instant(start, 78));
    assert_ne!(epoch_to_instant(start, 1), Some(start));
}
