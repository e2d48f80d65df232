use rsntp::clock::{nanos_since_epoch, secs_since_epoch, NANOS_PER_SEC};

#[test]
fn nanos_of_a_reading() {
    assert_eq!(nanos_since_epoch(Some((1, 5))), 1_000_000_005);
    assert_eq!(nanos_since_epoch(Some((1_700_000_000, 123_456_789))), 1_700_000_000_123_456_789);
    assert_eq!(NANOS_PER_SEC, 1_000_000_000);
}

#[test]
fn nanos_before_the_epoch_are_zero() {
    assert_eq!(nanos_since_epoch(None), 0);
    assert_eq!(secs_since_epoch(None), 0);
}

#[test]
fn nanos_truncate_to_64_bits() {
    let secs: u64 = 10_000_000_000;
    let full: u128 = secs as u128 * 1_000_000_000 + 7;
    assert_eq!(nanos_since_epoch(Some((secs, 7))), full as i64);
    assert!(nanos_since_epoch(Some((secs, 7))) < 0);
}

#[test]
fn secs_of_a_reading() {
    assert_eq!(secs_since_epoch(Some((42, 999_999_999))), 42);
}
