use icecast_influx::clock::{epoch_nanos, timestamp_now, NANOS_PER_SEC};

#[test]
fn seconds_and_nanoseconds_are_joined() {
    assert_eq!(NANOS_PER_SEC, 1_000_000_000);
    assert_eq!(epoch_nanos(0, 0), Some(0));
    assert_eq!(epoch_nanos(1, 200_000_000), Some(1_200_000_000));
    assert_eq!(epoch_nanos(1_700_000_000, 0), Some(1_700_000_000_000_000_000));
    assert_eq!(epoch_nanos(1_434_055_562, 123_456_789), Some(1_434_055_562_123_456_789));
    assert_eq!(epoch_nanos(-2, 800_000_000), Some(-1_200_000_000));
}

#[test]
fn limits_of_the_range_are_exact() {
    assert_eq!(epoch_nanos(9_223_372_036, 854_775_807), Some(i64::MAX));
    assert_eq!(epoch_nanos(9_223_372_036, 854_775_808), None);
    assert_eq!(epoch_nanos(9_223_372_037, 0), None);
    assert_eq!(epoch_nanos(-9_223_372_037, 145_224_192), Some(i64::MIN));
    assert_eq!(epoch_nanos(-9_223_372_037, 145_224_191), None);
    assert_eq!(epoch_nanos(i64::MAX, 0), None);
    assert_eq!(epoch_nanos(i64::MIN, 999_999_999), None);
}

#[test]
fn clock_gives_a_time_of_this_century() {
    let first = timestamp_now().unwrap();
    let second = timestamp_now().unwrap();
    assert!(first > 1_600_000_000_000_000_000);
    assert!(second > 1_600_000_000_000_000_000);
    assert!(second - first < 3_600 * NANOS_PER_SEC);
    assert!(first - second < 3_600 * NANOS_PER_SEC);
}
