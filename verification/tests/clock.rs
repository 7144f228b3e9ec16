use node_trace::clock::{now, stamp};
use node_trace::event::Timestamp;

#[test]
fn from_nanos_splits_seconds_and_nanoseconds() {
    assert_eq!(Timestamp::from_nanos(0), Timestamp { seconds: 0, nanos: 0 });
    assert_eq!(Timestamp::from_nanos(999_999_999), Timestamp { seconds: 0, nanos: 999_999_999 });
    assert_eq!(Timestamp::from_nanos(1_000_000_000), Timestamp { seconds: 1, nanos: 0 });
    assert_eq!(
        Timestamp::from_nanos(1_500_000_000),
        Timestamp { seconds: 1, nanos: 500_000_000 }
    );
    assert_eq!(
        Timestamp::from_nanos(1_700_000_000_123_456_789),
        Timestamp { seconds: 1_700_000_000, nanos: 123_456_789 }
    );
}

#[test]
fn from_nanos_keeps_nanoseconds_non_negative_before_the_epoch() {
    assert_eq!(Timestamp::from_nanos(-1), Timestamp { seconds: -1, nanos: 999_999_999 });
    assert_eq!(Timestamp::from_nanos(-1_000_000_000), Timestamp { seconds: -1, nanos: 0 });
    assert_eq!(Timestamp::from_nanos(-1_000_000_001), Timestamp { seconds: -2, nanos: 999_999_999 });
    assert_eq!(Timestamp::from_nanos(-1_500_000_000), Timestamp { seconds: -2, nanos: 500_000_000 });
}

#[test]
fn from_nanos_at_the_ends_of_the_range() {
    assert_eq!(
        Timestamp::from_nanos(i64::MAX),
        Timestamp { seconds: 9_223_372_036, nanos: 854_775_807 }
    );
    assert_eq!(
        Timestamp::from_nanos(i64::MIN),
        Timestamp { seconds: -9_223_372_037, nanos: 145_224_192 }
    );
}

#[test]
fn from_nanos_adds_up_to_the_total() {
    for total in [-3_000_000_007i64, -7, 0, 7, 3_000_000_007, i64::MIN, i64::MAX] {
        let t = Timestamp::from_nanos(total);
        assert!(t.nanos < 1_000_000_000);
        assert_eq!(t.seconds as i128 * 1_000_000_000 + t.nanos as i128, total as i128);
    }
}

#[test]
fn stamp_keeps_a_reading_within_one_second_as_it_is() {
    assert_eq!(stamp(0, 0), Timestamp { seconds: 0, nanos: 0 });
    assert_eq!(stamp(2, 1), Timestamp { seconds: 2, nanos: 1 });
    assert_eq!(stamp(-1, 999_999_999), Timestamp { seconds: -1, nanos: 999_999_999 });
    assert_eq!(stamp(i64::MIN, 0), Timestamp { seconds: i64::MIN, nanos: 0 });
    assert_eq!(stamp(i64::MAX, 999_999_999), Timestamp { seconds: i64::MAX, nanos: 999_999_999 });
    assert_eq!(
        stamp(10_000_000_000, 5),
        Timestamp { seconds: 10_000_000_000, nanos: 5 }
    );
    assert_eq!(
        stamp(-10_000_000_000, 5),
        Timestamp { seconds: -10_000_000_000, nanos: 5 }
    );
}

#[test]
fn stamp_carries_nanoseconds_of_a_second_or_more() {
    assert_eq!(stamp(5, 1_000_000_000), Timestamp { seconds: 6, nanos: 0 });
    assert_eq!(stamp(5, 1_999_999_999), Timestamp { seconds: 6, nanos: 999_999_999 });
    assert_eq!(stamp(-1, 1_500_000_000), Timestamp { seconds: 0, nanos: 500_000_000 });
    assert_eq!(stamp(0, u32::MAX), Timestamp { seconds: 4, nanos: 294_967_295 });
    assert_eq!(stamp(i64::MAX - 4, u32::MAX), Timestamp { seconds: i64::MAX, nanos: 294_967_295 });
    assert_eq!(stamp(i64::MIN, 1_000_000_001), Timestamp { seconds: i64::MIN + 1, nanos: 1 });
}

#[test]
fn stamp_stops_at_the_last_timestamp() {
    let last = Timestamp { seconds: i64::MAX, nanos: 999_999_999 };
    assert_eq!(stamp(i64::MAX, 1_000_000_000), last);
    assert_eq!(stamp(i64::MAX, u32::MAX), last);
    assert_eq!(stamp(i64::MAX - 3, u32::MAX), last);
}

#[test]
fn now_is_a_valid_recent_time() {
    let first = now();
    let second = now();
    assert!(first.nanos < 1_000_000_000);
    assert!(second.nanos < 1_000_000_000);
    assert!(first.seconds > 1_600_000_000);
    assert!(second.seconds > 1_600_000_000);
}
