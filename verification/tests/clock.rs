//! Moments, as text.

use opus_api::clock::{ago, minute_ago, now, seconds_between, stamp, SECOND};

#[test]
fn a_moment_is_written_in_rfc_3339() {
    assert_eq!(stamp(0), "1970-01-01T00:00:00Z");
    assert_eq!(stamp(1_789_000_000 * SECOND), "2026-09-10T00:26:40Z");
    assert_eq!(stamp(1_500_000_000), "1970-01-01T00:00:01.5Z");
    // What has no such text reads as the beginning.
    assert_eq!(stamp(i128::MAX), "1970-01-01T00:00:00Z");
    assert!(now() > "2020".to_owned());
}

#[test]
fn time_since_is_in_whole_seconds() {
    let t = 1_789_000_000 * SECOND;
    assert_eq!(ago("2026-09-10T00:26:40Z", t + 90 * SECOND + 1), Some(90));
    assert_eq!(ago("2026-09-10T02:26:40+02:00", t + SECOND), Some(1));
    assert_eq!(ago("2026-09-10T00:26:40Z", t - 5 * SECOND), Some(0), "never negative");
    assert_eq!(ago("yesterday", t), None);
    assert_eq!(seconds_between(0, 1_999_999_999), 1);
    assert_eq!(seconds_between(5, 0), 0);
    assert_eq!(minute_ago(t), t - 60 * SECOND);
}
