use chrono::{DateTime, Datelike, TimeDelta};
use schizoid::calendar::{
    is_known_zone, utc_year, utc_zone_name, zoned_date, Timestamp, MAX_TIMESTAMP_SECS,
    MIN_TIMESTAMP_SECS,
};
use schizoid::database::MAX_INTERVAL_SECS;

#[test]
fn timestamp_range_matches_chrono() {
    assert!(DateTime::from_timestamp(MAX_TIMESTAMP_SECS, 999_999_999).is_some());
    assert!(DateTime::from_timestamp(MAX_TIMESTAMP_SECS + 1, 0).is_none());
    assert!(DateTime::from_timestamp(MIN_TIMESTAMP_SECS, 0).is_some());
    assert!(DateTime::from_timestamp(MIN_TIMESTAMP_SECS - 1, 999_999_999).is_none());
    assert_eq!(DateTime::<chrono::Utc>::MAX_UTC.timestamp(), MAX_TIMESTAMP_SECS);
    assert_eq!(DateTime::<chrono::Utc>::MIN_UTC.timestamp(), MIN_TIMESTAMP_SECS);
}

#[test]
fn interval_limit_matches_chrono() {
    assert!(TimeDelta::try_seconds(MAX_INTERVAL_SECS).is_some());
    assert!(TimeDelta::try_seconds(MAX_INTERVAL_SECS + 1).is_none());
    assert!(TimeDelta::try_seconds(-MAX_INTERVAL_SECS).is_some());
    assert!(TimeDelta::try_seconds(-MAX_INTERVAL_SECS - 1).is_none());
}

#[test]
fn calendar_questions() {
    // 2024-12-31T23:30:00Z
    let t = Timestamp { secs: 1_735_687_800, nanos: 0 };
    assert_eq!(utc_year(t), 2024);
    assert_eq!(zoned_date(t, "UTC"), (2024, 12, 31));
    assert_eq!(zoned_date(t, "Europe/Berlin"), (2025, 1, 1));
    assert_eq!(zoned_date(t, "America/New_York"), (2024, 12, 31));
    let epoch = Timestamp { secs: 0, nanos: 0 };
    assert_eq!(utc_year(epoch), 1970);
    assert_eq!(DateTime::from_timestamp(0, 0).unwrap().year(), 1970);
}

#[test]
fn zone_names() {
    assert!(is_known_zone("Europe/Berlin"));
    assert!(is_known_zone("UTC"));
    assert!(!is_known_zone("europe/berlin"));
    assert!(!is_known_zone(""));
    assert_eq!(utc_zone_name(), "UTC");
    for tz in chrono_tz::TZ_VARIANTS.iter() {
        assert_eq!(tz.name().parse::<chrono_tz::Tz>(), Ok(*tz));
        assert_eq!(tz.to_string(), tz.name());
        assert!(is_known_zone(tz.name()));
    }
}

#[test]
fn utc_year_at_year_boundaries() {
    let year = |secs: i64| utc_year(Timestamp { secs, nanos: 0 });
    assert_eq!(year(-1), 1969);
    assert_eq!(year(978_307_199), 2000);
    assert_eq!(year(978_307_200), 2001);
    assert_eq!(year(951_782_400), 2000); // 29 February 2000
    assert_eq!(year(MIN_TIMESTAMP_SECS), -262_143);
    assert_eq!(year(MAX_TIMESTAMP_SECS), 262_142);
    let mut secs = MIN_TIMESTAMP_SECS;
    while secs < MAX_TIMESTAMP_SECS - 7_777_777_777 {
        let expected = DateTime::from_timestamp(secs, 0).unwrap().year();
        assert_eq!(year(secs), expected);
        secs += 7_777_777_777;
    }
}
