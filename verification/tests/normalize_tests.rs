use chrono::TimeZone;
use nextcall::normalize::normalize_datetime;

// 2024-03-15T09:00:00 in New York (daylight saving in effect) is
// 2024-03-15T13:00:00Z. Checked against an independent conversion below.
#[test]
fn zoned_datetime_matches_independent_conversion() {
    let got = normalize_datetime("20240315T090000", Some("America/New_York"));
    assert_eq!(got, Some(1710507600));

    // independent conversion through the timezone library itself
    let tz: chrono_tz::Tz = "America/New_York".parse().unwrap();
    let expected = tz
        .with_ymd_and_hms(2024, 3, 15, 9, 0, 0)
        .single()
        .unwrap()
        .timestamp();
    assert_eq!(got, Some(expected));
}

#[test]
fn zoned_datetime_winter_offset() {
    // standard time: 2024-01-15T09:00:00 New York = 14:00Z
    let got = normalize_datetime("20240115T090000", Some("America/New_York"));
    let tz: chrono_tz::Tz = "America/New_York".parse().unwrap();
    let expected = tz
        .with_ymd_and_hms(2024, 1, 15, 9, 0, 0)
        .single()
        .unwrap()
        .timestamp();
    assert_eq!(got, Some(expected));
    assert_eq!(got, Some(1705327200));
}

#[test]
fn zoned_differs_from_utc_reading() {
    // the zone resolution must actually shift the wall clock
    let zoned = normalize_datetime("20240315T090000", Some("America/New_York")).unwrap();
    let utc = normalize_datetime("20240315T090000Z", None).unwrap();
    assert_eq!(zoned - utc, 4 * 3600);
}

#[test]
fn separators_are_stripped() {
    let a = normalize_datetime("2024-03-15T09:00:00", Some("America/New_York"));
    let b = normalize_datetime("20240315T090000", Some("America/New_York"));
    assert_eq!(a, b);
    assert!(a.is_some());
}

#[test]
fn utc_suffixed_datetime() {
    let expected = chrono::Utc
        .with_ymd_and_hms(2023, 12, 25, 12, 0, 0)
        .single()
        .unwrap()
        .timestamp();
    assert_eq!(normalize_datetime("20231225T120000Z", None), Some(expected));
}

#[test]
fn date_only_is_midnight_utc() {
    let expected = chrono::Utc
        .with_ymd_and_hms(2023, 12, 25, 0, 0, 0)
        .single()
        .unwrap()
        .timestamp();
    assert_eq!(normalize_datetime("20231225", None), Some(expected));
}

#[test]
fn unknown_timezone_yields_nothing() {
    assert_eq!(normalize_datetime("20240315T090000", Some("Mars/Olympus")), None);
}

#[test]
fn unparseable_values_yield_nothing() {
    assert_eq!(normalize_datetime("garbage", None), None);
    assert_eq!(normalize_datetime("20241315T090000", None), None); // month 13
    assert_eq!(normalize_datetime("20240230T090000Z", None), None); // Feb 30
    assert_eq!(normalize_datetime("20240315", Some("America/New_York")), None); // date only with zone id
    assert_eq!(normalize_datetime("20240315T090000", None), None); // no zone id, no suffix
    assert_eq!(normalize_datetime("", None), None);
}

#[test]
fn leap_day_is_accepted() {
    let expected = chrono::Utc
        .with_ymd_and_hms(2024, 2, 29, 6, 30, 0)
        .single()
        .unwrap()
        .timestamp();
    assert_eq!(normalize_datetime("20240229T063000Z", None), Some(expected));
}
