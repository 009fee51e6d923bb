use chrono::TimeZone;
use nextcall::datetime::{check_date, check_time, civil_to_days, civil_to_epoch, month_days};

#[test]
fn epoch_reference_day() {
    assert_eq!(civil_to_days(1970, 1, 1), 0);
    assert_eq!(civil_to_epoch(1970, 1, 1, 0, 0, 0), 0);
}

#[test]
fn known_instants_match_independent_conversions() {
    let cases = [
        (2024u32, 3u32, 15u32, 13u32, 0u32, 0u32),
        (2000, 2, 29, 23, 59, 59),
        (1999, 12, 31, 0, 0, 1),
        (1969, 7, 20, 20, 17, 40),
        (2100, 1, 1, 12, 30, 45),
    ];
    for (y, m, d, h, mi, s) in cases {
        let expected = chrono::Utc
            .with_ymd_and_hms(y as i32, m, d, h, mi, s)
            .single()
            .unwrap()
            .timestamp();
        assert_eq!(civil_to_epoch(y, m, d, h, mi, s), expected, "{y}-{m}-{d}");
    }
}

#[test]
fn month_lengths_follow_leap_years() {
    assert_eq!(month_days(2024, 2), 29);
    assert_eq!(month_days(2023, 2), 28);
    assert_eq!(month_days(1900, 2), 28); // century, not divisible by 400
    assert_eq!(month_days(2000, 2), 29); // divisible by 400
    assert_eq!(month_days(2024, 4), 30);
    assert_eq!(month_days(2024, 12), 31);
}

#[test]
fn date_validity() {
    assert!(check_date(2024, 2, 29));
    assert!(!check_date(2023, 2, 29));
    assert!(!check_date(2024, 0, 1));
    assert!(!check_date(2024, 13, 1));
    assert!(!check_date(2024, 4, 31));
    assert!(!check_date(0, 1, 1));
    assert!(check_date(9999, 12, 31));
}

#[test]
fn time_validity() {
    assert!(check_time(0, 0, 0));
    assert!(check_time(23, 59, 59));
    assert!(!check_time(24, 0, 0));
    assert!(!check_time(0, 60, 0));
    assert!(!check_time(0, 0, 60));
}
