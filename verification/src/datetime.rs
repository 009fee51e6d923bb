//! Proleptic-Gregorian civil date arithmetic.
//!
//! Converts a civil date and wall-clock time to seconds since the Unix epoch,
//! entirely in integer arithmetic. The day count uses the standard
//! era-of-400-years decomposition of the Gregorian calendar.

use vstd::prelude::*;

verus! {

/// Years divisible by 4 are leap years, except century years not divisible by 400.
pub open spec fn is_leap_year(y: int) -> bool {
    (y % 4 == 0 && y % 100 != 0) || y % 400 == 0
}

pub open spec fn days_in_month(y: int, m: int) -> int {
    if m == 2 {
        if is_leap_year(y) {
            29
        } else {
            28
        }
    } else if m == 4 || m == 6 || m == 9 || m == 11 {
        30
    } else {
        31
    }
}

/// Civil dates accepted by the normalizer: four-digit years only.
pub open spec fn valid_date(y: int, m: int, d: int) -> bool {
    1 <= y <= 9999 && 1 <= m <= 12 && 1 <= d <= days_in_month(y, m)
}

pub open spec fn valid_time(h: int, mi: int, s: int) -> bool {
    0 <= h < 24 && 0 <= mi < 60 && 0 <= s < 60
}

/// Days from 1970-01-01 to the given civil date (negative for earlier dates).
///
/// The date is shifted to a March-first year so that the leap day is the last
/// day of the shifted year, then decomposed into 400-year eras.
pub open spec fn days_from_civil(y: int, m: int, d: int) -> int
    recommends
        valid_date(y, m, d),
{
    let yy = if m <= 2 {
        y - 1
    } else {
        y
    };
    let era = yy / 400;
    let yoe = yy % 400;
    let mp = (m + 9) % 12;
    let doy = (153 * mp + 2) / 5 + d - 1;
    let doe = yoe * 365 + yoe / 4 - yoe / 100 + doy;
    era * 146097 + doe - 719468
}

/// Seconds from the Unix epoch to the given civil date and time, taken as UTC.
pub open spec fn civil_epoch(y: int, m: int, d: int, h: int, mi: int, s: int) -> int {
    days_from_civil(y, m, d) * 86400 + h * 3600 + mi * 60 + s
}

/// The instants the library schedules around: a day beyond the earliest and
/// the latest civil date-times the normalizer accepts, so that any zone
/// offset is covered.
pub open spec fn epoch_in_range(t: int) -> bool {
    -62135683200 <= t <= 253402387199
}

pub fn check_epoch_range(t: i64) -> (r: bool)
    ensures
        r == epoch_in_range(t as int),
{
    -62135683200 <= t && t <= 253402387199
}

pub fn check_leap_year(y: u32) -> (r: bool)
    ensures
        r == is_leap_year(y as int),
{
    (y % 4 == 0 && y % 100 != 0) || y % 400 == 0
}

pub fn month_days(y: u32, m: u32) -> (r: u32)
    requires
        1 <= m <= 12,
    ensures
        r == days_in_month(y as int, m as int),
{
    if m == 2 {
        if check_leap_year(y) {
            29
        } else {
            28
        }
    } else if m == 4 || m == 6 || m == 9 || m == 11 {
        30
    } else {
        31
    }
}

pub fn check_date(y: u32, m: u32, d: u32) -> (r: bool)
    ensures
        r == valid_date(y as int, m as int, d as int),
{
    1 <= y && y <= 9999 && 1 <= m && m <= 12 && 1 <= d && d <= month_days(y, m)
}

pub fn check_time(h: u32, mi: u32, s: u32) -> (r: bool)
    ensures
        r == valid_time(h as int, mi as int, s as int),
{
    h < 24 && mi < 60 && s < 60
}

pub fn civil_to_days(y: u32, m: u32, d: u32) -> (r: i64)
    requires
        valid_date(y as int, m as int, d as int),
    ensures
        r == days_from_civil(y as int, m as int, d as int),
        -719468 <= r <= 2932896,
{
    let yy: i64 = if m <= 2 {
        y as i64 - 1
    } else {
        y as i64
    };
    let era: i64 = yy / 400;
    let yoe: i64 = yy - era * 400;
    let mp: i64 = (m as i64 + 9) % 12;
    let doy: i64 = (153 * mp + 2) / 5 + d as i64 - 1;
    let doe: i64 = yoe * 365 + yoe / 4 - yoe / 100 + doy;
    era * 146097 + doe - 719468
}

/// The instant of a civil date-time interpreted as UTC wall-clock.
pub fn civil_to_epoch(y: u32, m: u32, d: u32, h: u32, mi: u32, s: u32) -> (r: i64)
    requires
        valid_date(y as int, m as int, d as int),
        valid_time(h as int, mi as int, s as int),
    ensures
        r == civil_epoch(y as int, m as int, d as int, h as int, mi as int, s as int),
        -62135596800 <= r <= 253402300799,
{
    let days = civil_to_days(y, m, d);
    days * 86400 + h as i64 * 3600 + mi as i64 * 60 + s as i64
}

} // verus!
