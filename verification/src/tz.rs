//! Resolution of zoned wall-clock times through the tz database.
//!
//! Only the zone lookup itself is delegated; everything around it is
//! verified. The result of the lookup is a function of the zone name and the
//! civil fields alone, since the tz database is compiled into the library.

use vstd::prelude::*;
use core::str::FromStr;
use chrono::TimeZone;

verus! {

/// The instant (seconds since the Unix epoch) denoted by the given civil
/// wall-clock time in the named zone: the earliest matching instant when the
/// local time is ambiguous, `None` when the zone name is unknown, the fields
/// do not form a real date-time, or the local time does not exist.
pub uninterp spec fn zoned_epoch(
    tz: Seq<char>,
    y: int,
    m: int,
    d: int,
    h: int,
    mi: int,
    s: int,
) -> Option<i64>;

/// Relies on chrono_tz::Tz::from_str (a lookup in the compiled-in tz
/// database), chrono's NaiveDate::from_ymd_opt / and_hms_opt, and
/// TimeZone::from_local_datetime with MappedLocalTime::earliest and
/// DateTime::timestamp: the result depends on the arguments alone.
#[verifier::external_body]
pub fn zoned_to_epoch(tz_name: &str, y: i32, m: u32, d: u32, h: u32, mi: u32, s: u32) -> (r: Option<
    i64,
>)
    ensures
        r == zoned_epoch(tz_name@, y as int, m as int, d as int, h as int, mi as int, s as int),
{
    let tz = match chrono_tz::Tz::from_str(tz_name) {
        Ok(t) => t,
        Err(_) => return None,
    };
    let date = match chrono::NaiveDate::from_ymd_opt(y, m, d) {
        Some(x) => x,
        None => return None,
    };
    let ndt = match date.and_hms_opt(h, mi, s) {
        Some(x) => x,
        None => return None,
    };
    tz.from_local_datetime(&ndt).earliest().map(|t| t.timestamp())
}

} // verus!
