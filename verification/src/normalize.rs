//! Normalization of raw calendar date-time representations to instants.
//!
//! A raw value is stripped of separator punctuation and then read, in order,
//! as a zoned local time (when a zone id accompanies it), a UTC-suffixed
//! time, or a bare date. Unreadable values and unknown zone ids yield no
//! instant.

use vstd::prelude::*;
use crate::datetime::{civil_epoch, civil_to_epoch, check_date, check_time, valid_date, valid_time};
use crate::tz::{zoned_epoch, zoned_to_epoch};

verus! {

pub open spec fn spec_is_digit(c: char) -> bool {
    '0' as u32 <= c as u32 && c as u32 <= '9' as u32
}

pub open spec fn digit_val(c: char) -> int {
    c as u32 - '0' as u32
}

pub open spec fn all_digits(s: Seq<char>, i: int, n: int) -> bool {
    forall|k: int| i <= k < i + n ==> spec_is_digit(#[trigger] s[k])
}

/// Value of the `n` digits of `s` starting at `i`, most significant first.
pub open spec fn num_at(s: Seq<char>, i: int, n: int) -> int
    decreases n,
{
    if n <= 0 {
        0
    } else {
        num_at(s, i, n - 1) * 10 + digit_val(s[i + n - 1])
    }
}

/// The raw value with the separator punctuation of dates and times removed.
pub open spec fn spec_strip(s: Seq<char>) -> Seq<char>
    decreases s.len(),
{
    if s.len() == 0 {
        Seq::empty()
    } else {
        let rest = spec_strip(s.drop_last());
        if s.last() == '-' || s.last() == ':' {
            rest
        } else {
            rest.push(s.last())
        }
    }
}

/// A date-time in the fixed-width digits-and-`T` layout.
pub open spec fn dt_form(cs: Seq<char>) -> bool {
    cs.len() >= 15 && cs[8] == 'T' && all_digits(cs, 0, 8) && all_digits(cs, 9, 6)
}

pub open spec fn dt_year(cs: Seq<char>) -> int {
    num_at(cs, 0, 4)
}

pub open spec fn dt_month(cs: Seq<char>) -> int {
    num_at(cs, 4, 2)
}

pub open spec fn dt_day(cs: Seq<char>) -> int {
    num_at(cs, 6, 2)
}

pub open spec fn dt_hour(cs: Seq<char>) -> int {
    num_at(cs, 9, 2)
}

pub open spec fn dt_minute(cs: Seq<char>) -> int {
    num_at(cs, 11, 2)
}

pub open spec fn dt_second(cs: Seq<char>) -> int {
    num_at(cs, 13, 2)
}

pub open spec fn dt_fields_valid(cs: Seq<char>) -> bool {
    valid_date(dt_year(cs), dt_month(cs), dt_day(cs)) && valid_time(
        dt_hour(cs),
        dt_minute(cs),
        dt_second(cs),
    )
}

/// Number of trailing `Z` characters.
pub open spec fn trailing_z(cs: Seq<char>) -> int
    decreases cs.len(),
{
    if cs.len() == 0 {
        0
    } else if cs.last() == 'Z' {
        1 + trailing_z(cs.drop_last())
    } else {
        0
    }
}

/// A UTC-suffixed date-time: exactly the fixed-width layout followed by one
/// or more `Z` suffixes.
pub open spec fn utc_form(cs: Seq<char>) -> bool {
    trailing_z(cs) >= 1 && cs.len() - trailing_z(cs) == 15 && dt_form(cs)
}

/// A bare date: exactly eight digits.
pub open spec fn date_form(cs: Seq<char>) -> bool {
    cs.len() == 8 && all_digits(cs, 0, 8)
}

/// The instant a raw date-time value denotes, per the ordered reading:
/// zoned local time when a zone id is present (and nothing else), else
/// UTC-suffixed, else bare date at midnight UTC.
pub open spec fn spec_normalize(value: Seq<char>, tzid: Option<Seq<char>>) -> Option<int> {
    let cs = spec_strip(value);
    match tzid {
        Some(tz) => {
            if dt_form(cs) && dt_fields_valid(cs) {
                match zoned_epoch(
                    tz,
                    dt_year(cs),
                    dt_month(cs),
                    dt_day(cs),
                    dt_hour(cs),
                    dt_minute(cs),
                    dt_second(cs),
                ) {
                    Some(e) => Some(e as int),
                    None => None,
                }
            } else {
                None
            }
        },
        None => {
            if utc_form(cs) && dt_fields_valid(cs) {
                Some(
                    civil_epoch(
                        dt_year(cs),
                        dt_month(cs),
                        dt_day(cs),
                        dt_hour(cs),
                        dt_minute(cs),
                        dt_second(cs),
                    ),
                )
            } else if date_form(cs) && valid_date(dt_year(cs), dt_month(cs), dt_day(cs)) {
                Some(civil_epoch(dt_year(cs), dt_month(cs), dt_day(cs), 0, 0, 0))
            } else {
                None
            }
        },
    }
}

/// For every raw value whose stripped form has the fixed-width digit shape
/// and whose six fields form a real date-time, normalization with a zone id
/// yields exactly the zone resolver's UTC conversion of that wall-clock in
/// that zone — the earliest matching instant when the local time is
/// ambiguous, and no instant when the zone id does not resolve or the local
/// time does not exist. Field combinations that no calendar accepts are
/// left out: no conversion exists for them, and normalization yields no
/// instant on them.
pub proof fn lemma_zoned_normalization(value: Seq<char>, tz: Seq<char>)
    requires
        dt_form(spec_strip(value)),
        dt_fields_valid(spec_strip(value)),
    ensures
        ({
            let cs = spec_strip(value);
            spec_normalize(value, Some(tz)) == (match zoned_epoch(
                tz,
                dt_year(cs),
                dt_month(cs),
                dt_day(cs),
                dt_hour(cs),
                dt_minute(cs),
                dt_second(cs),
            ) {
                Some(e) => Some(e as int),
                None => None,
            })
        }),
{
}

pub open spec fn opt_i64_matches(r: Option<i64>, m: Option<int>) -> bool {
    match r {
        Some(a) => m == Some(a as int),
        None => m is None,
    }
}

fn digit_of(c: char) -> (r: Option<u32>)
    ensures
        match r {
            Some(v) => spec_is_digit(c) && v == digit_val(c) && v <= 9,
            None => !spec_is_digit(c),
        },
{
    let u = c as u32;
    if '0' as u32 <= u && u <= '9' as u32 {
        Some(u - '0' as u32)
    } else {
        None
    }
}

fn parse_num2(cs: &Vec<char>, i: usize) -> (r: Option<u32>)
    requires
        i + 2 <= cs@.len(),
    ensures
        match r {
            Some(v) => all_digits(cs@, i as int, 2) && v == num_at(cs@, i as int, 2) && v <= 99,
            None => !all_digits(cs@, i as int, 2),
        },
{
    proof {
        reveal_with_fuel(num_at, 3);
    }
    // binding the length bounds the index arithmetic within usize
    let _len = cs.len();
    let d0 = match digit_of(cs[i]) {
        Some(v) => v,
        None => return None,
    };
    let d1 = match digit_of(cs[i + 1]) {
        Some(v) => v,
        None => return None,
    };
    Some(d0 * 10 + d1)
}

fn parse_num4(cs: &Vec<char>, i: usize) -> (r: Option<u32>)
    requires
        i + 4 <= cs@.len(),
    ensures
        match r {
            Some(v) => all_digits(cs@, i as int, 4) && v == num_at(cs@, i as int, 4) && v <= 9999,
            None => !all_digits(cs@, i as int, 4),
        },
{
    proof {
        reveal_with_fuel(num_at, 5);
    }
    // binding the length bounds the index arithmetic within usize
    let _len = cs.len();
    let d0 = match digit_of(cs[i]) {
        Some(v) => v,
        None => return None,
    };
    let d1 = match digit_of(cs[i + 1]) {
        Some(v) => v,
        None => return None,
    };
    let d2 = match digit_of(cs[i + 2]) {
        Some(v) => v,
        None => return None,
    };
    let d3 = match digit_of(cs[i + 3]) {
        Some(v) => v,
        None => return None,
    };
    Some(((d0 * 10 + d1) * 10 + d2) * 10 + d3)
}

pub fn strip_separators(s: &str) -> (r: Vec<char>)
    ensures
        r@ == spec_strip(s@),
{
    let n = s.unicode_len();
    let mut r: Vec<char> = Vec::new();
    let mut i: usize = 0;
    while i < n
        invariant
            i <= n,
            n == s@.len(),
            r@ == spec_strip(s@.subrange(0, i as int)),
        decreases n - i,
    {
        let c = s.get_char(i);
        proof {
            assert(s@.subrange(0, i + 1).drop_last() =~= s@.subrange(0, i as int));
            assert(s@.subrange(0, i + 1).last() == s@[i as int]);
        }
        if c != '-' && c != ':' {
            r.push(c);
        }
        i += 1;
    }
    proof {
        assert(s@.subrange(0, n as int) =~= s@);
    }
    r
}

fn count_trailing_z_upto(cs: &Vec<char>, n: usize) -> (r: usize)
    requires
        n <= cs@.len(),
    ensures
        r == trailing_z(cs@.subrange(0, n as int)),
        r <= n,
    decreases n,
{
    if n == 0 {
        0
    } else if cs[n - 1] == 'Z' {
        proof {
            assert(cs@.subrange(0, n as int).drop_last() =~= cs@.subrange(0, n as int - 1));
        }
        1 + count_trailing_z_upto(cs, n - 1)
    } else {
        0
    }
}

/// Reads the six date-time fields of the fixed-width layout starting at the
/// front of `cs`, when they are digits in their places.
fn parse_dt_fields(cs: &Vec<char>) -> (r: Option<(u32, u32, u32, u32, u32, u32)>)
    requires
        cs@.len() >= 15,
    ensures
        match r {
            Some(f) => dt_form(cs@) && f.0 == dt_year(cs@) && f.1 == dt_month(cs@) && f.2 == dt_day(
                cs@,
            ) && f.3 == dt_hour(cs@) && f.4 == dt_minute(cs@) && f.5 == dt_second(cs@) && f.0
                <= 9999 && f.1 <= 99 && f.2 <= 99 && f.3 <= 99 && f.4 <= 99 && f.5 <= 99,
            None => !dt_form(cs@),
        },
{
    if cs[8] != 'T' {
        return None;
    }
    let y = match parse_num4(cs, 0) {
        Some(v) => v,
        None => return None,
    };
    let mo = match parse_num2(cs, 4) {
        Some(v) => v,
        None => return None,
    };
    let d = match parse_num2(cs, 6) {
        Some(v) => v,
        None => return None,
    };
    let h = match parse_num2(cs, 9) {
        Some(v) => v,
        None => return None,
    };
    let mi = match parse_num2(cs, 11) {
        Some(v) => v,
        None => return None,
    };
    let s = match parse_num2(cs, 13) {
        Some(v) => v,
        None => return None,
    };
    proof {
        assert forall|k: int| 0 <= k < 8 implies spec_is_digit(#[trigger] cs@[k]) by {
            if k < 4 {
                assert(spec_is_digit(cs@[k]));
            }
        }
        assert forall|k: int| 9 <= k < 15 implies spec_is_digit(#[trigger] cs@[k]) by {}
    }
    Some((y, mo, d, h, mi, s))
}

/// Normalizes a raw date-time value, with its optional zone id, to an
/// absolute instant. Returns nothing when the value is unreadable or the
/// zone id is unknown.
pub fn normalize_datetime(value: &str, tzid: Option<&str>) -> (r: Option<i64>)
    ensures
        opt_i64_matches(
            r,
            spec_normalize(
                value@,
                match tzid {
                    Some(t) => Some(t@),
                    None => None,
                },
            ),
        ),
{
    let cs = strip_separators(value);
    match tzid {
        Some(tz) => {
            if cs.len() < 15 {
                return None;
            }
            let f = match parse_dt_fields(&cs) {
                Some(f) => f,
                None => return None,
            };
            if !check_date(f.0, f.1, f.2) || !check_time(f.3, f.4, f.5) {
                return None;
            }
            zoned_to_epoch(tz, f.0 as i32, f.1, f.2, f.3, f.4, f.5)
        },
        None => {
            let n = cs.len();
            let zc = count_trailing_z_upto(&cs, n);
            proof {
                assert(cs@.subrange(0, n as int) =~= cs@);
            }
            if zc >= 1 && n - zc == 15 {
                let f = match parse_dt_fields(&cs) {
                    Some(f) => f,
                    None => return None,
                };
                if !check_date(f.0, f.1, f.2) || !check_time(f.3, f.4, f.5) {
                    return None;
                }
                Some(civil_to_epoch(f.0, f.1, f.2, f.3, f.4, f.5))
            } else if n == 8 {
                let y = match parse_num4(&cs, 0) {
                    Some(v) => v,
                    None => return None,
                };
                let mo = match parse_num2(&cs, 4) {
                    Some(v) => v,
                    None => return None,
                };
                let d = match parse_num2(&cs, 6) {
                    Some(v) => v,
                    None => return None,
                };
                proof {
                    assert forall|k: int| 0 <= k < 8 implies spec_is_digit(#[trigger] cs@[k]) by {
                        if k < 4 {
                            assert(spec_is_digit(cs@[k]));
                        }
                    }
                }
                if !check_date(y, mo, d) {
                    return None;
                }
                Some(civil_to_epoch(y, mo, d, 0, 0, 0))
            } else {
                None
            }
        },
    }
}

} // verus!
