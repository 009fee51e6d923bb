//! Selection of the next relevant call from parsed entries.
//!
//! An entry qualifies when its start time normalizes to a schedulable
//! instant, that start is no earlier than the late-join window before now,
//! and a joinable link resolves. The earliest qualifying entry wins; ties
//! keep feed order.

use vstd::prelude::*;
use crate::ical::{
    CalendarEntry, CalendarError, EntryView, NextEvent, extract_datetime, get_event_summary,
    get_video_link, spec_extract_datetime, spec_get_property, spec_video_link,
};
use crate::datetime::{check_epoch_range, epoch_in_range};
use crate::ics::{parse_feed, spec_parse_feed};
use crate::strutil::str_to_string;

verus! {

/// How long after its start an entry still counts as upcoming.
pub const LATE_JOIN_WINDOW_SECS: i64 = 600;

/// An entry qualifies when its start normalizes to a schedulable instant no
/// earlier than the late-join window before now and a joinable link
/// resolves. An instant outside the schedulable range is dropped like an
/// unparseable one, one entry at a time.
pub open spec fn qualifies(e: EntryView, now: int) -> bool {
    match spec_extract_datetime(e.properties) {
        Some(t) => t >= now - LATE_JOIN_WINDOW_SECS && epoch_in_range(t) && spec_video_link(
            e.properties,
        ) is Some,
        None => false,
    }
}

/// The start instant of an entry whose start time normalizes.
pub open spec fn start_of(e: EntryView) -> int {
    match spec_extract_datetime(e.properties) {
        Some(t) => t,
        None => 0,
    }
}

/// Index of the earliest qualifying entry; ties keep the earliest index.
pub open spec fn spec_select(entries: Seq<EntryView>, now: int) -> Option<int>
    decreases entries.len(),
{
    if entries.len() == 0 {
        None
    } else {
        let rest = spec_select(entries.drop_last(), now);
        let li = entries.len() - 1;
        if !qualifies(entries.last(), now) {
            rest
        } else {
            match rest {
                Some(j) => {
                    if 0 <= j < li && start_of(entries[j]) <= start_of(entries.last()) {
                        Some(j)
                    } else {
                        Some(li as int)
                    }
                },
                None => Some(li as int),
            }
        }
    }
}

/// The selection always returns a qualifying entry with the least start
/// instant, and among equal starts the one earliest in the feed; it returns
/// nothing exactly when no entry qualifies.
pub proof fn lemma_select_earliest(entries: Seq<EntryView>, now: int)
    ensures
        match spec_select(entries, now) {
            Some(i) => 0 <= i < entries.len() && qualifies(entries[i], now) && (forall|j: int|
                0 <= j < entries.len() && qualifies(#[trigger] entries[j], now) ==> start_of(
                    entries[i],
                ) <= start_of(entries[j])) && (forall|j: int|
                0 <= j < i && qualifies(#[trigger] entries[j], now) ==> start_of(entries[i])
                    < start_of(entries[j])),
            None => forall|j: int|
                0 <= j < entries.len() ==> !qualifies(#[trigger] entries[j], now),
        },
    decreases entries.len(),
{
    if entries.len() > 0 {
        lemma_select_earliest(entries.drop_last(), now);
        assert(forall|j: int|
            0 <= j < entries.len() - 1 ==> entries.drop_last()[j] == entries[j]);
    }
}

pub open spec fn event_from_entry(ev: NextEvent, e: EntryView) -> bool {
    &&& spec_extract_datetime(e.properties) == Some(ev.start_time as int)
    &&& spec_video_link(e.properties) == Some(ev.video_link@)
    &&& (match spec_get_property(e.properties, "SUMMARY"@) {
        Some(s) => ev.summary@ == s,
        None => ev.summary@ == "Unknown"@,
    })
}

/// Picks the next relevant call among the entries: the earliest entry with a
/// joinable link starting no earlier than the late-join window before `now`.
pub fn next_event_from_entries(entries: &Vec<CalendarEntry>, now: i64) -> (r: Result<
    NextEvent,
    CalendarError,
>)
    requires
        now > i64::MIN + LATE_JOIN_WINDOW_SECS,
    ensures
        (match spec_select(entries@.map_values(|e: CalendarEntry| e@), now as int) {
            Some(i) => (match r {
                Ok(ev) => event_from_entry(ev, entries@.map_values(|e: CalendarEntry| e@)[i]),
                Err(_) => false,
            }),
            None => (r matches Err(CalendarError::NoUpcomingEvents)),
        }),
        (r matches Ok(ev) ==> epoch_in_range(ev.start_time as int)),
{
    let ghost evs = entries@.map_values(|e: CalendarEntry| e@);
    let n = entries.len();
    let mut best_idx: usize = 0;
    let mut best_start: i64 = 0;
    let mut found = false;
    let mut i: usize = 0;
    proof {
        assert(evs.take(0) =~= Seq::<EntryView>::empty());
    }
    while i < n
        invariant
            evs == entries@.map_values(|e: CalendarEntry| e@),
            n == entries@.len(),
            i <= n,
            now > i64::MIN + LATE_JOIN_WINDOW_SECS,
            (if found {
                spec_select(evs.take(i as int), now as int) == Some(best_idx as int) && best_idx
                    < i && spec_extract_datetime(evs[best_idx as int].properties) == Some(
                    best_start as int,
                ) && epoch_in_range(best_start as int)
            } else {
                spec_select(evs.take(i as int), now as int) is None
            }),
        decreases n - i,
    {
        proof {
            assert(evs.take(i as int + 1).drop_last() =~= evs.take(i as int));
            assert(evs.take(i as int + 1).last() == evs[i as int]);
        }
        let start = extract_datetime(&entries[i]);
        let mut qual = false;
        let mut t: i64 = 0;
        match start {
            Some(v) => {
                if v >= now - LATE_JOIN_WINDOW_SECS && check_epoch_range(v) {
                    if get_video_link(&entries[i]).is_some() {
                        qual = true;
                        t = v;
                    }
                }
            },
            None => {},
        }
        proof {
            assert(qual == qualifies(evs[i as int], now as int));
        }
        if qual {
            if !found || t < best_start {
                best_idx = i;
                best_start = t;
                found = true;
            } else {
                proof {
                    assert(start_of(evs[best_idx as int]) <= start_of(evs[i as int]));
                }
            }
        }
        i += 1;
    }
    proof {
        assert(evs.take(n as int) =~= evs);
    }
    if found {
        let entry = &entries[best_idx];
        let summary = match get_event_summary(entry) {
            Some(s) => s,
            None => str_to_string("Unknown"),
        };
        match get_video_link(entry) {
            Some(link) => Ok(
                NextEvent { start_time: best_start, summary, video_link: link },
            ),
            None => {
                proof {
                    lemma_select_earliest(evs, now as int);
                }
                Err(CalendarError::NoUpcomingEvents)
            },
        }
    } else {
        Err(CalendarError::NoUpcomingEvents)
    }
}

/// The outcome a well-formed feed text owes: the next relevant call, or the
/// reason there is none.
pub open spec fn spec_feed_outcome(
    text: Seq<char>,
    now: int,
    r: Result<NextEvent, CalendarError>,
) -> bool {
    match spec_parse_feed(text) {
        None => (r matches Err(CalendarError::InvalidFormat(_))),
        Some(es) => (match spec_select(es, now) {
            Some(i) => (match r {
                Ok(ev) => event_from_entry(ev, es[i]),
                Err(_) => false,
            }),
            None => (r matches Err(CalendarError::NoUpcomingEvents)),
        }),
    }
}

/// Parses a feed text and picks the next relevant call from it.
pub fn next_event_from_feed(text: &str, now: i64) -> (r: Result<NextEvent, CalendarError>)
    requires
        now > i64::MIN + LATE_JOIN_WINDOW_SECS,
    ensures
        spec_feed_outcome(text@, now as int, r),
        (r matches Ok(ev) ==> epoch_in_range(ev.start_time as int)),
{
    let entries = match parse_feed(text) {
        Ok(es) => es,
        Err(e) => return Err(e),
    };
    next_event_from_entries(&entries, now)
}

/// Reads a fetched HTTP response: a non-success status is surfaced with its
/// raw status and body; a success body is read as a feed.
pub fn feed_response_outcome(status: u16, body: &str, now: i64) -> (r: Result<
    NextEvent,
    CalendarError,
>)
    requires
        now > i64::MIN + LATE_JOIN_WINDOW_SECS,
    ensures
        (if 200 <= status < 300 {
            spec_feed_outcome(body@, now as int, r)
        } else {
            (r matches Err(CalendarError::HttpStatus(s, b)) && s == status && b@ == body@)
        }),
        (r matches Ok(ev) ==> epoch_in_range(ev.start_time as int)),
{
    if 200 <= status && status < 300 {
        next_event_from_feed(body, now)
    } else {
        Err(CalendarError::HttpStatus(status, str_to_string(body)))
    }
}

} // verus!
