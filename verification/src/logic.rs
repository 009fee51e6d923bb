//! The poll step: what the tray shows, how long to wait, and when a call
//! counts as started.
//!
//! Given the next call and the current instant, the step computes a display
//! label and an adaptive wait: near a call it wakes at the top of each
//! minute so the countdown is never stale by more than a minute; far from
//! one it wakes at the default interval, and exactly when the one-hour
//! countdown should begin.

use vstd::prelude::*;
use crate::datetime::epoch_in_range;
use crate::ical::{CalendarError, NextEvent};
use crate::strutil::{
    push_char, push_dec_u64, spec_dec, spec_trim_start, str_to_string, trim_start_chars,
    u64_to_string,
};

verus! {

/// Fallback poll wait in seconds, used absent a tighter deadline.
pub const DEFAULT_CHECK_INTERVAL_SECS: u64 = 180;

/// What the caller should do after a step.
#[derive(Debug)]
pub enum StepNext {
    /// Suspend for up to this many seconds, then poll again.
    Sleep(u64),
    /// The call has started: run the started sequence for this event.
    EventStarted(NextEvent),
}

/// One poll's outcome: the label to display and the next action.
#[derive(Debug)]
pub struct StepResult {
    pub icon_text: String,
    pub next: StepNext,
}

/// Minutes in `secs` seconds, rounded to the nearest minute, ties to the
/// even minute.
pub open spec fn round_minutes(secs: int) -> int
    recommends
        secs >= 0,
{
    let q = secs / 60;
    let r = secs % 60;
    if r > 30 {
        q + 1
    } else if r < 30 {
        q
    } else if q % 2 == 0 {
        q
    } else {
        q + 1
    }
}

pub fn round_minutes_exec(secs: i64) -> (r: i64)
    requires
        0 <= secs,
        secs < 0x4000_0000_0000_0000,
    ensures
        r == round_minutes(secs as int),
{
    let q = secs / 60;
    let r = secs % 60;
    if r > 30 {
        q + 1
    } else if r < 30 {
        q
    } else if q % 2 == 0 {
        q
    } else {
        q + 1
    }
}

/// The display label for a tracked call: a signed elapsed-minute count once
/// it started, the whole minutes until it within an hour, and the far-future
/// marker beyond that.
pub open spec fn spec_icon_event(start: int, now: int) -> Seq<char> {
    let delta = start - now;
    if delta < 0 {
        seq!['-'] + spec_dec(round_minutes(-delta))
    } else if delta / 60 <= 60 {
        spec_dec(delta / 60)
    } else {
        "..."@
    }
}

/// The display label when no call is tracked.
pub open spec fn spec_icon_idle() -> Seq<char> {
    "..."@
}

pub fn icon_for_event(start: i64, now: i64) -> (r: String)
    requires
        0 <= now,
        epoch_in_range(now as int),
        epoch_in_range(start as int),
    ensures
        r@ == spec_icon_event(start as int, now as int),
{
    let delta = start - now;
    if delta < 0 {
        let m = round_minutes_exec(-delta);
        let mut s = String::new();
        push_char(&mut s, '-');
        push_dec_u64(&mut s, m as u64);
        proof {
            assert(Seq::<char>::empty().push('-') + spec_dec(m as int) =~= seq!['-'] + spec_dec(
                round_minutes(-delta as int),
            ));
        }
        s
    } else if delta / 60 <= 60 {
        u64_to_string((delta / 60) as u64)
    } else {
        str_to_string("...")
    }
}

/// What a step owes for a tracked call: the label above; once started, the
/// started signal carrying the event; before that, a wait capped by the top
/// of the current minute within the countdown hour, and otherwise by the
/// default interval and the instant one hour before the start.
pub open spec fn sched_result(r: StepResult, e: NextEvent, now: int) -> bool {
    let delta = e.start_time - now;
    &&& r.icon_text@ == spec_icon_event(e.start_time as int, now)
    &&& (if delta < 0 {
        (r.next matches StepNext::EventStarted(ev) && ev.start_time == e.start_time && ev.summary@
            == e.summary@ && ev.video_link@ == e.video_link@)
    } else if delta / 60 <= 60 {
        (r.next matches StepNext::Sleep(d) && d == (if delta <= 60 - now % 60 {
            delta
        } else {
            60 - now % 60
        }))
    } else {
        (r.next matches StepNext::Sleep(d) && d == (if delta - 3600
            <= DEFAULT_CHECK_INTERVAL_SECS {
            delta - 3600
        } else {
            DEFAULT_CHECK_INTERVAL_SECS as int
        }))
    })
}

/// Computes the label and the adaptive wait for the next call.
pub fn calc_sleep(next_event: &NextEvent, now: i64) -> (r: StepResult)
    requires
        0 <= now,
        epoch_in_range(now as int),
        epoch_in_range(next_event.start_time as int),
    ensures
        sched_result(r, *next_event, now as int),
{
    let icon = icon_for_event(next_event.start_time, now);
    let delta = next_event.start_time - now;
    if delta < 0 {
        StepResult { icon_text: icon, next: StepNext::EventStarted(next_event.clone()) }
    } else if delta / 60 <= 60 {
        let top_of_minute = 60 - now % 60;
        let d = if delta <= top_of_minute {
            delta
        } else {
            top_of_minute
        };
        StepResult { icon_text: icon, next: StepNext::Sleep(d as u64) }
    } else {
        let until_hour_before = delta - 3600;
        let d = if until_hour_before <= 180 {
            until_hour_before
        } else {
            180
        };
        StepResult { icon_text: icon, next: StepNext::Sleep(d as u64) }
    }
}

/// Every wait the scheduler asks for is bounded by the default interval, so
/// the caller re-polls within a known ceiling.
pub proof fn lemma_sleep_bounded(r: StepResult, e: NextEvent, now: int)
    requires
        sched_result(r, e, now),
        0 <= now,
    ensures
        (r.next matches StepNext::Sleep(d) ==> d <= DEFAULT_CHECK_INTERVAL_SECS),
{
}

/// A notification handed to the host to deliver.
#[derive(Debug)]
pub struct Notice {
    pub title: String,
    pub subtitle: String,
    pub body: String,
    pub url: Option<String>,
}

/// The tracked state and surfaced notice after reading a fetch outcome.
pub struct FetchDecision {
    pub next_event: Option<NextEvent>,
    pub notice: Option<Notice>,
}

pub open spec fn error_notice(n: Notice, subtitle: Seq<char>, body: Seq<char>) -> bool {
    &&& n.title@ == "Next Call"@
    &&& n.subtitle@ == subtitle
    &&& n.body@ == body
    &&& n.url is None
}

/// What reading a fetch outcome owes: a fresh event replaces the state; a
/// clean "nothing upcoming" clears it; any error keeps the previous state
/// untouched and surfaces one notice naming the failure.
pub open spec fn fetch_decision_ok(
    request_result: Result<NextEvent, CalendarError>,
    previous: Option<NextEvent>,
    r: FetchDecision,
) -> bool {
    match request_result {
        Ok(e) => r.next_event == Some(e) && r.notice is None,
        Err(CalendarError::NoUpcomingEvents) => r.next_event is None && r.notice is None,
        Err(CalendarError::HttpStatus(st, body)) => r.next_event == previous && (
        r.notice matches Some(n) && error_notice(
            n,
            "HTTP error fetching calendar"@,
            spec_dec(st as int) + ": "@ + body@,
        )),
        Err(CalendarError::InvalidFormat(m)) => r.next_event == previous && (
        r.notice matches Some(n) && error_notice(n, "Invalid ical response"@, m@)),
        Err(CalendarError::NetworkError(m)) => r.next_event == previous && (
        r.notice matches Some(n) && error_notice(n, "Network error fetching calendar"@, m@)),
    }
}

/// Reads a fetch outcome into the tracked next event, keeping the previous
/// one across errors and surfacing each failure as a notice.
pub fn find_next_event(
    request_result: Result<NextEvent, CalendarError>,
    previous_next_event: Option<NextEvent>,
) -> (r: FetchDecision)
    ensures
        fetch_decision_ok(request_result, previous_next_event, r),
{
    match request_result {
        Ok(e) => FetchDecision { next_event: Some(e), notice: None },
        Err(CalendarError::NoUpcomingEvents) => FetchDecision { next_event: None, notice: None },
        Err(CalendarError::HttpStatus(st, body)) => {
            let mut msg = u64_to_string(st as u64);
            msg.append(": ");
            msg.append(body.as_str());
            let n = Notice {
                title: str_to_string("Next Call"),
                subtitle: str_to_string("HTTP error fetching calendar"),
                body: msg,
                url: None,
            };
            FetchDecision { next_event: previous_next_event, notice: Some(n) }
        },
        Err(CalendarError::InvalidFormat(m)) => {
            let n = Notice {
                title: str_to_string("Next Call"),
                subtitle: str_to_string("Invalid ical response"),
                body: m,
                url: None,
            };
            FetchDecision { next_event: previous_next_event, notice: Some(n) }
        },
        Err(CalendarError::NetworkError(m)) => {
            let n = Notice {
                title: str_to_string("Next Call"),
                subtitle: str_to_string("Network error fetching calendar"),
                body: m,
                url: None,
            };
            FetchDecision { next_event: previous_next_event, notice: Some(n) }
        },
    }
}

/// One whole poll: the state after the fetch outcome, the notice it
/// surfaces, and the step to take.
pub struct StepOutcome {
    pub next_event: Option<NextEvent>,
    pub notice: Option<Notice>,
    pub result: StepResult,
}

pub open spec fn fetch_errored(request_result: Result<NextEvent, CalendarError>) -> bool {
    match request_result {
        Ok(_) => false,
        Err(CalendarError::NoUpcomingEvents) => false,
        Err(_) => true,
    }
}

pub open spec fn event_in_range(e: NextEvent) -> bool {
    epoch_in_range(e.start_time as int)
}

/// One poll of the scheduler: reads the fetch outcome into the tracked
/// state, and computes the label and the next action. After a fetch error
/// the previous schedule is kept as it is and the next poll comes after the
/// default interval.
pub fn step(
    request_result: Result<NextEvent, CalendarError>,
    previous_next_event: Option<NextEvent>,
    now: i64,
) -> (r: StepOutcome)
    requires
        0 <= now,
        epoch_in_range(now as int),
        (request_result matches Ok(e) ==> event_in_range(e)),
        (previous_next_event matches Some(e) ==> event_in_range(e)),
    ensures
        fetch_decision_ok(
            request_result,
            previous_next_event,
            (FetchDecision { next_event: r.next_event, notice: r.notice }),
        ),
        (if fetch_errored(request_result) {
            (r.result.next matches StepNext::Sleep(d) && d == DEFAULT_CHECK_INTERVAL_SECS)
                && r.result.icon_text@ == (match r.next_event {
                Some(e) => spec_icon_event(e.start_time as int, now as int),
                None => spec_icon_idle(),
            })
        } else {
            match r.next_event {
                Some(e) => sched_result(r.result, e, now as int),
                None => (r.result.next matches StepNext::Sleep(d) && d
                    == DEFAULT_CHECK_INTERVAL_SECS) && r.result.icon_text@ == spec_icon_idle(),
            }
        }),
{
    let errored = match &request_result {
        Ok(_) => false,
        Err(CalendarError::NoUpcomingEvents) => false,
        Err(_) => true,
    };
    let decision = find_next_event(request_result, previous_next_event);
    let result = if errored {
        let icon = match &decision.next_event {
            Some(e) => icon_for_event(e.start_time, now),
            None => str_to_string("..."),
        };
        StepResult { icon_text: icon, next: StepNext::Sleep(DEFAULT_CHECK_INTERVAL_SECS) }
    } else {
        match &decision.next_event {
            Some(e) => calc_sleep(e, now),
            None => StepResult {
                icon_text: str_to_string("..."),
                next: StepNext::Sleep(DEFAULT_CHECK_INTERVAL_SECS),
            },
        }
    };
    StepOutcome { next_event: decision.next_event, notice: decision.notice, result }
}

/// Lower-cases an ASCII letter code point, leaving all else as it is.
pub open spec fn lower_code(c: char) -> int {
    if 'A' as u32 <= c as u32 && c as u32 <= 'Z' as u32 {
        c as u32 + 32
    } else {
        c as u32 as int
    }
}

/// Equality of character sequences up to ASCII case.
pub open spec fn ieq(a: Seq<char>, b: Seq<char>) -> bool {
    a.len() == b.len() && (forall|i: int| 0 <= i < a.len() ==> lower_code(a[i]) == lower_code(b[i]))
}

/// The string with the prefix removed when it carries it up to ASCII case.
pub open spec fn spec_istrip(s: Seq<char>, p: Seq<char>) -> Seq<char> {
    if s.len() >= p.len() && ieq(s.subrange(0, p.len() as int), p) {
        s.skip(p.len() as int)
    } else {
        s
    }
}

/// Strips a prefix, comparing ASCII letters without regard to case.
pub fn istrip<'a>(s: &'a str, prefix: &str) -> (r: &'a str)
    ensures
        r@ == spec_istrip(s@, prefix@),
{
    let n = s.unicode_len();
    let pn = prefix.unicode_len();
    if n < pn {
        return s;
    }
    let mut i: usize = 0;
    while i < pn
        invariant
            n == s@.len(),
            pn == prefix@.len(),
            pn <= n,
            i <= pn,
            forall|j: int| 0 <= j < i ==> lower_code(s@[j]) == lower_code(prefix@[j]),
        decreases pn - i,
    {
        let a = s.get_char(i) as u32;
        let b = prefix.get_char(i) as u32;
        let la = if 65 <= a && a <= 90 {
            a + 32
        } else {
            a
        };
        let lb = if 65 <= b && b <= 90 {
            b + 32
        } else {
            b
        };
        if la != lb {
            proof {
                assert('A' as u32 == 65 && 'Z' as u32 == 90);
                assert(!ieq(s@.subrange(0, pn as int), prefix@));
            }
            return s;
        }
        proof {
            assert('A' as u32 == 65 && 'Z' as u32 == 90);
        }
        i += 1;
    }
    proof {
        assert(forall|j: int|
            0 <= j < pn ==> s@.subrange(0, pn as int)[j] == s@[j]);
        assert(ieq(s@.subrange(0, pn as int), prefix@));
    }
    let r = s.substring_char(pn, n);
    proof {
        assert(r@ =~= s@.skip(pn as int));
    }
    r
}

/// The event title as it is spoken: leading white space, a leading "call"
/// (in any ASCII case), and leading dashes and colons are stripped.
pub open spec fn spec_spoken_summary(s: Seq<char>) -> Seq<char> {
    let a = spec_trim_start(s);
    let b = spec_trim_start(spec_istrip(a, "call"@));
    let c = spec_trim_start(spec_istrip(b, "-"@));
    spec_trim_start(spec_istrip(c, ":"@))
}

pub fn spoken_summary<'a>(summary: &'a str) -> (r: &'a str)
    ensures
        r@ == spec_spoken_summary(summary@),
{
    let a = trim_start_chars(summary);
    let b = trim_start_chars(istrip(a, "call"));
    let c = trim_start_chars(istrip(b, "-"));
    trim_start_chars(istrip(c, ":"))
}

} // verus!
