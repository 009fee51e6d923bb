//! The reminder sequence for a started call.
//!
//! One call at a time is tracked. A newly detected started call that is not
//! the tracked one replaces it outright and fires the start alert; the same
//! call advances through the later checkpoints as polls observe it. Each
//! checkpoint fires at most once in the tracked call's lifetime; a
//! checkpoint already past when a later one fires is marked off silently and
//! is never fired after the fact. Presence (the user already being on a
//! call) silences speech always, and silences notifications for every
//! checkpoint but the start one, whose behaviour under presence is the
//! caller's explicit policy choice.

use vstd::prelude::*;
use crate::datetime::epoch_in_range;
use crate::ical::NextEvent;
use crate::logic::{
    DEFAULT_CHECK_INTERVAL_SECS, Notice, round_minutes, round_minutes_exec, spec_spoken_summary,
    spoken_summary,
};
use crate::strutil::{spec_dec, str_eq, str_to_string, u64_to_string};

verus! {

/// The one call being tracked after it started, with the checkpoints that
/// have already been dealt with.
#[derive(Debug)]
pub struct ActiveEvent {
    pub summary: String,
    pub start_time: i64,
    pub video_link: String,
    pub notified_at_start: bool,
    pub notified_at_2min: bool,
    pub notified_at_5min: bool,
}

/// A reminder checkpoint.
#[derive(Clone, Copy, Debug, PartialEq, Eq, Structural)]
pub enum Tier {
    Start,
    TwoMinute,
    FiveMinute,
}

/// What one reminder step asks the host to deliver.
#[derive(Debug)]
pub struct Alert {
    pub notification: Option<Notice>,
    pub speech: Option<String>,
}

/// The state, the checkpoint fired, the alert to deliver, and the residual
/// wait after one reminder step.
pub struct ReminderOutcome {
    pub active: ActiveEvent,
    pub fired: Option<Tier>,
    pub alert: Alert,
    pub wait_secs: u64,
}

/// Two observations are the same call exactly when title and start instant
/// both agree.
pub open spec fn same_identity(a: ActiveEvent, e: NextEvent) -> bool {
    a.summary@ == e.summary@ && a.start_time == e.start_time
}

/// Whole minutes since the start, rounded down.
pub open spec fn minutes_since(now: int, start: int) -> int {
    (now - start) / 60
}

/// The tracked state for a call first observed started at `now`: the start
/// checkpoint is dealt with, and so is every later checkpoint already past.
pub open spec fn fresh_active(e: NextEvent, now: int) -> ActiveEvent {
    ActiveEvent {
        summary: e.summary,
        start_time: e.start_time,
        video_link: e.video_link,
        notified_at_start: true,
        notified_at_2min: minutes_since(now, e.start_time as int) >= 2,
        notified_at_5min: minutes_since(now, e.start_time as int) >= 5,
    }
}

/// The checkpoint one step fires: the start alert for a new or replaced
/// call; for the tracked call, the latest due checkpoint not yet dealt with.
pub open spec fn fired_tier(active: Option<ActiveEvent>, e: NextEvent, now: int) -> Option<Tier> {
    match active {
        Some(a) => {
            if same_identity(a, e) {
                let m = minutes_since(now, a.start_time as int);
                if m >= 5 && !a.notified_at_5min {
                    Some(Tier::FiveMinute)
                } else if m >= 2 && !a.notified_at_2min {
                    Some(Tier::TwoMinute)
                } else {
                    None
                }
            } else {
                Some(Tier::Start)
            }
        },
        None => Some(Tier::Start),
    }
}

/// The tracked state after one step: replaced wholesale on an identity
/// mismatch, otherwise advanced in place. When the five-minute checkpoint
/// fires, the two-minute one is marked off with it, silently.
pub open spec fn spec_reminder_active(
    active: Option<ActiveEvent>,
    e: NextEvent,
    now: int,
) -> ActiveEvent {
    match active {
        Some(a) => {
            if same_identity(a, e) {
                let m = minutes_since(now, a.start_time as int);
                if m >= 5 && !a.notified_at_5min {
                    ActiveEvent {
                        summary: a.summary,
                        start_time: a.start_time,
                        video_link: a.video_link,
                        notified_at_start: a.notified_at_start,
                        notified_at_2min: true,
                        notified_at_5min: true,
                    }
                } else if m >= 2 && !a.notified_at_2min {
                    ActiveEvent {
                        summary: a.summary,
                        start_time: a.start_time,
                        video_link: a.video_link,
                        notified_at_start: a.notified_at_start,
                        notified_at_2min: true,
                        notified_at_5min: a.notified_at_5min,
                    }
                } else {
                    a
                }
            } else {
                fresh_active(e, now)
            }
        },
        None => fresh_active(e, now),
    }
}

pub open spec fn clamp0(x: int) -> int {
    if x < 0 {
        0
    } else {
        x
    }
}

/// The wait after a step: to the next pending checkpoint's instant, else the
/// default interval.
pub open spec fn spec_residual_wait(a: ActiveEvent, now: int) -> int {
    if !a.notified_at_2min {
        clamp0(a.start_time + 120 - now)
    } else if !a.notified_at_5min {
        clamp0(a.start_time + 300 - now)
    } else {
        DEFAULT_CHECK_INTERVAL_SECS as int
    }
}

/// The human phrase for how long ago a call started.
pub open spec fn spec_time_since(secs: int) -> Seq<char> {
    if secs < 60 {
        "just started"@
    } else {
        spec_dec(round_minutes(secs)) + " minutes ago"@
    }
}

pub fn time_since_description(secs: i64) -> (r: String)
    requires
        0 <= secs,
        secs < 0x4000_0000_0000_0000,
    ensures
        r@ == spec_time_since(secs as int),
{
    if secs < 60 {
        str_to_string("just started")
    } else {
        let m = round_minutes_exec(secs);
        let mut s = u64_to_string(m as u64);
        s.append(" minutes ago");
        s
    }
}

pub open spec fn start_notice_ok(n: Notice, summary: Seq<char>, link: Seq<char>, secs: int) -> bool {
    &&& n.title@ == "Nextcall"@
    &&& n.subtitle@ == "Call Started "@ + spec_time_since(secs)
    &&& n.body@ == summary
    &&& (n.url matches Some(u) && u@ == link)
}

/// The spoken phrase: the call's title in quotes, how long ago it started,
/// and a prompt to join once it is more than a minute old.
pub open spec fn speech_ok(s: Seq<char>, summary: Seq<char>, secs: int) -> bool {
    s == "Your call \""@ + spec_spoken_summary(summary) + "\" started "@ + spec_time_since(secs) + (
    if secs > 60 {
        ", join it now!"@
    } else {
        Seq::<char>::empty()
    })
}

/// What an alert owes for the fired checkpoint: a notification unless
/// presence silences it (the start checkpoint is silenced only under the
/// caller's explicit policy), and speech only when the user is not already
/// on a call.
pub open spec fn alert_ok(
    a: Alert,
    e: NextEvent,
    now: int,
    in_call: bool,
    fired: Option<Tier>,
    suppress_start_when_in_call: bool,
) -> bool {
    let secs = now - e.start_time;
    match fired {
        None => a.notification is None && a.speech is None,
        Some(t) => {
            &&& (if !in_call || ((t matches Tier::Start) && !suppress_start_when_in_call) {
                (a.notification matches Some(n) && start_notice_ok(
                    n,
                    e.summary@,
                    e.video_link@,
                    secs,
                ))
            } else {
                a.notification is None
            })
            &&& (if !in_call {
                (a.speech matches Some(s) && speech_ok(s@, e.summary@, secs))
            } else {
                a.speech is None
            })
        },
    }
}

fn build_alert(e: &NextEvent, now: i64, in_call: bool, tier: Tier, suppress_start_when_in_call: bool) -> (r:
    Alert)
    requires
        e.start_time <= now,
        epoch_in_range(e.start_time as int),
        epoch_in_range(now as int),
    ensures
        alert_ok(r, *e, now as int, in_call, Some(tier), suppress_start_when_in_call),
{
    let secs = now - e.start_time;
    let is_start = match tier {
        Tier::Start => true,
        _ => false,
    };
    let notification = if !in_call || (is_start && !suppress_start_when_in_call) {
        let mut sub = str_to_string("Call Started ");
        let desc = time_since_description(secs);
        sub.append(desc.as_str());
        Some(
            Notice {
                title: str_to_string("Nextcall"),
                subtitle: sub,
                body: e.summary.clone(),
                url: Some(e.video_link.clone()),
            },
        )
    } else {
        None
    };
    let speech = if !in_call {
        let mut s = str_to_string("Your call \"");
        let stripped = spoken_summary(e.summary.as_str());
        s.append(stripped);
        s.append("\" started ");
        let desc = time_since_description(secs);
        s.append(desc.as_str());
        if secs > 60 {
            s.append(", join it now!");
        }
        proof {
            assert(s@ =~= "Your call \""@ + spec_spoken_summary(e.summary@) + "\" started "@
                + spec_time_since(secs as int) + (if secs > 60 {
                ", join it now!"@
            } else {
                Seq::<char>::empty()
            }));
        }
        Some(s)
    } else {
        None
    };
    Alert { notification, speech }
}

fn residual_wait(a: &ActiveEvent, now: i64) -> (r: u64)
    requires
        epoch_in_range(a.start_time as int),
        epoch_in_range(now as int),
    ensures
        r as int == spec_residual_wait(*a, now as int),
{
    if !a.notified_at_2min {
        let w = a.start_time + 120 - now;
        if w < 0 {
            0
        } else {
            w as u64
        }
    } else if !a.notified_at_5min {
        let w = a.start_time + 300 - now;
        if w < 0 {
            0
        } else {
            w as u64
        }
    } else {
        DEFAULT_CHECK_INTERVAL_SECS
    }
}

fn replace_event(started: &NextEvent, now: i64, in_call: bool, suppress_start_when_in_call: bool) -> (r: (
    ActiveEvent,
    Alert,
))
    requires
        started.start_time <= now,
        epoch_in_range(started.start_time as int),
        epoch_in_range(now as int),
    ensures
        r.0 == fresh_active(*started, now as int),
        alert_ok(r.1, *started, now as int, in_call, Some(Tier::Start), suppress_start_when_in_call),
{
    let m = (now - started.start_time) / 60;
    let active = ActiveEvent {
        summary: started.summary.clone(),
        start_time: started.start_time,
        video_link: started.video_link.clone(),
        notified_at_start: true,
        notified_at_2min: m >= 2,
        notified_at_5min: m >= 5,
    };
    let alert = build_alert(started, now, in_call, Tier::Start, suppress_start_when_in_call);
    (active, alert)
}

/// One reminder step for a started call: advances or replaces the tracked
/// state, fires at most one checkpoint, and says how long to wait for the
/// next pending one.
pub fn reminder_step(
    active: Option<ActiveEvent>,
    started: &NextEvent,
    now: i64,
    in_call: bool,
    suppress_start_when_in_call: bool,
) -> (r: ReminderOutcome)
    requires
        started.start_time <= now,
        epoch_in_range(started.start_time as int),
        epoch_in_range(now as int),
    ensures
        r.active == spec_reminder_active(active, *started, now as int),
        r.fired == fired_tier(active, *started, now as int),
        r.wait_secs as int == spec_residual_wait(r.active, now as int),
        alert_ok(r.alert, *started, now as int, in_call, r.fired, suppress_start_when_in_call),
{
    match active {
        Some(a) => {
            if a.start_time == started.start_time && str_eq(
                a.summary.as_str(),
                started.summary.as_str(),
            ) {
                let m = (now - a.start_time) / 60;
                if m >= 5 && !a.notified_at_5min {
                    let a2 = ActiveEvent {
                        summary: a.summary,
                        start_time: a.start_time,
                        video_link: a.video_link,
                        notified_at_start: a.notified_at_start,
                        notified_at_2min: true,
                        notified_at_5min: true,
                    };
                    let alert = build_alert(
                        started,
                        now,
                        in_call,
                        Tier::FiveMinute,
                        suppress_start_when_in_call,
                    );
                    let wait = residual_wait(&a2, now);
                    ReminderOutcome { active: a2, fired: Some(Tier::FiveMinute), alert, wait_secs: wait }
                } else if m >= 2 && !a.notified_at_2min {
                    let a2 = ActiveEvent {
                        summary: a.summary,
                        start_time: a.start_time,
                        video_link: a.video_link,
                        notified_at_start: a.notified_at_start,
                        notified_at_2min: true,
                        notified_at_5min: a.notified_at_5min,
                    };
                    let alert = build_alert(
                        started,
                        now,
                        in_call,
                        Tier::TwoMinute,
                        suppress_start_when_in_call,
                    );
                    let wait = residual_wait(&a2, now);
                    ReminderOutcome { active: a2, fired: Some(Tier::TwoMinute), alert, wait_secs: wait }
                } else {
                    let wait = residual_wait(&a, now);
                    ReminderOutcome {
                        active: a,
                        fired: None,
                        alert: (Alert { notification: None, speech: None }),
                        wait_secs: wait,
                    }
                }
            } else {
                let (a2, alert) = replace_event(started, now, in_call, suppress_start_when_in_call);
                let wait = residual_wait(&a2, now);
                ReminderOutcome { active: a2, fired: Some(Tier::Start), alert, wait_secs: wait }
            }
        },
        None => {
            let (a2, alert) = replace_event(started, now, in_call, suppress_start_when_in_call);
            let wait = residual_wait(&a2, now);
            ReminderOutcome { active: a2, fired: Some(Tier::Start), alert, wait_secs: wait }
        },
    }
}

/// No checkpoint fires twice: after a step, any repeated step that observes
/// the same whole minutes since the start fires nothing, however often it
/// runs — whatever fired is marked off in the state the step returns.
pub proof fn lemma_no_tier_fires_twice(
    active: Option<ActiveEvent>,
    e: NextEvent,
    now: int,
    later: int,
)
    requires
        minutes_since(later, e.start_time as int) == minutes_since(now, e.start_time as int),
    ensures
        fired_tier(Some(spec_reminder_active(active, e, now)), e, later) is None,
{
}

/// A started call that is not the tracked one (a different title alone, or
/// a different start instant alone, suffices) replaces the tracked state
/// wholesale — never merged — and fires the start checkpoint at once.
/// The replacement observed within two minutes of its start carries only
/// the start checkpoint; a later replacement also marks the checkpoints
/// already due off silently, as any fresh first observation does.
pub proof fn lemma_identity_replaces(a: ActiveEvent, e: NextEvent, now: int)
    requires
        !same_identity(a, e),
    ensures
        fired_tier(Some(a), e, now) == Some(Tier::Start),
        spec_reminder_active(Some(a), e, now) == fresh_active(e, now),
        spec_reminder_active(Some(a), e, now).notified_at_start,
        minutes_since(now, e.start_time as int) < 2 ==> !spec_reminder_active(
            Some(a),
            e,
            now,
        ).notified_at_2min && !spec_reminder_active(Some(a), e, now).notified_at_5min,
{
}

/// When the five-minute checkpoint is first due together with the
/// two-minute one, only the five-minute checkpoint fires, and the two-minute
/// one is marked off and can never fire afterwards.
pub proof fn lemma_late_poll_skips_earlier_tier(a: ActiveEvent, e: NextEvent, now: int)
    requires
        same_identity(a, e),
        minutes_since(now, e.start_time as int) >= 5,
        !a.notified_at_5min,
    ensures
        fired_tier(Some(a), e, now) == Some(Tier::FiveMinute),
        spec_reminder_active(Some(a), e, now).notified_at_2min,
        forall|later: int|
            fired_tier(Some(spec_reminder_active(Some(a), e, now)), e, later) != Some(
                Tier::TwoMinute,
            ),
{
}

/// The wait a step returns is bounded by the default interval, so the
/// caller re-polls within a known ceiling. The premise says only that a
/// two-minute checkpoint already marked off was due when it was marked, on
/// a clock that does not run backwards.
pub proof fn lemma_reminder_wait_bounded(active: Option<ActiveEvent>, e: NextEvent, now: int)
    requires
        e.start_time <= now,
        (match active {
            Some(a) => (same_identity(a, e) && a.notified_at_2min) ==> now >= e.start_time + 120,
            None => true,
        }),
    ensures
        spec_residual_wait(spec_reminder_active(active, e, now), now)
            <= DEFAULT_CHECK_INTERVAL_SECS as int,
{
}

/// The checkpoints only accumulate: a step never clears a checkpoint of the
/// tracked call, the start checkpoint is always dealt with, and a state that
/// has dealt with the five-minute checkpoint has dealt with the two-minute
/// one.
pub proof fn lemma_tiers_monotone(active: Option<ActiveEvent>, e: NextEvent, now: int)
    requires
        (match active {
            Some(a) => a.notified_at_5min ==> a.notified_at_2min,
            None => true,
        }),
    ensures
        ({
            let a1 = spec_reminder_active(active, e, now);
            &&& (a1.notified_at_5min ==> a1.notified_at_2min)
            &&& a1.notified_at_start || (match active {
                Some(a) => same_identity(a, e) && a.notified_at_start == a1.notified_at_start,
                None => false,
            })
            &&& (match active {
                Some(a) => same_identity(a, e) ==> ((a.notified_at_2min ==> a1.notified_at_2min) && (
                a.notified_at_5min ==> a1.notified_at_5min)),
                None => true,
            })
        }),
{
}

} // verus!
