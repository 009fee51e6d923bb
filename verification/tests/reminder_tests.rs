use nextcall::ical::NextEvent;
use nextcall::reminder::{ActiveEvent, Tier, reminder_step, time_since_description};

fn event(start_time: i64) -> NextEvent {
    NextEvent {
        start_time,
        summary: "Call - Standup".to_string(),
        video_link: "https://zoom.us/j/1".to_string(),
    }
}

// scenario: a call started three minutes ago is observed for the first time
#[test]
fn first_observation_three_minutes_in() {
    let start = 1710507600;
    let now = start + 180;
    let e = event(start);
    let out = reminder_step(None, &e, now, false, false);
    // a new tracked call, the start alert fired
    assert_eq!(out.fired, Some(Tier::Start));
    assert!(out.active.notified_at_start);
    // the two-minute checkpoint is already due and is marked off silently
    assert!(out.active.notified_at_2min);
    // only the five-minute checkpoint remains pending
    assert!(!out.active.notified_at_5min);
    assert_eq!(out.wait_secs, 120);
    // the start alert is always delivered
    let n = out.alert.notification.expect("notification");
    assert_eq!(n.title, "Nextcall");
    assert_eq!(n.subtitle, "Call Started 3 minutes ago");
    assert_eq!(n.body, "Call - Standup");
    assert_eq!(n.url.as_deref(), Some("https://zoom.us/j/1"));
    let s = out.alert.speech.expect("speech");
    assert_eq!(s, "Your call \"Standup\" started 3 minutes ago, join it now!");
}

#[test]
fn fresh_start_under_a_minute() {
    let start = 1710507600;
    let e = event(start);
    let out = reminder_step(None, &e, start + 30, false, false);
    assert_eq!(out.fired, Some(Tier::Start));
    assert!(!out.active.notified_at_2min);
    assert!(!out.active.notified_at_5min);
    assert_eq!(out.wait_secs, 90); // to the two-minute mark
    let n = out.alert.notification.unwrap();
    assert_eq!(n.subtitle, "Call Started just started");
    let s = out.alert.speech.unwrap();
    // under a minute there is no join prompt
    assert_eq!(s, "Your call \"Standup\" started just started");
}

// no tier fires twice across repeated steps with unchanged minutes
#[test]
fn repeated_steps_fire_nothing_new() {
    let start = 1710507600;
    let now = start + 150; // two and a half minutes in
    let e = event(start);
    let first = reminder_step(Some(fresh_at_start(start)), &e, now, false, false);
    assert_eq!(first.fired, Some(Tier::TwoMinute));
    let second = reminder_step(Some(first.active), &e, now, false, false);
    assert_eq!(second.fired, None);
    assert!(second.alert.notification.is_none());
    assert!(second.alert.speech.is_none());
    let third = reminder_step(Some(second.active), &e, now, false, false);
    assert_eq!(third.fired, None);
}

fn fresh_at_start(start: i64) -> ActiveEvent {
    ActiveEvent {
        summary: "Call - Standup".to_string(),
        start_time: start,
        video_link: "https://zoom.us/j/1".to_string(),
        notified_at_start: true,
        notified_at_2min: false,
        notified_at_5min: false,
    }
}

// a first observation at six minutes fires only the five-minute tier
#[test]
fn late_poll_fires_only_the_five_minute_tier() {
    let start = 1710507600;
    let e = event(start);
    let out = reminder_step(Some(fresh_at_start(start)), &e, start + 360, false, false);
    assert_eq!(out.fired, Some(Tier::FiveMinute));
    // the two-minute checkpoint is marked off without firing
    assert!(out.active.notified_at_2min);
    assert!(out.active.notified_at_5min);
    // and it never fires afterwards
    let later = reminder_step(Some(out.active), &e, start + 420, false, false);
    assert_eq!(later.fired, None);
}

#[test]
fn tiers_fire_in_sequence_when_polls_keep_up() {
    let start = 1710507600;
    let e = event(start);
    let at_two = reminder_step(Some(fresh_at_start(start)), &e, start + 120, false, false);
    assert_eq!(at_two.fired, Some(Tier::TwoMinute));
    assert!(!at_two.active.notified_at_5min);
    assert_eq!(at_two.wait_secs, 180); // to the five-minute mark
    let at_five = reminder_step(Some(at_two.active), &e, start + 300, false, false);
    assert_eq!(at_five.fired, Some(Tier::FiveMinute));
    let after = reminder_step(Some(at_five.active), &e, start + 400, false, false);
    assert_eq!(after.fired, None);
    assert_eq!(after.wait_secs, 180); // default interval once all tiers fired
}

// identity: same summary with a different start, and same start with a
// different summary, are distinct calls
#[test]
fn changed_start_time_replaces_the_tracked_call() {
    let start = 1710507600;
    let moved = event(start + 600);
    let held = ActiveEvent {
        notified_at_2min: true,
        notified_at_5min: true,
        ..fresh_at_start(start)
    };
    let out = reminder_step(Some(held), &moved, start + 630, false, false);
    assert_eq!(out.fired, Some(Tier::Start));
    assert_eq!(out.active.start_time, start + 600);
    // the replacement starts its own checkpoint lifetime
    assert!(!out.active.notified_at_2min);
}

#[test]
fn changed_summary_replaces_the_tracked_call() {
    let start = 1710507600;
    let other = NextEvent {
        start_time: start,
        summary: "Retro".to_string(),
        video_link: "https://zoom.us/j/2".to_string(),
    };
    let held = fresh_at_start(start);
    let out = reminder_step(Some(held), &other, start + 30, false, false);
    assert_eq!(out.fired, Some(Tier::Start));
    assert_eq!(out.active.summary, "Retro");
}

#[test]
fn presence_silences_speech_and_later_notifications() {
    let start = 1710507600;
    let e = event(start);
    // presence at a non-start tier: nothing is delivered, the flag still advances
    let out = reminder_step(Some(fresh_at_start(start)), &e, start + 120, true, false);
    assert_eq!(out.fired, Some(Tier::TwoMinute));
    assert!(out.alert.notification.is_none());
    assert!(out.alert.speech.is_none());
    assert!(out.active.notified_at_2min);
}

#[test]
fn start_alert_presence_policy_is_explicit() {
    let start = 1710507600;
    let e = event(start);
    // by default the start alert goes out even during another call
    let sent = reminder_step(None, &e, start + 30, true, false);
    assert!(sent.alert.notification.is_some());
    assert!(sent.alert.speech.is_none());
    // with suppression chosen, presence silences the start alert too
    let silenced = reminder_step(None, &e, start + 30, true, true);
    assert!(silenced.alert.notification.is_none());
}

#[test]
fn time_since_phrases() {
    assert_eq!(time_since_description(0), "just started");
    assert_eq!(time_since_description(59), "just started");
    assert_eq!(time_since_description(60), "1 minutes ago");
    assert_eq!(time_since_description(90), "2 minutes ago"); // ties to even
    assert_eq!(time_since_description(150), "2 minutes ago");
    assert_eq!(time_since_description(179), "3 minutes ago");
}
