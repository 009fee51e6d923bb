use nextcall::ical::{CalendarError, NextEvent};
use nextcall::logic::{
    DEFAULT_CHECK_INTERVAL_SECS, StepNext, calc_sleep, find_next_event, icon_for_event, istrip,
    spoken_summary, step,
};

fn event(start_time: i64) -> NextEvent {
    NextEvent {
        start_time,
        summary: "Standup".to_string(),
        video_link: "https://zoom.us/j/1".to_string(),
    }
}

// delta = 61 s shows one whole minute: floor, not round
#[test]
fn sixty_one_seconds_shows_one_minute() {
    let now = 1710507600;
    let r = calc_sleep(&event(now + 61), now);
    assert_eq!(r.icon_text, "1");
}

#[test]
fn fifty_nine_seconds_shows_zero_minutes() {
    let now = 1710507600;
    let r = calc_sleep(&event(now + 59), now);
    assert_eq!(r.icon_text, "0");
}

// sixty whole minutes still shows the digit; sixty-one shows the marker
#[test]
fn hour_boundary_switches_to_far_future_marker() {
    let now = 1710507600;
    let at_sixty = calc_sleep(&event(now + 60 * 60), now);
    assert_eq!(at_sixty.icon_text, "60");
    let past_sixty = calc_sleep(&event(now + 61 * 60), now);
    assert_eq!(past_sixty.icon_text, "...");
}

#[test]
fn near_call_wait_is_capped_by_top_of_minute() {
    // now is 20 s into its minute, call is 45 min out: wait to the top of the minute
    let now = 1710507620;
    let r = calc_sleep(&event(now + 45 * 60), now);
    assert_eq!(r.icon_text, "45");
    match r.next {
        StepNext::Sleep(d) => assert_eq!(d, 40),
        StepNext::EventStarted(_) => panic!("not started"),
    }
}

#[test]
fn imminent_call_wait_is_the_remaining_delta() {
    let now = 1710507620;
    let r = calc_sleep(&event(now + 25), now);
    match r.next {
        StepNext::Sleep(d) => assert_eq!(d, 25),
        StepNext::EventStarted(_) => panic!("not started"),
    }
}

#[test]
fn far_call_wakes_exactly_at_the_hour_mark() {
    let now = 1710507600;
    // 61 minutes out: one minute remains to the one-hour mark
    let r = calc_sleep(&event(now + 61 * 60), now);
    match r.next {
        StepNext::Sleep(d) => assert_eq!(d, 60),
        StepNext::EventStarted(_) => panic!("not started"),
    }
    // far out: the default interval rules
    let far = calc_sleep(&event(now + 24 * 3600), now);
    match far.next {
        StepNext::Sleep(d) => assert_eq!(d, DEFAULT_CHECK_INTERVAL_SECS),
        StepNext::EventStarted(_) => panic!("not started"),
    }
}

#[test]
fn started_call_signals_event_started() {
    let now = 1710507600;
    let r = calc_sleep(&event(now - 210), now);
    // three and a half minutes, rounded to the nearest even minute
    assert_eq!(r.icon_text, "-4");
    match r.next {
        StepNext::EventStarted(e) => assert_eq!(e.start_time, now - 210),
        StepNext::Sleep(_) => panic!("started"),
    }
}

#[test]
fn elapsed_minutes_rounding() {
    let now = 1710507600;
    assert_eq!(icon_for_event(now - 30, now), "-0"); // half a minute: ties to even
    assert_eq!(icon_for_event(now - 89, now), "-1");
    assert_eq!(icon_for_event(now - 150, now), "-2"); // 2.5 min: ties to even
}

// scenario: one entry 45 minutes out with a qualifying link
#[test]
fn step_with_call_forty_five_minutes_out() {
    let now = 1710507600;
    let out = step(Ok(event(now + 45 * 60)), None, now);
    assert_eq!(out.result.icon_text, "45");
    match out.result.next {
        StepNext::Sleep(d) => assert!(d <= 60),
        StepNext::EventStarted(_) => panic!("not started"),
    }
    assert!(out.notice.is_none());
    assert_eq!(out.next_event.unwrap().start_time, now + 45 * 60);
}

// scenario: the fetch fails with a non-success status
#[test]
fn step_on_http_error_keeps_state_and_waits_default() {
    let now = 1710507600;
    let prev = event(now + 300);
    let out = step(
        Err(CalendarError::HttpStatus(410, "gone".to_string())),
        Some(prev),
        now,
    );
    // prior state untouched
    let kept = out.next_event.expect("previous event kept");
    assert_eq!(kept.start_time, now + 300);
    assert_eq!(kept.summary, "Standup");
    // wait is the default interval
    match out.result.next {
        StepNext::Sleep(d) => assert_eq!(d, DEFAULT_CHECK_INTERVAL_SECS),
        StepNext::EventStarted(_) => panic!("no start on error"),
    }
    // the error is surfaced once
    let n = out.notice.expect("notice");
    assert_eq!(n.title, "Next Call");
    assert_eq!(n.subtitle, "HTTP error fetching calendar");
    assert_eq!(n.body, "410: gone");
}

#[test]
fn step_with_nothing_upcoming_idles() {
    let now = 1710507600;
    let out = step(Err(CalendarError::NoUpcomingEvents), Some(event(now + 300)), now);
    assert!(out.next_event.is_none());
    assert!(out.notice.is_none());
    assert_eq!(out.result.icon_text, "...");
    match out.result.next {
        StepNext::Sleep(d) => assert_eq!(d, DEFAULT_CHECK_INTERVAL_SECS),
        StepNext::EventStarted(_) => panic!("nothing to start"),
    }
}

#[test]
fn find_next_event_reads_each_outcome() {
    let prev = Some(event(100));
    let ok = find_next_event(Ok(event(200)), prev.clone());
    assert_eq!(ok.next_event.unwrap().start_time, 200);
    assert!(ok.notice.is_none());

    let none = find_next_event(Err(CalendarError::NoUpcomingEvents), prev.clone());
    assert!(none.next_event.is_none());
    assert!(none.notice.is_none());

    let net = find_next_event(
        Err(CalendarError::NetworkError("refused".to_string())),
        prev.clone(),
    );
    assert_eq!(net.next_event.unwrap().start_time, 100);
    let n = net.notice.unwrap();
    assert_eq!(n.subtitle, "Network error fetching calendar");
    assert_eq!(n.body, "refused");

    let bad = find_next_event(
        Err(CalendarError::InvalidFormat("not a calendar".to_string())),
        prev,
    );
    assert_eq!(bad.next_event.unwrap().start_time, 100);
    let n = bad.notice.unwrap();
    assert_eq!(n.subtitle, "Invalid ical response");
    assert_eq!(n.body, "not a calendar");
}

#[test]
fn istrip_removes_prefix_regardless_of_ascii_case() {
    assert_eq!(istrip("Call things", "call"), " things");
    assert_eq!(istrip("CALL things", "call"), " things");
    assert_eq!(istrip("recall", "call"), "recall");
    assert_eq!(istrip("ca", "call"), "ca");
}

#[test]
fn spoken_summary_strips_noise() {
    assert_eq!(spoken_summary("  Call - Standup"), "Standup");
    assert_eq!(spoken_summary("call: Weekly sync"), "Weekly sync");
    assert_eq!(spoken_summary("Planning"), "Planning");
}

#[test]
fn istrip_handles_multibyte_text() {
    // a prefix check across a multibyte character must simply not match
    assert_eq!(istrip("écall", "call"), "écall");
    assert_eq!(spoken_summary("café"), "café");
}

#[test]
fn config_starts_without_speech_key() {
    let c = nextcall::config::Config::new("https://example.com/cal.ics".to_string());
    assert_eq!(c.ical_url, "https://example.com/cal.ics");
    assert!(c.eleven_labs_key.is_none());
    // the start alert goes out regardless of presence unless chosen otherwise
    assert!(!c.suppress_start_when_in_call);
}
