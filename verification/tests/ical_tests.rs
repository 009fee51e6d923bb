use nextcall::ical::{CalendarEntry, Param, Property, extract_datetime, get_event_summary, get_property, get_video_link};

fn prop(name: &str, value: &str) -> Property {
    Property {
        name: name.to_string(),
        value: Some(value.to_string()),
        params: Vec::new(),
    }
}

fn entry(props: Vec<Property>) -> CalendarEntry {
    CalendarEntry { properties: props }
}

#[test]
fn get_property_returns_first_match() {
    let e = entry(vec![prop("SUMMARY", "first"), prop("SUMMARY", "second")]);
    assert_eq!(get_property(&e, "SUMMARY"), Some("first".to_string()));
    assert_eq!(get_property(&e, "LOCATION"), None);
    assert_eq!(get_event_summary(&e), Some("first".to_string()));
}

#[test]
fn get_property_first_match_without_value_wins() {
    let e = entry(vec![
        Property { name: "URL".to_string(), value: None, params: Vec::new() },
        prop("URL", "https://example.com"),
    ]);
    assert_eq!(get_property(&e, "URL"), None);
}

// an entry with both a conferencing field and a generic URL field resolves
// to the conferencing field
#[test]
fn conference_field_takes_precedence_over_url() {
    let e = entry(vec![
        prop("URL", "https://example.com/generic"),
        prop("X-GOOGLE-CONFERENCE", "https://meet.google.com/abc-defg-hij"),
    ]);
    assert_eq!(
        get_video_link(&e),
        Some("https://meet.google.com/abc-defg-hij".to_string())
    );
}

#[test]
fn url_field_takes_precedence_over_location() {
    let e = entry(vec![
        prop("LOCATION", "https://example.com/room"),
        prop("URL", "https://zoom.us/j/555"),
    ]);
    assert_eq!(get_video_link(&e), Some("https://zoom.us/j/555".to_string()));
}

#[test]
fn location_link_is_used_when_it_is_a_url() {
    let e = entry(vec![prop("LOCATION", "https://teams.microsoft.com/l/meetup")]);
    assert_eq!(
        get_video_link(&e),
        Some("https://teams.microsoft.com/l/meetup".to_string())
    );
}

#[test]
fn non_http_conference_field_falls_through() {
    let e = entry(vec![
        prop("X-GOOGLE-CONFERENCE", "meet.google.com/abc"),
        prop("URL", "https://zoom.us/j/1"),
    ]);
    assert_eq!(get_video_link(&e), Some("https://zoom.us/j/1".to_string()));
}

#[test]
fn description_line_with_conference_domain_yields_link() {
    let e = entry(vec![prop(
        "DESCRIPTION",
        "Agenda items\nJoin here: https://zoom.us/j/99887766 passcode 1234\nBye",
    )]);
    assert_eq!(get_video_link(&e), Some("https://zoom.us/j/99887766".to_string()));
}

#[test]
fn description_link_runs_to_end_of_line() {
    let e = entry(vec![prop("DESCRIPTION", "meet.google.com call https://meet.google.com/xyz")]);
    assert_eq!(get_video_link(&e), Some("https://meet.google.com/xyz".to_string()));
}

#[test]
fn description_with_domain_but_no_url_yields_nothing() {
    let e = entry(vec![prop("DESCRIPTION", "we are on zoom.us somewhere\nno link here")]);
    assert_eq!(get_video_link(&e), None);
}

#[test]
fn description_without_known_domain_yields_nothing() {
    let e = entry(vec![prop("DESCRIPTION", "see https://example.com/notes")]);
    assert_eq!(get_video_link(&e), None);
}

#[test]
fn no_link_anywhere_yields_nothing() {
    let e = entry(vec![prop("SUMMARY", "Standup")]);
    assert_eq!(get_video_link(&e), None);
}

#[test]
fn param_values_are_reachable_through_parsing() {
    // built directly: a property carrying a parameter
    let p = Property {
        name: "DTSTART".to_string(),
        value: Some("20240315T090000".to_string()),
        params: vec![Param {
            name: "TZID".to_string(),
            values: vec!["America/New_York".to_string()],
        }],
    };
    let e = entry(vec![p]);
    assert_eq!(extract_datetime(&e), Some(1710507600));
}

#[test]
fn extract_datetime_without_zone_param() {
    let e = entry(vec![prop("DTSTART", "20231225T120000Z")]);
    assert_eq!(nextcall::ical::extract_datetime(&e), Some(1703505600));
}
