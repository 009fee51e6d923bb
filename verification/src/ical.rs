//! Calendar entries and the rules that read them: property lookup, the
//! ordered video-link heuristic, start-time extraction, and selection of the
//! next relevant call.

use vstd::prelude::*;
use crate::normalize::{normalize_datetime, spec_normalize, opt_i64_matches};
use crate::strutil::{
    contains_sub, find_char, find_space, find_sub, first_char, first_match, first_space,
    starts_with_str, str_eq, str_to_string,
};

verus! {

/// One parameter of a calendar property: a name and its values.
#[derive(Debug)]
pub struct Param {
    pub name: String,
    pub values: Vec<String>,
}

/// One property of a calendar entry.
#[derive(Debug)]
pub struct Property {
    pub name: String,
    pub value: Option<String>,
    pub params: Vec<Param>,
}

/// One raw calendar entry: its properties in feed order.
#[derive(Debug)]
pub struct CalendarEntry {
    pub properties: Vec<Property>,
}

#[verifier::ext_equal]
pub ghost struct ParamView {
    pub name: Seq<char>,
    pub values: Seq<Seq<char>>,
}

#[verifier::ext_equal]
pub ghost struct PropertyView {
    pub name: Seq<char>,
    pub value: Option<Seq<char>>,
    pub params: Seq<ParamView>,
}

#[verifier::ext_equal]
pub ghost struct EntryView {
    pub properties: Seq<PropertyView>,
}

impl View for Param {
    type V = ParamView;

    open spec fn view(&self) -> ParamView {
        ParamView { name: self.name@, values: self.values@.map_values(|v: String| v@) }
    }
}

impl View for Property {
    type V = PropertyView;

    open spec fn view(&self) -> PropertyView {
        PropertyView {
            name: self.name@,
            value: match self.value {
                Some(v) => Some(v@),
                None => None,
            },
            params: self.params@.map_values(|p: Param| p@),
        }
    }
}

impl View for CalendarEntry {
    type V = EntryView;

    open spec fn view(&self) -> EntryView {
        EntryView { properties: self.properties@.map_values(|p: Property| p@) }
    }
}

/// The next relevant call: an absolute start instant, a title, and the link
/// to join it.
#[derive(Debug)]
pub struct NextEvent {
    pub start_time: i64,
    pub summary: String,
    pub video_link: String,
}

impl Clone for NextEvent {
    fn clone(&self) -> (r: Self)
        ensures
            r.start_time == self.start_time,
            r.summary@ == self.summary@,
            r.video_link@ == self.video_link@,
    {
        NextEvent {
            start_time: self.start_time,
            summary: self.summary.clone(),
            video_link: self.video_link.clone(),
        }
    }
}

/// Why no next call could be produced from a fetch.
#[derive(Debug)]
pub enum CalendarError {
    /// A non-success HTTP status, with the raw status and body for diagnosis.
    HttpStatus(u16, String),
    /// The feed text is not a readable calendar.
    InvalidFormat(String),
    /// The feed could not be fetched at all.
    NetworkError(String),
    /// The feed was read, but no upcoming entry has a joinable link.
    NoUpcomingEvents,
}

pub open spec fn opt_str_matches(r: Option<String>, m: Option<Seq<char>>) -> bool {
    match r {
        Some(v) => m == Some(v@),
        None => m is None,
    }
}

/// The first property with the given name.
pub open spec fn spec_find_prop(props: Seq<PropertyView>, name: Seq<char>) -> Option<PropertyView>
    decreases props.len(),
{
    if props.len() == 0 {
        None
    } else if props[0].name == name {
        Some(props[0])
    } else {
        spec_find_prop(props.drop_first(), name)
    }
}

/// The value of the first property with the given name.
pub open spec fn spec_get_property(props: Seq<PropertyView>, name: Seq<char>) -> Option<Seq<char>> {
    match spec_find_prop(props, name) {
        Some(p) => p.value,
        None => None,
    }
}

fn find_prop<'a>(props: &'a Vec<Property>, name: &str) -> (r: Option<&'a Property>)
    ensures
        match r {
            Some(p) => spec_find_prop(props@.map_values(|q: Property| q@), name@) == Some(p@),
            None => spec_find_prop(props@.map_values(|q: Property| q@), name@) is None,
        },
{
    let ghost pv = props@.map_values(|q: Property| q@);
    let n = props.len();
    let mut i: usize = 0;
    proof {
        assert(pv.skip(0) =~= pv);
    }
    while i < n
        invariant
            pv == props@.map_values(|q: Property| q@),
            n == props@.len(),
            i <= n,
            spec_find_prop(pv, name@) == spec_find_prop(pv.skip(i as int), name@),
        decreases n - i,
    {
        if str_eq(props[i].name.as_str(), name) {
            proof {
                assert(pv.skip(i as int)[0] == pv[i as int]);
            }
            return Some(&props[i]);
        }
        proof {
            assert(pv.skip(i as int)[0] == pv[i as int]);
            assert(pv.skip(i as int).drop_first() =~= pv.skip(i as int + 1));
        }
        i += 1;
    }
    proof {
        assert(pv.skip(n as int) =~= Seq::<PropertyView>::empty());
    }
    None
}

/// Looks up the value of the first property with the given name.
pub fn get_property(event: &CalendarEntry, name: &str) -> (r: Option<String>)
    ensures
        opt_str_matches(r, spec_get_property(event@.properties, name@)),
{
    match find_prop(&event.properties, name) {
        Some(p) => match &p.value {
            Some(v) => Some(v.clone()),
            None => None,
        },
        None => None,
    }
}

/// The entry's title.
pub fn get_event_summary(event: &CalendarEntry) -> (r: Option<String>)
    ensures
        opt_str_matches(r, spec_get_property(event@.properties, "SUMMARY"@)),
{
    get_property(event, "SUMMARY")
}

/// The first value of the first parameter with the given name.
pub open spec fn spec_param_value(params: Seq<ParamView>, name: Seq<char>) -> Option<Seq<char>>
    decreases params.len(),
{
    if params.len() == 0 {
        None
    } else if params[0].name == name && params[0].values.len() > 0 {
        Some(params[0].values[0])
    } else {
        spec_param_value(params.drop_first(), name)
    }
}

fn param_value<'a>(params: &'a Vec<Param>, name: &str) -> (r: Option<&'a String>)
    ensures
        match r {
            Some(v) => spec_param_value(params@.map_values(|q: Param| q@), name@) == Some(v@),
            None => spec_param_value(params@.map_values(|q: Param| q@), name@) is None,
        },
{
    let ghost pv = params@.map_values(|q: Param| q@);
    let n = params.len();
    let mut i: usize = 0;
    proof {
        assert(pv.skip(0) =~= pv);
    }
    while i < n
        invariant
            pv == params@.map_values(|q: Param| q@),
            n == params@.len(),
            i <= n,
            spec_param_value(pv, name@) == spec_param_value(pv.skip(i as int), name@),
        decreases n - i,
    {
        proof {
            assert(pv.skip(i as int)[0] == pv[i as int]);
            assert(pv.skip(i as int).drop_first() =~= pv.skip(i as int + 1));
        }
        if str_eq(params[i].name.as_str(), name) && params[i].values.len() > 0 {
            proof {
                assert(pv[i as int].values[0] == params@[i as int].values@[0]@);
            }
            return Some(&params[i].values[0]);
        }
        i += 1;
    }
    proof {
        assert(pv.skip(n as int) =~= Seq::<ParamView>::empty());
    }
    None
}

/// The instant the entry starts: its first start property, normalized with
/// the property's own zone id when one is named.
pub open spec fn spec_extract_datetime(props: Seq<PropertyView>) -> Option<int> {
    match spec_find_prop(props, "DTSTART"@) {
        None => None,
        Some(p) => match p.value {
            None => None,
            Some(v) => spec_normalize(v, spec_param_value(p.params, "TZID"@)),
        },
    }
}

pub fn extract_datetime(event: &CalendarEntry) -> (r: Option<i64>)
    ensures
        opt_i64_matches(r, spec_extract_datetime(event@.properties)),
{
    let p = match find_prop(&event.properties, "DTSTART") {
        Some(p) => p,
        None => return None,
    };
    let value = match &p.value {
        Some(v) => v,
        None => return None,
    };
    let tz = param_value(&p.params, "TZID");
    match tz {
        Some(t) => normalize_datetime(value.as_str(), Some(t.as_str())),
        None => normalize_datetime(value.as_str(), None),
    }
}

pub open spec fn starts_http(v: Option<Seq<char>>) -> bool {
    match v {
        Some(s) => "http"@.is_prefix_of(s),
        None => false,
    }
}

pub open spec fn has_conf_domain(line: Seq<char>) -> bool {
    first_match(line, "zoom.us"@) is Some || first_match(line, "meet.google.com"@) is Some
        || first_match(line, "teams.microsoft.com"@) is Some
}

/// The link a description line yields: when the line names a known
/// conferencing domain, the text from its first `http` up to the next
/// white space.
pub open spec fn line_link(line: Seq<char>) -> Option<Seq<char>> {
    if has_conf_domain(line) {
        match first_match(line, "http"@) {
            Some(h) => {
                if 0 <= h <= line.len() {
                    let tail = line.subrange(h, line.len() as int);
                    Some(tail.subrange(0, first_space(tail)))
                } else {
                    None
                }
            },
            None => None,
        }
    } else {
        None
    }
}

/// The link of the first description line that yields one.
pub open spec fn scan_description(s: Seq<char>) -> Option<Seq<char>>
    decreases s.len(),
{
    if s.len() == 0 {
        None
    } else {
        let nl = first_char(s, '\n');
        if 0 <= nl && nl < s.len() {
            let raw = s.subrange(0, nl);
            let line = if raw.len() > 0 && raw.last() == '\r' {
                raw.drop_last()
            } else {
                raw
            };
            match line_link(line) {
                Some(u) => Some(u),
                None => scan_description(s.subrange(nl + 1, s.len() as int)),
            }
        } else {
            let line = if s.len() > 0 && s.last() == '\r' {
                s.drop_last()
            } else {
                s
            };
            match line_link(line) {
                Some(u) => Some(u),
                None => None,
            }
        }
    }
}

fn line_link_exec(line: &str) -> (r: Option<String>)
    ensures
        opt_str_matches(r, line_link(line@)),
{
    if contains_sub(line, "zoom.us") || contains_sub(line, "meet.google.com") || contains_sub(
        line,
        "teams.microsoft.com",
    ) {
        match find_sub(line, "http") {
            Some(h) => {
                let n = line.unicode_len();
                let tail = line.substring_char(h, n);
                let e = find_space(tail);
                let url = tail.substring_char(0, e);
                Some(str_to_string(url))
            },
            None => None,
        }
    } else {
        None
    }
}

fn scan_description_exec(s: &str) -> (r: Option<String>)
    ensures
        opt_str_matches(r, scan_description(s@)),
    decreases s@.len(),
{
    let n = s.unicode_len();
    if n == 0 {
        return None;
    }
    let nl = find_char(s, '\n');
    let line = if nl > 0 && s.get_char(nl - 1) == '\r' {
        proof {
            assert(s@.subrange(0, nl as int).last() == s@[nl as int - 1]);
            assert(s@.subrange(0, nl as int).drop_last() =~= s@.subrange(0, nl as int - 1));
        }
        s.substring_char(0, nl - 1)
    } else {
        s.substring_char(0, nl)
    };
    proof {
        if nl == n {
            assert(s@.subrange(0, n as int) =~= s@);
            if n > 0 && s@.last() == '\r' {
                assert(s@.subrange(0, n as int - 1) =~= s@.drop_last());
            }
        }
    }
    match line_link_exec(line) {
        Some(u) => Some(u),
        None => {
            if nl < n {
                let rest = s.substring_char(nl + 1, n);
                scan_description_exec(rest)
            } else {
                None
            }
        },
    }
}

/// The joinable link of an entry, by the ordered heuristic: a conferencing
/// property, then a generic URL property, then the location, each taken only
/// when it starts with `http`; last, the first description line naming a
/// known conferencing domain.
pub open spec fn spec_video_link(props: Seq<PropertyView>) -> Option<Seq<char>> {
    let conf = spec_get_property(props, "X-GOOGLE-CONFERENCE"@);
    let url = spec_get_property(props, "URL"@);
    let loc = spec_get_property(props, "LOCATION"@);
    if starts_http(conf) {
        conf
    } else if starts_http(url) {
        url
    } else if starts_http(loc) {
        loc
    } else {
        match spec_get_property(props, "DESCRIPTION"@) {
            Some(d) => scan_description(d),
            None => None,
        }
    }
}

/// Link precedence: an entry whose conferencing property resolves — it is
/// present and starts with `http` — yields exactly that property's value,
/// whatever generic URL, location, or description it also carries.
pub proof fn lemma_conference_link_precedence(props: Seq<PropertyView>)
    requires
        starts_http(spec_get_property(props, "X-GOOGLE-CONFERENCE"@)),
    ensures
        spec_video_link(props) == spec_get_property(props, "X-GOOGLE-CONFERENCE"@),
{
}

pub fn get_video_link(event: &CalendarEntry) -> (r: Option<String>)
    ensures
        opt_str_matches(r, spec_video_link(event@.properties)),
{
    if let Some(u) = get_property(event, "X-GOOGLE-CONFERENCE") {
        if starts_with_str(u.as_str(), "http") {
            return Some(u);
        }
    }
    if let Some(u) = get_property(event, "URL") {
        if starts_with_str(u.as_str(), "http") {
            return Some(u);
        }
    }
    if let Some(u) = get_property(event, "LOCATION") {
        if starts_with_str(u.as_str(), "http") {
            return Some(u);
        }
    }
    match get_property(event, "DESCRIPTION") {
        Some(d) => scan_description_exec(d.as_str()),
        None => None,
    }
}

} // verus!
