//! The host configuration the scheduler runs under.

use vstd::prelude::*;

verus! {

/// The configuration the host reads at startup: the calendar feed URL;
/// optionally, the key for the hosted speech voice; and whether presence
/// (the user already being on a call) silences even the mandatory start
/// alert — an explicit choice the host makes, not a fixed policy.
pub struct Config {
    pub eleven_labs_key: Option<String>,
    pub ical_url: String,
    pub suppress_start_when_in_call: bool,
}

impl Config {
    /// A configuration with a feed URL, no speech key, and the start alert
    /// delivered regardless of presence.
    pub fn new(ical_url: String) -> (r: Config)
        ensures
            r.ical_url@ == ical_url@,
            r.eleven_labs_key is None,
            !r.suppress_start_when_in_call,
    {
        Config { eleven_labs_key: None, ical_url, suppress_start_when_in_call: false }
    }
}

} // verus!
