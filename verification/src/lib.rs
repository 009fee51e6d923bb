//! Calendar-driven call-start detection and adaptive notification scheduling.
//!
//! The crate normalizes calendar entries to absolute instants, extracts
//! joinable video-call links, selects the next relevant call, computes an
//! adaptive poll wait, and drives a reminder state machine once a call has
//! started. All logic is verified; the host process supplies I/O (feed
//! fetching, notification delivery, speech, presence sensing).

pub mod config;
pub mod datetime;
pub mod ical;
pub mod ics;
pub mod logic;
pub mod normalize;
pub mod reminder;
pub mod say;
pub mod source;
pub mod strutil;
pub mod tz;
