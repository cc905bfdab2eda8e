//! The event model: a structured record extracted from a single regex
//! match on a single log line, with a severity that falls back to Unknown.

use vstd::prelude::*;

use crate::text::{chars_eq_ignore_case, eq_ignore_ascii_case};

verus! {

#[derive(Clone, Copy, Debug, PartialEq, Eq, Structural)]
pub enum LogLevel {
    Debug,
    Info,
    Warning,
    Warn,
    Critical,
    Error,
    Unknown,
}

/// The severity a piece of text names, compared case-insensitively;
/// unrecognized text means Unknown, never an error.
pub open spec fn level_model(s: Seq<char>) -> LogLevel {
    if eq_ignore_ascii_case(s, "info"@) {
        LogLevel::Info
    } else if eq_ignore_ascii_case(s, "warning"@) {
        LogLevel::Warning
    } else if eq_ignore_ascii_case(s, "error"@) {
        LogLevel::Error
    } else if eq_ignore_ascii_case(s, "debug"@) {
        LogLevel::Debug
    } else if eq_ignore_ascii_case(s, "critical"@) {
        LogLevel::Critical
    } else if eq_ignore_ascii_case(s, "warn"@) {
        LogLevel::Warn
    } else {
        LogLevel::Unknown
    }
}

/// The display name of each severity.
pub open spec fn level_name(l: LogLevel) -> Seq<char> {
    match l {
        LogLevel::Debug => "Debug"@,
        LogLevel::Info => "Info"@,
        LogLevel::Warning => "Warning"@,
        LogLevel::Warn => "Warn"@,
        LogLevel::Critical => "Critical"@,
        LogLevel::Error => "Error"@,
        LogLevel::Unknown => "Unknown"@,
    }
}

impl LogLevel {
    /// Parses a severity name case-insensitively; unrecognized text yields
    /// Unknown, never an error.
    pub fn from_text(s: &str) -> (r: LogLevel)
        ensures
            r == level_model(s@),
    {
        if chars_eq_ignore_case(s, "info") {
            LogLevel::Info
        } else if chars_eq_ignore_case(s, "warning") {
            LogLevel::Warning
        } else if chars_eq_ignore_case(s, "error") {
            LogLevel::Error
        } else if chars_eq_ignore_case(s, "debug") {
            LogLevel::Debug
        } else if chars_eq_ignore_case(s, "critical") {
            LogLevel::Critical
        } else if chars_eq_ignore_case(s, "warn") {
            LogLevel::Warn
        } else {
            LogLevel::Unknown
        }
    }

    /// The variant's display name.
    pub fn name(&self) -> (r: &'static str)
        ensures
            r@ == level_name(*self),
    {
        match self {
            LogLevel::Debug => "Debug",
            LogLevel::Info => "Info",
            LogLevel::Warning => "Warning",
            LogLevel::Warn => "Warn",
            LogLevel::Critical => "Critical",
            LogLevel::Error => "Error",
            LogLevel::Unknown => "Unknown",
        }
    }
}

pub struct Event {
    pub timestamp: i64,
    pub message: String,
    pub level: LogLevel,
}

pub struct EventView {
    pub timestamp: i64,
    pub message: Seq<char>,
    pub level: LogLevel,
}

impl View for Event {
    type V = EventView;

    open spec fn view(&self) -> EventView {
        EventView { timestamp: self.timestamp, message: self.message@, level: self.level }
    }
}

impl Event {
    /// Builds an event from a parsed timestamp and the captured message
    /// and level text; the message is kept verbatim.
    pub fn new(timestamp: i64, message: &str, loglevel: &str) -> (r: Event)
        ensures
            r@ == (EventView { timestamp, message: message@, level: level_model(loglevel@) }),
    {
        Event {
            timestamp,
            message: String::from_str(message),
            level: LogLevel::from_text(loglevel),
        }
    }
}

/// The views of a sequence of events.
pub open spec fn event_views(v: Seq<Event>) -> Seq<EventView> {
    v.map_values(|e: Event| e@)
}

} // verus!
