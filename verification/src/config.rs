//! The parser configuration: regex source, glob pattern, compression
//! kind, timestamp interpretation mode, and an optional message filter.
//! Loaded once and treated as immutable for the lifetime of a parse run.

use vstd::prelude::*;

use crate::compression::{format_model, CompressionFormat};
use crate::error::ParseError;
use crate::num::{parse_i64, parse_i64_model};
use crate::text::{contains_sub, str_contains};

verus! {

pub struct ParserConfig {
    /// Calendar format for captured timestamps; empty means the capture is
    /// a base-10 signed epoch-seconds integer.
    pub timestamp_format: String,
    /// Substring filter; a match whose message contains it is dropped.
    /// Empty means no filtering.
    pub event_filter: String,
    pub compression: CompressionFormat,
    /// Regex source with the named groups timestamp, loglevel, message.
    pub message_pattern: String,
    /// Glob expanded under the root path to find candidate log files.
    pub logfile_pattern: String,
}

pub struct ConfigView {
    pub timestamp_format: Seq<char>,
    pub event_filter: Seq<char>,
    pub compression: CompressionFormat,
    pub message_pattern: Seq<char>,
    pub logfile_pattern: Seq<char>,
}

impl View for ParserConfig {
    type V = ConfigView;

    open spec fn view(&self) -> ConfigView {
        ConfigView {
            timestamp_format: self.timestamp_format@,
            event_filter: self.event_filter@,
            compression: self.compression,
            message_pattern: self.message_pattern@,
            logfile_pattern: self.logfile_pattern@,
        }
    }
}

/// A match is filtered out when a non-empty filter is configured and the
/// captured message contains it as a literal substring.
pub open spec fn filter_model(filter: Seq<char>, message: Seq<char>) -> bool {
    filter.len() > 0 && contains_sub(message, filter)
}

/// What parsing chrono-style formatted text yields as epoch seconds, or
/// nothing on a mismatch; a function of the text and the format alone.
pub uninterp spec fn datetime_epoch(text: Seq<char>, format: Seq<char>) -> Option<i64>;

/// Relies on chrono::DateTime::parse_from_str and DateTime::timestamp:
/// parses `text` against `format` (which must describe a UTC offset) and
/// converts the instant to epoch seconds; the result depends on the two
/// strings alone.
#[verifier::external_body]
fn parse_datetime_epoch(text: &str, format: &str) -> (r: Option<i64>)
    ensures
        r == datetime_epoch(text@, format@),
{
    match chrono::DateTime::parse_from_str(text, format) {
        Ok(dt) => Some(dt.timestamp()),
        Err(_) => None,
    }
}

/// What interpreting captured timestamp text yields: an empty format reads
/// the text as a base-10 signed 64-bit epoch integer, a non-empty format
/// parses the text as a calendar date and time.
pub open spec fn timestamp_model(format: Seq<char>, text: Seq<char>) -> Option<i64> {
    if format.len() == 0 {
        parse_i64_model(text)
    } else {
        datetime_epoch(text, format)
    }
}

/// Whether the pattern source is a valid regular expression.
pub uninterp spec fn regex_valid(pattern: Seq<char>) -> bool;

#[verifier::external_type_specification]
#[verifier::external_body]
pub struct ExRegex(regex::Regex);

/// The pattern contains all three required named capture groups, in either
/// of the spellings the regex syntax accepts.
pub open spec fn pattern_has_required_groups(p: Seq<char>) -> bool {
    &&& (contains_sub(p, "(?P<timestamp>"@) || contains_sub(p, "(?<timestamp>"@))
    &&& (contains_sub(p, "(?P<loglevel>"@) || contains_sub(p, "(?<loglevel>"@))
    &&& (contains_sub(p, "(?P<message>"@) || contains_sub(p, "(?<message>"@))
}

impl ParserConfig {
    /// An otherwise empty configuration with the given compression kind.
    pub fn new(compression: &str) -> (r: ParserConfig)
        ensures
            r@.compression == format_model(compression@),
            r@.timestamp_format.len() == 0,
            r@.event_filter.len() == 0,
            r@.message_pattern.len() == 0,
            r@.logfile_pattern.len() == 0,
    {
        ParserConfig {
            timestamp_format: String::new(),
            event_filter: String::new(),
            compression: CompressionFormat::from_text(compression),
            message_pattern: String::new(),
            logfile_pattern: String::new(),
        }
    }

    /// Whether a captured message is dropped by the configured filter.
    pub fn filter_event(&self, event: &str) -> (r: bool)
        ensures
            r == filter_model(self@.event_filter, event@),
    {
        if self.event_filter.as_str().is_empty() {
            false
        } else {
            str_contains(event, self.event_filter.as_str())
        }
    }

    /// Interprets captured timestamp text as epoch seconds, per the
    /// configured mode; unparseable text is a typed data error.
    pub fn read_timestamp(&self, datestring: &str) -> (r: Result<i64, ParseError>)
        ensures
            (match timestamp_model(self@.timestamp_format, datestring@) {
                Option::Some(v) => r matches Ok(t) && t == v,
                Option::None => r matches Err(e) && e == ParseError::InvalidTimestamp,
            }),
    {
        if self.timestamp_format.as_str().is_empty() {
            match parse_i64(datestring) {
                Some(v) => Ok(v),
                None => Err(ParseError::InvalidTimestamp),
            }
        } else {
            match parse_datetime_epoch(datestring, self.timestamp_format.as_str()) {
                Some(v) => Ok(v),
                None => Err(ParseError::InvalidTimestamp),
            }
        }
    }

    /// Relies on regex::Regex::new: compiles the message pattern, with a
    /// typed error for a pattern that is not a valid regular expression.
    #[verifier::external_body]
    pub fn compile_message_pattern(&self) -> (r: Result<regex::Regex, ParseError>)
        ensures
            r is Ok <==> regex_valid(self@.message_pattern),
            (r matches Err(e) ==> e == ParseError::InvalidRegex),
    {
        match regex::Regex::new(&self.message_pattern) {
            Ok(p) => Ok(p),
            Err(_) => Err(ParseError::InvalidRegex),
        }
    }

    /// Whether the message pattern holds the three required named capture
    /// groups `timestamp`, `loglevel` and `message`.
    pub fn check_message_pattern(&self) -> (r: bool)
        ensures
            r == pattern_has_required_groups(self@.message_pattern),
    {
        let p = self.message_pattern.as_str();
        (str_contains(p, "(?P<timestamp>") || str_contains(p, "(?<timestamp>")) && (str_contains(
            p,
            "(?P<loglevel>",
        ) || str_contains(p, "(?<loglevel>")) && (str_contains(p, "(?P<message>") || str_contains(
            p,
            "(?<message>",
        ))
    }
}

} // verus!
