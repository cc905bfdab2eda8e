use logsieve::compression::CompressionFormat;
use logsieve::config::ParserConfig;
use logsieve::error::ParseError;

fn config_with(
    timestamp_format: &str,
    event_filter: &str,
    compression: &str,
    message_pattern: &str,
    logfile_pattern: &str,
) -> ParserConfig {
    ParserConfig {
        timestamp_format: timestamp_format.to_string(),
        event_filter: event_filter.to_string(),
        compression: CompressionFormat::from_text(compression),
        message_pattern: message_pattern.to_string(),
        logfile_pattern: logfile_pattern.to_string(),
    }
}

#[test]
fn new_config_parses_compression_and_is_empty() {
    let c = ParserConfig::new("gzip");
    assert_eq!(c.compression, CompressionFormat::GZIP);
    assert_eq!(c.timestamp_format, "");
    assert_eq!(c.event_filter, "");
    assert_eq!(c.message_pattern, "");
    assert_eq!(c.logfile_pattern, "");
    let d = ParserConfig::new("unheard-of");
    assert_eq!(d.compression, CompressionFormat::NONE);
}

#[test]
fn filter_event_literal_containment() {
    let c = config_with("", "secret", "none", "", "");
    assert!(c.filter_event("this is secret stuff"));
    assert!(c.filter_event("secret"));
    assert!(!c.filter_event("nothing to hide"));
    assert!(!c.filter_event(""));
}

#[test]
fn empty_filter_drops_nothing() {
    let c = config_with("", "", "none", "", "");
    assert!(!c.filter_event("anything at all"));
    assert!(!c.filter_event(""));
}

#[test]
fn read_timestamp_epoch_integers() {
    let c = config_with("", "", "none", "", "");
    assert_eq!(c.read_timestamp("1577836800"), Ok(1577836800));
    assert_eq!(c.read_timestamp("0"), Ok(0));
    assert_eq!(c.read_timestamp("-5"), Ok(-5));
    assert_eq!(c.read_timestamp("+7"), Ok(7));
    assert_eq!(c.read_timestamp("007"), Ok(7));
    assert_eq!(c.read_timestamp("9223372036854775807"), Ok(i64::MAX));
    assert_eq!(c.read_timestamp("-9223372036854775808"), Ok(i64::MIN));
}

#[test]
fn read_timestamp_rejects_bad_epoch_text() {
    let c = config_with("", "", "none", "", "");
    assert_eq!(c.read_timestamp(""), Err(ParseError::InvalidTimestamp));
    assert_eq!(c.read_timestamp("abc"), Err(ParseError::InvalidTimestamp));
    assert_eq!(c.read_timestamp("12a"), Err(ParseError::InvalidTimestamp));
    assert_eq!(c.read_timestamp("-"), Err(ParseError::InvalidTimestamp));
    assert_eq!(c.read_timestamp("+"), Err(ParseError::InvalidTimestamp));
    assert_eq!(c.read_timestamp(" 5"), Err(ParseError::InvalidTimestamp));
    assert_eq!(c.read_timestamp("9223372036854775808"), Err(ParseError::InvalidTimestamp));
    assert_eq!(c.read_timestamp("-9223372036854775809"), Err(ParseError::InvalidTimestamp));
    assert_eq!(
        c.read_timestamp("99999999999999999999999999"),
        Err(ParseError::InvalidTimestamp)
    );
}

#[test]
fn read_timestamp_calendar_format() {
    let c = config_with("%Y-%m-%d %H:%M:%S %z", "", "none", "", "");
    assert_eq!(c.read_timestamp("2020-01-01 00:00:00 +0000"), Ok(1577836800));
    assert_eq!(c.read_timestamp("2020-01-01 01:00:00 +0100"), Ok(1577836800));
    assert_eq!(c.read_timestamp("not a date"), Err(ParseError::InvalidTimestamp));
}

#[test]
fn read_timestamp_rfc3339_format() {
    let c = config_with("%+", "", "none", "", "");
    assert_eq!(c.read_timestamp("2020-01-01T00:00:00Z"), Ok(1577836800));
}

#[test]
fn compile_message_pattern_reports_invalid_regex() {
    let ok = config_with("", "", "none", r"(?P<timestamp>\d+)", "");
    let compiled = ok.compile_message_pattern().unwrap();
    assert!(compiled.is_match("17"));
    let bad = config_with("", "", "none", r"(unclosed", "");
    assert!(matches!(bad.compile_message_pattern(), Err(ParseError::InvalidRegex)));
}

#[test]
fn check_message_pattern_requires_three_named_groups() {
    let ok = config_with(
        "",
        "",
        "none",
        r"(?P<timestamp>\S+) (?P<loglevel>\S+) (?P<message>.*)",
        "",
    );
    assert!(ok.check_message_pattern());
    let unnamed = config_with("", "", "none", r"(\S+) (\S+) (.*)", "");
    assert!(!unnamed.check_message_pattern());
    let two = config_with("", "", "none", r"(?P<timestamp>\S+) (?P<message>.*)", "");
    assert!(!two.check_message_pattern());
    let alt = config_with(
        "",
        "",
        "none",
        r"(?<timestamp>\S+) (?<loglevel>\S+) (?<message>.*)",
        "",
    );
    assert!(alt.check_message_pattern());
}
