use logsieve::compression::CompressionFormat;
use logsieve::event::LogLevel;

#[test]
fn format_gzip_case_variations() {
    assert_eq!(CompressionFormat::from_text("gzip"), CompressionFormat::GZIP);
    assert_eq!(CompressionFormat::from_text("GZIP"), CompressionFormat::GZIP);
    assert_eq!(CompressionFormat::from_text("GZip"), CompressionFormat::GZIP);
    assert_eq!(CompressionFormat::from_text("gZiP"), CompressionFormat::GZIP);
}

#[test]
fn format_tar_case_variations() {
    assert_eq!(CompressionFormat::from_text("tar"), CompressionFormat::TAR);
    assert_eq!(CompressionFormat::from_text("TAR"), CompressionFormat::TAR);
    assert_eq!(CompressionFormat::from_text("Tar"), CompressionFormat::TAR);
}

#[test]
fn format_zip_lz4_zlib_none_case_variations() {
    assert_eq!(CompressionFormat::from_text("zip"), CompressionFormat::ZIP);
    assert_eq!(CompressionFormat::from_text("Zip"), CompressionFormat::ZIP);
    assert_eq!(CompressionFormat::from_text("lz4"), CompressionFormat::LZ4);
    assert_eq!(CompressionFormat::from_text("LZ4"), CompressionFormat::LZ4);
    assert_eq!(CompressionFormat::from_text("zlib"), CompressionFormat::ZLIB);
    assert_eq!(CompressionFormat::from_text("Zlib"), CompressionFormat::ZLIB);
    assert_eq!(CompressionFormat::from_text("none"), CompressionFormat::NONE);
    assert_eq!(CompressionFormat::from_text("NoNe"), CompressionFormat::NONE);
}

#[test]
fn format_unrecognized_text_yields_none() {
    assert_eq!(CompressionFormat::from_text(""), CompressionFormat::NONE);
    assert_eq!(CompressionFormat::from_text("bogus"), CompressionFormat::NONE);
    assert_eq!(CompressionFormat::from_text("gzipp"), CompressionFormat::NONE);
    assert_eq!(CompressionFormat::from_text("zi p"), CompressionFormat::NONE);
}

#[test]
fn level_known_tokens_case_insensitive() {
    assert_eq!(LogLevel::from_text("info"), LogLevel::Info);
    assert_eq!(LogLevel::from_text("INFO"), LogLevel::Info);
    assert_eq!(LogLevel::from_text("Warning"), LogLevel::Warning);
    assert_eq!(LogLevel::from_text("warn"), LogLevel::Warn);
    assert_eq!(LogLevel::from_text("WARN"), LogLevel::Warn);
    assert_eq!(LogLevel::from_text("ERROR"), LogLevel::Error);
    assert_eq!(LogLevel::from_text("debug"), LogLevel::Debug);
    assert_eq!(LogLevel::from_text("CriTicaL"), LogLevel::Critical);
}

#[test]
fn level_unrecognized_token_yields_unknown() {
    assert_eq!(LogLevel::from_text("trace"), LogLevel::Unknown);
    assert_eq!(LogLevel::from_text(""), LogLevel::Unknown);
    assert_eq!(LogLevel::from_text("information"), LogLevel::Unknown);
}

#[test]
fn level_names() {
    assert_eq!(LogLevel::Info.name(), "Info");
    assert_eq!(LogLevel::Unknown.name(), "Unknown");
    assert_eq!(LogLevel::Critical.name(), "Critical");
}
