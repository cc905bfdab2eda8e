use std::io::Write;

use logsieve::compression::{CompressionFormat, Decompressor};
use logsieve::error::ParseError;

fn gzip_compress(data: &[u8]) -> Vec<u8> {
    let mut encoder = flate2::write::GzEncoder::new(Vec::new(), flate2::Compression::default());
    encoder.write_all(data).unwrap();
    encoder.finish().unwrap()
}

fn zlib_compress(data: &[u8]) -> Vec<u8> {
    let mut encoder = flate2::write::ZlibEncoder::new(Vec::new(), flate2::Compression::default());
    encoder.write_all(data).unwrap();
    encoder.finish().unwrap()
}

#[test]
fn decode_none_is_identity() {
    let d = Decompressor::new(&CompressionFormat::NONE);
    let bytes: Vec<u8> = vec![0, 1, 2, 255, 254, 10, 13, 0];
    assert_eq!(d.decode(&bytes).unwrap(), bytes);
    let empty: Vec<u8> = Vec::new();
    assert_eq!(d.decode(&empty).unwrap(), empty);
}

#[test]
fn decode_lz4_and_tar_pass_through() {
    let bytes: Vec<u8> = vec![7, 8, 9, 200];
    let lz4 = Decompressor::new(&CompressionFormat::LZ4);
    assert_eq!(lz4.decode(&bytes).unwrap(), bytes);
    let tar = Decompressor::new(&CompressionFormat::TAR);
    assert_eq!(tar.decode(&bytes).unwrap(), bytes);
}

#[test]
fn decode_gzip_round_trip() {
    let original: Vec<u8> = b"hello gzip world\nwith lines\n".to_vec();
    let compressed = gzip_compress(&original);
    assert_ne!(compressed, original);
    let d = Decompressor::new(&CompressionFormat::GZIP);
    assert_eq!(d.decode(&compressed).unwrap(), original);
}

#[test]
fn decode_zlib_round_trip() {
    let original: Vec<u8> = vec![1, 2, 3, 4, 5, 6, 7, 8, 9, 10, 10, 10];
    let compressed = zlib_compress(&original);
    let d = Decompressor::new(&CompressionFormat::ZLIB);
    assert_eq!(d.decode(&compressed).unwrap(), original);
}

#[test]
fn decode_malformed_gzip_fails() {
    let d = Decompressor::new(&CompressionFormat::GZIP);
    let garbage: Vec<u8> = vec![1, 2, 3, 4];
    assert_eq!(d.decode(&garbage), Err(ParseError::DecodeFailed));
}

#[test]
fn decode_malformed_zlib_fails() {
    let d = Decompressor::new(&CompressionFormat::ZLIB);
    let garbage: Vec<u8> = vec![255, 255, 255, 255];
    assert_eq!(d.decode(&garbage), Err(ParseError::DecodeFailed));
}

#[test]
fn decode_zip_concatenates_entries_in_order() {
    let mut writer = zip::ZipWriter::new(std::io::Cursor::new(Vec::new()));
    let options = zip::write::SimpleFileOptions::default();
    writer.start_file("a.log", options).unwrap();
    writer.write_all(b"first entry\n").unwrap();
    writer.start_file("b.log", options).unwrap();
    writer.write_all(b"second entry\n").unwrap();
    let archive = writer.finish().unwrap().into_inner();

    let d = Decompressor::new(&CompressionFormat::ZIP);
    let decoded = d.decode(&archive).unwrap();
    assert_eq!(decoded, b"first entry\nsecond entry\n".to_vec());
}

#[test]
fn decode_malformed_zip_fails() {
    let d = Decompressor::new(&CompressionFormat::ZIP);
    let garbage: Vec<u8> = vec![80, 75, 1, 2, 3];
    assert_eq!(d.decode(&garbage), Err(ParseError::DecodeFailed));
}

#[test]
fn decompress_splits_on_line_feed_and_keeps_trailing_empty() {
    let d = Decompressor::new(&CompressionFormat::NONE);
    let bytes: Vec<u8> = b"a\nb\n".to_vec();
    let lines = d.decompress(&bytes).unwrap();
    assert_eq!(lines, vec!["a".to_string(), "b".to_string(), "".to_string()]);
    let single: Vec<u8> = b"no newline".to_vec();
    assert_eq!(d.decompress(&single).unwrap(), vec!["no newline".to_string()]);
    let empty: Vec<u8> = Vec::new();
    assert_eq!(d.decompress(&empty).unwrap(), vec!["".to_string()]);
}

#[test]
fn decompress_rejects_invalid_utf8() {
    let d = Decompressor::new(&CompressionFormat::NONE);
    let bytes: Vec<u8> = vec![0xff, 0xfe, 0x41];
    assert_eq!(d.decompress(&bytes), Err(ParseError::InvalidUtf8));
}
