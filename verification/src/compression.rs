//! Compression dispatch: a declared format maps to a byte-decoding
//! operation. NONE, LZ4 and TAR pass bytes through unchanged by design;
//! GZIP and ZLIB inflate through flate2; ZIP concatenates every entry of
//! the archive in enumeration order through the zip crate.

use vstd::prelude::*;
use vstd::utf8::{decode_utf8, valid_utf8};

use crate::error::ParseError;
use crate::text::{chars_eq_ignore_case, eq_ignore_ascii_case, line_views, split_into_lines,
    split_lines};

verus! {

#[derive(Clone, Copy, Debug, PartialEq, Eq, Structural)]
pub enum CompressionFormat {
    GZIP,
    TAR,
    ZIP,
    LZ4,
    ZLIB,
    NONE,
}

/// The format a piece of text names, compared case-insensitively;
/// unrecognized text means no compression, never an error.
pub open spec fn format_model(s: Seq<char>) -> CompressionFormat {
    if eq_ignore_ascii_case(s, "lz4"@) {
        CompressionFormat::LZ4
    } else if eq_ignore_ascii_case(s, "tar"@) {
        CompressionFormat::TAR
    } else if eq_ignore_ascii_case(s, "zip"@) {
        CompressionFormat::ZIP
    } else if eq_ignore_ascii_case(s, "gzip"@) {
        CompressionFormat::GZIP
    } else if eq_ignore_ascii_case(s, "zlib"@) {
        CompressionFormat::ZLIB
    } else {
        CompressionFormat::NONE
    }
}

impl CompressionFormat {
    /// Parses a format name case-insensitively; unrecognized text yields
    /// NONE, never an error.
    pub fn from_text(s: &str) -> (r: CompressionFormat)
        ensures
            r == format_model(s@),
    {
        if chars_eq_ignore_case(s, "lz4") {
            CompressionFormat::LZ4
        } else if chars_eq_ignore_case(s, "tar") {
            CompressionFormat::TAR
        } else if chars_eq_ignore_case(s, "zip") {
            CompressionFormat::ZIP
        } else if chars_eq_ignore_case(s, "gzip") {
            CompressionFormat::GZIP
        } else if chars_eq_ignore_case(s, "zlib") {
            CompressionFormat::ZLIB
        } else {
            CompressionFormat::NONE
        }
    }
}

/// What inflating a gzip stream yields, or nothing when the stream is
/// malformed.
pub uninterp spec fn gzip_inflate(b: Seq<u8>) -> Option<Seq<u8>>;

/// What inflating a raw zlib stream yields, or nothing when the stream is
/// malformed.
pub uninterp spec fn zlib_inflate(b: Seq<u8>) -> Option<Seq<u8>>;

/// The concatenation of the decoded bytes of every entry of a zip archive,
/// in archive enumeration order, or nothing when the archive is malformed.
pub uninterp spec fn zip_concat(b: Seq<u8>) -> Option<Seq<u8>>;

/// Relies on flate2::read::GzDecoder: whole-buffer gzip inflate (header
/// plus deflate stream), failing on a malformed stream.
#[verifier::external_body]
fn inflate_gzip(bytes: &Vec<u8>) -> (r: Option<Vec<u8>>)
    ensures
        (match r {
            Some(v) => gzip_inflate(bytes@) == Some(v@),
            None => gzip_inflate(bytes@) is None,
        }),
{
    let mut out = Vec::new();
    let mut decoder = flate2::read::GzDecoder::new(bytes.as_slice());
    match std::io::Read::read_to_end(&mut decoder, &mut out) {
        Ok(_) => Some(out),
        Err(_) => None,
    }
}

/// Relies on flate2::read::ZlibDecoder: whole-buffer raw-zlib inflate,
/// failing on a malformed stream.
#[verifier::external_body]
fn inflate_zlib(bytes: &Vec<u8>) -> (r: Option<Vec<u8>>)
    ensures
        (match r {
            Some(v) => zlib_inflate(bytes@) == Some(v@),
            None => zlib_inflate(bytes@) is None,
        }),
{
    let mut out = Vec::new();
    let mut decoder = flate2::read::ZlibDecoder::new(bytes.as_slice());
    match std::io::Read::read_to_end(&mut decoder, &mut out) {
        Ok(_) => Some(out),
        Err(_) => None,
    }
}

/// Relies on zip::ZipArchive (new, len, by_index) and Read::read_to_end:
/// every entry of the archive is read and its decoded bytes appended, in
/// archive enumeration order.
#[verifier::external_body]
fn read_zip_concat(bytes: &Vec<u8>) -> (r: Option<Vec<u8>>)
    ensures
        (match r {
            Some(v) => zip_concat(bytes@) == Some(v@),
            None => zip_concat(bytes@) is None,
        }),
{
    let reader = std::io::Cursor::new(bytes.clone());
    let mut archive = zip::ZipArchive::new(reader).ok()?;
    let mut out: Vec<u8> = Vec::new();
    for index in 0..archive.len() {
        let mut entry = archive.by_index(index).ok()?;
        std::io::Read::read_to_end(&mut entry, &mut out).ok()?;
    }
    Some(out)
}

/// What decoding bytes declared as `fmt` yields: GZIP and ZLIB inflate,
/// ZIP concatenates its entries, and every other kind passes the bytes
/// through unchanged; `None` is a decode failure.
pub open spec fn decode_model(fmt: CompressionFormat, b: Seq<u8>) -> Option<Seq<u8>> {
    match fmt {
        CompressionFormat::GZIP => gzip_inflate(b),
        CompressionFormat::ZLIB => zlib_inflate(b),
        CompressionFormat::ZIP => zip_concat(b),
        CompressionFormat::TAR => Some(b),
        CompressionFormat::LZ4 => Some(b),
        CompressionFormat::NONE => Some(b),
    }
}

/// What turning raw file bytes into text lines yields: decode, then UTF-8,
/// then a split on the line feed character.
pub open spec fn decompress_model(fmt: CompressionFormat, raw: Seq<u8>) -> Result<
    Seq<Seq<char>>,
    ParseError,
> {
    match decode_model(fmt, raw) {
        Option::None => Result::Err(ParseError::DecodeFailed),
        Option::Some(b) => if valid_utf8(b) {
            Result::Ok(split_lines(decode_utf8(b)))
        } else {
            Result::Err(ParseError::InvalidUtf8)
        },
    }
}

/// Relies on String::from_utf8: decodes bytes as UTF-8, rejecting exactly
/// the sequences that are not valid UTF-8.
#[verifier::external_body]
fn utf8_to_string(bytes: &Vec<u8>) -> (r: Option<String>)
    ensures
        (match r {
            Some(s) => valid_utf8(bytes@) && s@ == decode_utf8(bytes@),
            None => !valid_utf8(bytes@),
        }),
{
    match String::from_utf8(bytes.clone()) {
        Ok(s) => Some(s),
        Err(_) => None,
    }
}

/// LZ4 passes through unchanged: no real codec, a documented limitation.
fn decompress_lz4(bytes: &Vec<u8>) -> (r: Vec<u8>)
    ensures
        r@ == bytes@,
{
    bytes.clone()
}

/// Identity pass-through for NONE, TAR and unrecognized kinds.
fn decompress_dummy(bytes: &Vec<u8>) -> (r: Vec<u8>)
    ensures
        r@ == bytes@,
{
    bytes.clone()
}

#[derive(Clone, Copy, Debug, PartialEq, Eq, Structural)]
pub struct Decompressor {
    pub compression: CompressionFormat,
}

impl Decompressor {
    pub fn new(algo: &CompressionFormat) -> (r: Decompressor)
        ensures
            r.compression == *algo,
    {
        Decompressor { compression: *algo }
    }

    /// Decodes a whole in-memory buffer according to the declared format.
    pub fn decode(&self, bytes: &Vec<u8>) -> (r: Result<Vec<u8>, ParseError>)
        ensures
            (match r {
                Result::Ok(v) => decode_model(self.compression, bytes@) == Some(v@),
                Result::Err(e) => decode_model(self.compression, bytes@) is None && e
                    == ParseError::DecodeFailed,
            }),
    {
        match self.compression {
            CompressionFormat::LZ4 => Ok(decompress_lz4(bytes)),
            CompressionFormat::TAR => Ok(decompress_dummy(bytes)),
            CompressionFormat::NONE => Ok(decompress_dummy(bytes)),
            CompressionFormat::GZIP => match inflate_gzip(bytes) {
                Some(v) => Ok(v),
                None => Err(ParseError::DecodeFailed),
            },
            CompressionFormat::ZLIB => match inflate_zlib(bytes) {
                Some(v) => Ok(v),
                None => Err(ParseError::DecodeFailed),
            },
            CompressionFormat::ZIP => match read_zip_concat(bytes) {
                Some(v) => Ok(v),
                None => Err(ParseError::DecodeFailed),
            },
        }
    }

    /// Decodes a buffer and splits the resulting UTF-8 text into lines.
    pub fn decompress(&self, bytes: &Vec<u8>) -> (r: Result<Vec<String>, ParseError>)
        ensures
            (match decompress_model(self.compression, bytes@) {
                Result::Ok(ls) => r matches Ok(v) && line_views(v@) == ls,
                Result::Err(e) => r matches Err(e2) && e2 == e,
            }),
    {
        let decoded = match self.decode(bytes) {
            Ok(v) => v,
            Err(e) => {
                return Err(e);
            },
        };
        let text = match utf8_to_string(&decoded) {
            Some(s) => s,
            None => {
                return Err(ParseError::InvalidUtf8);
            },
        };
        Ok(split_into_lines(text.as_str()))
    }
}

/// Identity law: with no compression declared, decoding returns the bytes
/// unchanged.
pub proof fn lemma_decode_none_identity(b: Seq<u8>)
    ensures
        decode_model(CompressionFormat::NONE, b) == Some(b),
{
}

/// LZ4 and TAR are identity pass-throughs by design; callers must not
/// assume actual extraction for these kinds.
pub proof fn lemma_decode_passthrough(b: Seq<u8>)
    ensures
        decode_model(CompressionFormat::LZ4, b) == Some(b),
        decode_model(CompressionFormat::TAR, b) == Some(b),
{
}

/// Round-trip law: any bytes that gzip-inflate back to `x` decode to
/// exactly `x` under the GZIP kind; in particular a gzip compression of
/// `x` does.
pub proof fn lemma_gzip_round_trip(x: Seq<u8>, c: Seq<u8>)
    requires
        gzip_inflate(c) == Some(x),
    ensures
        decode_model(CompressionFormat::GZIP, c) == Some(x),
{
}

/// Round-trip law for ZLIB, as for GZIP.
pub proof fn lemma_zlib_round_trip(x: Seq<u8>, c: Seq<u8>)
    requires
        zlib_inflate(c) == Some(x),
    ensures
        decode_model(CompressionFormat::ZLIB, c) == Some(x),
{
}

} // verus!
