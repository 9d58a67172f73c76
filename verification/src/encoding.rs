//! Byte-level encodings: URL-safe base64 and little-endian integers.

use base64::DecodeError;
use core::str::Utf8Error;
use vstd::prelude::*;
use vstd::utf8::{decode_utf8, valid_utf8};

verus! {

/// Failure of a base64 decoding, as the base64 crate reports it; opaque to
/// the verifier.
#[verifier::external_type_specification]
#[verifier::external_body]
pub struct ExDecodeError(DecodeError);

/// The padded URL-safe base64 text of `bytes`.
pub uninterp spec fn url_safe_encoding(bytes: Seq<u8>) -> Seq<char>;

/// The bytes that padded URL-safe base64 `text` stands for, if it is well
/// formed.
pub uninterp spec fn url_safe_decoding(text: Seq<char>) -> Option<Seq<u8>>;

/// The longest input handed to the encoder; its output then fits any
/// allocation.
pub const ENCODE_LIMIT: usize = 0x1000_0000;

/// Encodes with the base64 crate's `URL_SAFE` engine (`Engine::encode`).
///
/// Claimed: the result is a function of the input alone, and decoding it with
/// the same engine gives the input back. The encoder panics only where the
/// output length overflows, which the bound on the input excludes.
#[verifier::external_body]
pub(crate) fn url_safe_encode(bytes: &Vec<u8>) -> (text: String)
    requires
        bytes@.len() <= ENCODE_LIMIT,
    ensures
        text@ == url_safe_encoding(bytes@),
        url_safe_decoding(text@) == Some(bytes@),
{
    base64::Engine::encode(&base64::engine::general_purpose::URL_SAFE, bytes)
}

/// Decodes with the base64 crate's `URL_SAFE` engine (`Engine::decode`).
///
/// Claimed: whether it succeeds, and with which bytes, is a function of the
/// input alone.
#[verifier::external_body]
pub(crate) fn url_safe_decode(text: &str) -> (decoded: Result<Vec<u8>, DecodeError>)
    ensures
        match url_safe_decoding(text@) {
            Some(bytes) => decoded matches Ok(found) && found@ == bytes,
            None => decoded is Err,
        },
{
    base64::Engine::decode(&base64::engine::general_purpose::URL_SAFE, text)
}

/// The base64 crate's description of a decoding failure (its `Display`).
/// Nothing is claimed about the wording.
#[verifier::external_body]
pub(crate) fn decode_error_text(error: &DecodeError) -> String {
    error.to_string()
}

/// Failure of a UTF-8 check, as the standard library reports it; opaque to
/// the verifier.
#[verifier::external_type_specification]
#[verifier::external_body]
pub struct ExUtf8Error(Utf8Error);

/// Reads bytes as text with the standard library's `core::str::from_utf8`.
///
/// Claimed: it succeeds exactly on well-formed UTF-8, and the text is then
/// what the bytes decode to.
#[verifier::external_body]
pub(crate) fn utf8_text(bytes: &Vec<u8>) -> (text: Result<&str, Utf8Error>)
    ensures
        text is Ok <==> valid_utf8(bytes@),
        text matches Ok(found) ==> found@ == decode_utf8(bytes@),
{
    core::str::from_utf8(bytes)
}

/// The standard library's description of a UTF-8 failure (its `Display`).
/// Nothing is claimed about the wording.
#[verifier::external_body]
pub(crate) fn utf8_error_text(error: &Utf8Error) -> String {
    error.to_string()
}

/// The unsigned 32-bit pattern of `value` in two's complement.
pub open spec fn pattern_of(value: i32) -> int {
    if value < 0 {
        value + 0x1_0000_0000
    } else {
        value as int
    }
}

/// The four bytes of `value`, least significant first.
pub open spec fn spec_le_bytes(value: i32) -> Seq<u8> {
    let pattern = pattern_of(value);
    seq![
        (pattern % 256) as u8,
        ((pattern / 0x100) % 256) as u8,
        ((pattern / 0x1_0000) % 256) as u8,
        ((pattern / 0x100_0000) % 256) as u8,
    ]
}

/// The value whose bytes, least significant first, are the first four of
/// `bytes`.
pub open spec fn spec_from_le_bytes(bytes: Seq<u8>) -> i32 {
    let pattern = bytes[0] + 0x100 * bytes[1] + 0x1_0000 * bytes[2] + 0x100_0000 * bytes[3];
    if pattern >= 0x8000_0000 {
        (pattern - 0x1_0000_0000) as i32
    } else {
        pattern as i32
    }
}

/// The four bytes of `value`, least significant first.
pub fn le_bytes(value: i32) -> (bytes: Vec<u8>)
    ensures
        bytes@ == spec_le_bytes(value),
{
    let wide: i64 = value as i64;
    let pattern: i64 = if wide < 0 {
        wide + 0x1_0000_0000
    } else {
        wide
    };
    let mut bytes: Vec<u8> = Vec::with_capacity(4);
    bytes.push((pattern % 256) as u8);
    bytes.push(((pattern / 0x100) % 256) as u8);
    bytes.push(((pattern / 0x1_0000) % 256) as u8);
    bytes.push(((pattern / 0x100_0000) % 256) as u8);
    proof {
        assert(bytes@ =~= spec_le_bytes(value));
    }
    bytes
}

/// Reads four bytes, least significant first, as a signed value.
pub fn from_le_bytes(bytes: &Vec<u8>) -> (value: i32)
    requires
        bytes@.len() == 4,
    ensures
        value == spec_from_le_bytes(bytes@),
{
    let pattern: i64 = bytes[0] as i64 + 0x100 * (bytes[1] as i64) + 0x1_0000 * (bytes[2] as i64)
        + 0x100_0000 * (bytes[3] as i64);
    if pattern >= 0x8000_0000 {
        (pattern - 0x1_0000_0000) as i32
    } else {
        pattern as i32
    }
}

/// Writing a value as bytes and reading them back gives the value.
pub proof fn lemma_le_bytes_round_trip(value: i32)
    ensures
        spec_le_bytes(value).len() == 4,
        spec_from_le_bytes(spec_le_bytes(value)) == value,
{
    let pattern = pattern_of(value);
    let b0 = pattern % 256;
    let b1 = (pattern / 0x100) % 256;
    let b2 = (pattern / 0x1_0000) % 256;
    let b3 = (pattern / 0x100_0000) % 256;
    assert(0 <= pattern < 0x1_0000_0000);
    assert(b0 + 0x100 * b1 + 0x1_0000 * b2 + 0x100_0000 * b3 == pattern);
}

} // verus!
