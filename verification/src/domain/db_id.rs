//! Identifiers of rows, and the relay ids that clients see in their place.
//!
//! A relay id is the URL-safe base64 of the identifier's decimal text
//! followed by a suffix that names the kind of row.

use crate::domain::errors::MappingError;
use crate::encoding::{
    decode_error_text, url_safe_decode, url_safe_decoding, url_safe_encode, url_safe_encoding,
    utf8_error_text, utf8_text,
};
use crate::text::{
    chars_of, decimal_bytes, digits_of, is_digit, lemma_decimal_bytes_ascii,
    lemma_decimal_text_parses, lemma_trim_appended, parse_i32, parse_i32_chars,
    spec_decimal_bytes, spec_decimal_text, spec_parse_i32, trim_end, trim_end_chars,
    DecimalError,
};
use core::str::FromStr;
use vstd::prelude::*;
use vstd::string::StringSliceAdditionalSpecFns;
use vstd::utf8::{
    decode_utf8, encode_utf8, encode_utf8_decode_utf8, encode_utf8_valid_utf8, is_ascii_chars,
    is_ascii_chars_encode_utf8, valid_utf8,
};

verus! {

/// A database identifier.
#[derive(Debug, Clone, Copy, PartialEq, Eq, Structural, Hash)]
pub struct DbId(pub i32);

impl DbId {
    /// The raw number behind the identifier.
    pub fn get(&self) -> (raw: i32)
        ensures
            raw == self.0,
    {
        self.0
    }

    /// Reads an identifier from its decimal text.
    pub fn parse(s: &str) -> (id: Result<DbId, DecimalError>)
        ensures
            id == match spec_parse_i32(s@) {
                Ok(raw) => Ok::<DbId, DecimalError>(DbId(raw)),
                Err(e) => Err(e),
            },
    {
        match parse_i32(s) {
            Ok(raw) => Ok(DbId(raw)),
            Err(e) => Err(e),
        }
    }
}

impl core::ops::Deref for DbId {
    type Target = i32;

    fn deref(&self) -> (raw: &i32)
        ensures
            *raw == self.0,
    {
        &self.0
    }
}

impl From<i32> for DbId {
    fn from(raw: i32) -> (id: Self) {
        DbId(raw)
    }
}

impl vstd::std_specs::convert::FromSpecImpl<i32> for DbId {
    open spec fn obeys_from_spec() -> bool {
        true
    }

    open spec fn from_spec(raw: i32) -> Self {
        DbId(raw)
    }
}

impl FromStr for DbId {
    type Err = DecimalError;

    /// Reads an identifier from its decimal text, as [`DbId::parse`] does.
    fn from_str(s: &str) -> (id: Result<Self, Self::Err>)
        ensures
            id == match spec_parse_i32(s@) {
                Ok(raw) => Ok::<DbId, DecimalError>(DbId(raw)),
                Err(e) => Err(e),
            },
    {
        DbId::parse(s)
    }
}

/// Something that lives in a row of its own.
pub trait HasDbId {
    /// The identifier of the row, as a specification.
    spec fn spec_db_id(&self) -> DbId;

    /// The identifier of the row.
    fn db_id(&self) -> (id: DbId)
        ensures
            id == self.spec_db_id(),
    ;
}

/// The longest suffix, in bytes, that a relay id is built with.
pub const SUFFIX_LIMIT: usize = 0x100_0000;

/// The bytes that a relay id encodes: decimal text, then the suffix.
pub open spec fn spec_relay_bytes(id: DbId, suffix: Seq<u8>) -> Seq<u8> {
    spec_decimal_bytes(id.0) + suffix
}

/// The identifier that decoded relay id bytes stand for: the bytes are
/// UTF-8 text, and what is left of it once every copy of the suffix is taken
/// from its end is a decimal number. `None` stands for bytes that are no
/// text; `Err` holds why the rest is no number.
pub open spec fn spec_id_from_decoded(bytes: Seq<u8>, suffix: Seq<char>) -> Option<
    Result<DbId, DecimalError>,
> {
    if !valid_utf8(bytes) {
        None
    } else {
        Some(
            match spec_parse_i32(trim_end(decode_utf8(bytes), suffix)) {
                Ok(raw) => Ok(DbId(raw)),
                Err(e) => Err(e),
            },
        )
    }
}

/// Whether `outcome` is what decoding must give for `expected`: the
/// identifier, or a relay id error whose cause is the number error's text.
/// Where the bytes were no text, any relay id error will do.
pub open spec fn decoded_as(
    outcome: Result<DbId, MappingError>,
    expected: Option<Result<DbId, DecimalError>>,
) -> bool {
    match expected {
        Some(Ok(id)) => outcome == Ok::<DbId, MappingError>(id),
        Some(Err(e)) => outcome matches Err(MappingError::DecodeRelayId(cause)) && cause@
            == e.spec_to_string(),
        None => outcome is Err,
    }
}

/// Encoding a text piece by piece gives the encoding of the whole.
pub proof fn lemma_encode_utf8_concat(a: Seq<char>, b: Seq<char>)
    ensures
        encode_utf8(a + b) == encode_utf8(a) + encode_utf8(b),
    decreases a.len(),
{
    if a.len() == 0 {
        assert(a + b =~= b);
        assert(encode_utf8(a) + encode_utf8(b) =~= encode_utf8(b));
    } else {
        lemma_encode_utf8_concat(a.drop_first(), b);
        assert((a + b).drop_first() =~= a.drop_first() + b);
        assert((a + b)[0] == a[0]);
        assert(encode_utf8(a + b) =~= encode_utf8(a) + encode_utf8(b));
    }
}

/// A relay id reads back as the identifier it was made from, whatever the
/// suffix, as long as the suffix does not end in a digit.
pub proof fn lemma_relay_id_round_trip(id: DbId, suffix: Seq<char>)
    requires
        suffix.len() == 0 || !is_digit(suffix.last()),
    ensures
        spec_id_from_decoded(spec_relay_bytes(id, encode_utf8(suffix)), suffix) == Some(
            Ok::<DbId, DecimalError>(id),
        ),
{
    let digits = spec_decimal_bytes(id.0);
    let text = spec_decimal_text(id.0);
    lemma_decimal_text_parses(id.0);
    assert(is_ascii_chars(text)) by {
        reveal_with_fuel(digits_of, 1);
        assert forall|i: int| 0 <= i < text.len() implies '\0' <= #[trigger] text[i]
            <= '\u{7f}' by {
            lemma_decimal_bytes_ascii(id.0, i);
        }
    }
    is_ascii_chars_encode_utf8(text);
    assert(encode_utf8(text) =~= digits) by {
        assert forall|i: int| 0 <= i < digits.len() implies encode_utf8(text)[i] == digits[i] by {
            lemma_decimal_bytes_ascii(id.0, i);
            assert(text[i] as u8 == encode_utf8(text)[i]);
        }
    }
    lemma_encode_utf8_concat(text, suffix);
    encode_utf8_valid_utf8(text + suffix);
    encode_utf8_decode_utf8(text + suffix);
    lemma_trim_appended(text, suffix);
}

/// The relay id of `id` for rows of the kind that `suffix` names.
pub fn relay_id(id: DbId, suffix: &str) -> (text: String)
    requires
        suffix.spec_bytes().len() <= SUFFIX_LIMIT,
    ensures
        text@ == url_safe_encoding(spec_relay_bytes(id, suffix.spec_bytes())),
        url_safe_decoding(text@) == Some(spec_relay_bytes(id, suffix.spec_bytes())),
{
    let mut bytes: Vec<u8> = decimal_bytes(id.0);
    let tail: &[u8] = suffix.as_bytes();
    let ghost head: Seq<u8> = bytes@;
    let mut i: usize = 0;
    while i < tail.len()
        invariant
            i <= tail@.len(),
            tail@ == suffix.spec_bytes(),
            bytes@ == head + tail@.take(i as int),
        decreases tail.len() - i,
    {
        bytes.push(tail[i]);
        proof {
            assert(tail@.take(i + 1) =~= tail@.take(i as int).push(tail@[i as int]));
            assert(bytes@ =~= head + tail@.take(i + 1));
        }
        i += 1;
    }
    proof {
        assert(tail@.take(tail@.len() as int) =~= tail@);
    }
    url_safe_encode(&bytes)
}

/// Reads an identifier from the bytes that a relay id decoded to.
pub fn id_from_decoded(bytes: &Vec<u8>, suffix: &str) -> (id: Result<DbId, MappingError>)
    ensures
        decoded_as(id, spec_id_from_decoded(bytes@, suffix@)),
{
    match utf8_text(bytes) {
        Err(e) => Err(MappingError::decode_relay_id(utf8_error_text(&e))),
        Ok(text) => {
            let chars: Vec<char> = chars_of(text);
            let tail: Vec<char> = chars_of(suffix);
            let trimmed: Vec<char> = trim_end_chars(chars, &tail);
            match parse_i32_chars(&trimmed) {
                Ok(raw) => Ok(DbId(raw)),
                Err(e) => Err(MappingError::decode_relay_id(e.to_string())),
            }
        },
    }
}

/// Reads an identifier from a relay id of the kind that `suffix` names.
pub fn decode_with_suffix(relay_id: &str, suffix: &str) -> (id: Result<DbId, MappingError>)
    ensures
        match url_safe_decoding(relay_id@) {
            Some(bytes) => decoded_as(id, spec_id_from_decoded(bytes, suffix@)),
            None => id is Err,
        },
{
    match url_safe_decode(relay_id) {
        Err(e) => Err(MappingError::decode_relay_id(decode_error_text(&e))),
        Ok(bytes) => id_from_decoded(&bytes, suffix),
    }
}

/// A kind of row whose relay ids can be read back.
pub trait CanDecodeId {
    /// The suffix that marks relay ids of this kind.
    spec fn spec_suffix() -> Seq<char>;

    /// Reads an identifier from a relay id of this kind.
    fn decode(relay_id: &str) -> (id: Result<DbId, MappingError>)
        ensures
            match url_safe_decoding(relay_id@) {
                Some(bytes) => decoded_as(id, spec_id_from_decoded(bytes, Self::spec_suffix())),
                None => id is Err,
            },
    ;
}

} // verus!
