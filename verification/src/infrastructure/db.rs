//! Settings of the database connection, as far as they need reading.

use crate::text::{chars_of, parse_i32_chars, spec_parse_i32};
use vstd::prelude::*;
use vstd::string::StringExecFns;

verus! {

/// What is said about a port setting that is no port.
pub const INVALID_PORT: &'static str = "Invalid port: ";

/// The port that a setting names: a decimal number from 0 to 65535, with or
/// without a plus sign in front. A minus sign is never accepted, not even
/// before zero.
pub open spec fn spec_parse_port(text: Seq<char>) -> Option<u16> {
    if text.len() > 0 && text[0] == '-' {
        None
    } else {
        match spec_parse_i32(text) {
            Ok(number) => if number <= 0xffff {
                Some(number as u16)
            } else {
                None
            },
            Err(_) => None,
        }
    }
}

/// Reads the port from its setting; a setting that is no port is reported
/// together with what it held.
pub fn parse_port(text: &str) -> (port: Result<u16, String>)
    ensures
        match spec_parse_port(text@) {
            Some(number) => port == Ok::<u16, String>(number),
            None => port matches Err(message) && message@ == INVALID_PORT@ + text@,
        },
{
    let chars: Vec<char> = chars_of(text);
    if chars.len() > 0 && chars[0] == '-' {
        return Err(String::from_str(INVALID_PORT).concat(text));
    }
    match parse_i32_chars(&chars) {
        Ok(number) => {
            if number <= 0xffff {
                proof {
                    crate::text::lemma_unsigned_text(chars@);
                }
                Ok(number as u16)
            } else {
                Err(String::from_str(INVALID_PORT).concat(text))
            }
        },
        Err(_) => Err(String::from_str(INVALID_PORT).concat(text)),
    }
}

} // verus!
