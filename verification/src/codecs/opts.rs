//! Parsers for backend-specific option values. Error messages name the
//! option as the user wrote it, `codec:key`.

use vstd::prelude::*;
use crate::error::Error;
use crate::text::{push_str, str_eq, chars_of, parse_uint, spec_parse_uint};

verus! {

/// A decimal `u8` as `str::parse` reads one: an optional `+`, then one or
/// more ASCII digits spelling at most 255.
pub open spec fn spec_parse_u8(s: Seq<char>) -> Option<u8> {
    match spec_parse_uint(s, 255) {
        Some(v) => Some(v as u8),
        None => None,
    }
}

/// Reads a decimal `u8`.
pub fn parse_u8_text(s: &str) -> (r: Option<u8>)
    ensures
        r == spec_parse_u8(s@),
{
    let cs = chars_of(s);
    match parse_uint(cs.as_slice(), 255) {
        Some(v) => Some(v as u8),
        None => None,
    }
}

/// `codec:key expects ..., got `value``.
pub open spec fn expects(codec: Seq<char>, key: Seq<char>, what: Seq<char>, value: Seq<char>) -> Seq<char> {
    codec + ":"@ + key + " expects "@ + what + ", got `"@ + value + "`"@
}

fn expects_msg(codec: &str, key: &str, what: &str, value: &str) -> (r: String)
    ensures
        r@ == expects(codec@, key@, what@, value@),
{
    let mut m = String::new();
    push_str(&mut m, codec);
    push_str(&mut m, ":");
    push_str(&mut m, key);
    push_str(&mut m, " expects ");
    push_str(&mut m, what);
    push_str(&mut m, ", got `");
    push_str(&mut m, value);
    push_str(&mut m, "`");
    m
}

/// `true` / `false`, `1` / `0`, `yes` / `no`, `on` / `off`.
pub open spec fn spec_parse_bool(v: Seq<char>) -> Option<bool> {
    if v == "true"@ || v == "1"@ || v == "yes"@ || v == "on"@ {
        Some(true)
    } else if v == "false"@ || v == "0"@ || v == "no"@ || v == "off"@ {
        Some(false)
    } else {
        None
    }
}

/// A boolean option value; anything else is `InvalidParams`.
pub fn parse_bool(codec: &str, key: &str, value: &str) -> (r: Result<bool, Error>)
    ensures
        match spec_parse_bool(value@) {
            Some(b) => r == Ok::<bool, Error>(b),
            None => r matches Err(Error::InvalidParams(m)) && m@ == expects(codec@, key@, "a boolean"@, value@),
        },
{
    if str_eq(value, "true") || str_eq(value, "1") || str_eq(value, "yes") || str_eq(value, "on") {
        Ok(true)
    } else if str_eq(value, "false") || str_eq(value, "0") || str_eq(value, "no") || str_eq(value, "off") {
        Ok(false)
    } else {
        Err(Error::InvalidParams(expects_msg(codec, key, "a boolean", value)))
    }
}

/// An integer `0..=255`; anything else is `InvalidParams`.
pub fn parse_u8(codec: &str, key: &str, value: &str) -> (r: Result<u8, Error>)
    ensures
        match spec_parse_u8(value@) {
            Some(v) => r == Ok::<u8, Error>(v),
            None => r matches Err(Error::InvalidParams(m)) && m@ == expects(codec@, key@, "an integer 0..=255"@, value@),
        },
{
    match parse_u8_text(value) {
        Some(v) => Ok(v),
        None => Err(Error::InvalidParams(expects_msg(codec, key, "an integer 0..=255", value))),
    }
}

/// An integer `0..=100`; anything else is `InvalidParams`.
pub fn parse_percent(codec: &str, key: &str, value: &str) -> (r: Result<u8, Error>)
    ensures
        match spec_parse_u8(value@) {
            Some(v) if v <= 100 => r == Ok::<u8, Error>(v),
            _ => r matches Err(Error::InvalidParams(m)) && m@ == expects(codec@, key@, "an integer 0..=100"@, value@),
        },
{
    match parse_u8_text(value) {
        Some(v) => if v <= 100 {
            Ok(v)
        } else {
            Err(Error::InvalidParams(expects_msg(codec, key, "an integer 0..=100", value)))
        },
        None => Err(Error::InvalidParams(expects_msg(codec, key, "an integer 0..=100", value))),
    }
}

/// The option is owned by `codec` but not known to it.
pub fn unknown(codec: &str, key: &str) -> (r: Error)
    ensures
        r matches Error::InvalidParams(m) && m@ == "unknown "@ + codec@ + " option `"@ + key@ + "`"@,
{
    let mut m = String::new();
    push_str(&mut m, "unknown ");
    push_str(&mut m, codec);
    push_str(&mut m, " option `");
    push_str(&mut m, key);
    push_str(&mut m, "`");
    Error::InvalidParams(m)
}

} // verus!
