//! Numbers read from text, as the standard library reads them.

use std::num::ParseIntError;
use vstd::prelude::*;

verus! {

/// The error of the standard library's integer parsing.
#[verifier::external_type_specification]
#[verifier::external_body]
pub struct ExParseIntError(ParseIntError);

/// The value of a decimal digit, or `None` for any other character.
pub open spec fn digit(c: char) -> Option<nat> {
    if '0' <= c && c <= '9' {
        Some((c as int - '0' as int) as nat)
    } else {
        None
    }
}

/// The number that a run of decimal digits spells, the most significant
/// digit first, or `None` where the run is empty or holds a character that
/// is no digit.
pub open spec fn digits(text: Seq<char>) -> Option<nat>
    decreases text.len(),
{
    if text.len() == 0 {
        None
    } else {
        match digit(text.last()) {
            None => None,
            Some(d) => if text.len() == 1 {
                Some(d)
            } else {
                match digits(text.drop_last()) {
                    None => None,
                    Some(front) => Some(front * 10 + d),
                }
            },
        }
    }
}

/// The integer that a text spells in decimal: digits behind an optional
/// sign, which is `+`, or `-` where `signed`. Nothing else may stand in the
/// text, and a sign alone spells nothing.
pub open spec fn decimal(text: Seq<char>, signed: bool) -> Option<int> {
    if text.len() > 0 && text[0] == '+' {
        match digits(text.skip(1)) {
            Some(n) => Some(n as int),
            None => None,
        }
    } else if signed && text.len() > 0 && text[0] == '-' {
        match digits(text.skip(1)) {
            Some(n) => Some(-(n as int)),
            None => None,
        }
    } else {
        match digits(text) {
            Some(n) => Some(n as int),
            None => None,
        }
    }
}

/// The number that `text` spells as an unsigned 8-bit integer in decimal, or
/// `None` where it spells none or one that the type cannot hold.
pub open spec fn parsed_u8(text: Seq<char>) -> Option<u8> {
    match decimal(text, false) {
        Some(n) => if u8::MIN <= n && n <= u8::MAX {
            Some(n as u8)
        } else {
            None
        },
        None => None,
    }
}

/// Reads an unsigned 8-bit integer in decimal.
///
/// Trusted: the body calls `str::parse::<u8>`. The contract says that the
/// call succeeds exactly on an optional sign, `+`, followed by decimal
/// digits that spell a number of the type, and then returns that number.
#[verifier::external_body]
pub(crate) fn parse_u8(text: &str) -> (r: Result<u8, ParseIntError>)
    ensures
        r is Ok <==> parsed_u8(text@) is Some,
        r is Ok ==> parsed_u8(text@) == Some(r->Ok_0),
{
    text.parse::<u8>()
}

/// The number that `text` spells as an unsigned 16-bit integer in decimal, or
/// `None` where it spells none or one that the type cannot hold.
pub open spec fn parsed_u16(text: Seq<char>) -> Option<u16> {
    match decimal(text, false) {
        Some(n) => if u16::MIN <= n && n <= u16::MAX {
            Some(n as u16)
        } else {
            None
        },
        None => None,
    }
}

/// Reads an unsigned 16-bit integer in decimal.
///
/// Trusted: the body calls `str::parse::<u16>`. The contract says that the
/// call succeeds exactly on an optional sign, `+`, followed by decimal
/// digits that spell a number of the type, and then returns that number.
#[verifier::external_body]
pub(crate) fn parse_u16(text: &str) -> (r: Result<u16, ParseIntError>)
    ensures
        r is Ok <==> parsed_u16(text@) is Some,
        r is Ok ==> parsed_u16(text@) == Some(r->Ok_0),
{
    text.parse::<u16>()
}

/// The number that `text` spells as an unsigned 32-bit integer in decimal, or
/// `None` where it spells none or one that the type cannot hold.
pub open spec fn parsed_u32(text: Seq<char>) -> Option<u32> {
    match decimal(text, false) {
        Some(n) => if u32::MIN <= n && n <= u32::MAX {
            Some(n as u32)
        } else {
            None
        },
        None => None,
    }
}

/// Reads an unsigned 32-bit integer in decimal.
///
/// Trusted: the body calls `str::parse::<u32>`. The contract says that the
/// call succeeds exactly on an optional sign, `+`, followed by decimal
/// digits that spell a number of the type, and then returns that number.
#[verifier::external_body]
pub(crate) fn parse_u32(text: &str) -> (r: Result<u32, ParseIntError>)
    ensures
        r is Ok <==> parsed_u32(text@) is Some,
        r is Ok ==> parsed_u32(text@) == Some(r->Ok_0),
{
    text.parse::<u32>()
}

/// The number that `text` spells as an unsigned 64-bit integer in decimal, or
/// `None` where it spells none or one that the type cannot hold.
pub open spec fn parsed_u64(text: Seq<char>) -> Option<u64> {
    match decimal(text, false) {
        Some(n) => if u64::MIN <= n && n <= u64::MAX {
            Some(n as u64)
        } else {
            None
        },
        None => None,
    }
}

/// Reads an unsigned 64-bit integer in decimal.
///
/// Trusted: the body calls `str::parse::<u64>`. The contract says that the
/// call succeeds exactly on an optional sign, `+`, followed by decimal
/// digits that spell a number of the type, and then returns that number.
#[verifier::external_body]
pub(crate) fn parse_u64(text: &str) -> (r: Result<u64, ParseIntError>)
    ensures
        r is Ok <==> parsed_u64(text@) is Some,
        r is Ok ==> parsed_u64(text@) == Some(r->Ok_0),
{
    text.parse::<u64>()
}

/// The number that `text` spells as a signed 8-bit integer in decimal, or
/// `None` where it spells none or one that the type cannot hold.
pub open spec fn parsed_i8(text: Seq<char>) -> Option<i8> {
    match decimal(text, true) {
        Some(n) => if i8::MIN <= n && n <= i8::MAX {
            Some(n as i8)
        } else {
            None
        },
        None => None,
    }
}

/// Reads a signed 8-bit integer in decimal.
///
/// Trusted: the body calls `str::parse::<i8>`. The contract says that the
/// call succeeds exactly on an optional sign, `+` or `-`, followed by decimal
/// digits that spell a number of the type, and then returns that number.
#[verifier::external_body]
pub(crate) fn parse_i8(text: &str) -> (r: Result<i8, ParseIntError>)
    ensures
        r is Ok <==> parsed_i8(text@) is Some,
        r is Ok ==> parsed_i8(text@) == Some(r->Ok_0),
{
    text.parse::<i8>()
}

/// The number that `text` spells as a signed 16-bit integer in decimal, or
/// `None` where it spells none or one that the type cannot hold.
pub open spec fn parsed_i16(text: Seq<char>) -> Option<i16> {
    match decimal(text, true) {
        Some(n) => if i16::MIN <= n && n <= i16::MAX {
            Some(n as i16)
        } else {
            None
        },
        None => None,
    }
}

/// Reads a signed 16-bit integer in decimal.
///
/// Trusted: the body calls `str::parse::<i16>`. The contract says that the
/// call succeeds exactly on an optional sign, `+` or `-`, followed by decimal
/// digits that spell a number of the type, and then returns that number.
#[verifier::external_body]
pub(crate) fn parse_i16(text: &str) -> (r: Result<i16, ParseIntError>)
    ensures
        r is Ok <==> parsed_i16(text@) is Some,
        r is Ok ==> parsed_i16(text@) == Some(r->Ok_0),
{
    text.parse::<i16>()
}

/// The number that `text` spells as a signed 32-bit integer in decimal, or
/// `None` where it spells none or one that the type cannot hold.
pub open spec fn parsed_i32(text: Seq<char>) -> Option<i32> {
    match decimal(text, true) {
        Some(n) => if i32::MIN <= n && n <= i32::MAX {
            Some(n as i32)
        } else {
            None
        },
        None => None,
    }
}

/// Reads a signed 32-bit integer in decimal.
///
/// Trusted: the body calls `str::parse::<i32>`. The contract says that the
/// call succeeds exactly on an optional sign, `+` or `-`, followed by decimal
/// digits that spell a number of the type, and then returns that number.
#[verifier::external_body]
pub(crate) fn parse_i32(text: &str) -> (r: Result<i32, ParseIntError>)
    ensures
        r is Ok <==> parsed_i32(text@) is Some,
        r is Ok ==> parsed_i32(text@) == Some(r->Ok_0),
{
    text.parse::<i32>()
}

/// The number that `text` spells as a signed 64-bit integer in decimal, or
/// `None` where it spells none or one that the type cannot hold.
pub open spec fn parsed_i64(text: Seq<char>) -> Option<i64> {
    match decimal(text, true) {
        Some(n) => if i64::MIN <= n && n <= i64::MAX {
            Some(n as i64)
        } else {
            None
        },
        None => None,
    }
}

/// Reads a signed 64-bit integer in decimal.
///
/// Trusted: the body calls `str::parse::<i64>`. The contract says that the
/// call succeeds exactly on an optional sign, `+` or `-`, followed by decimal
/// digits that spell a number of the type, and then returns that number.
#[verifier::external_body]
pub(crate) fn parse_i64(text: &str) -> (r: Result<i64, ParseIntError>)
    ensures
        r is Ok <==> parsed_i64(text@) is Some,
        r is Ok ==> parsed_i64(text@) == Some(r->Ok_0),
{
    text.parse::<i64>()
}

} // verus!
