//! The values a backend answers with, and how text and numbers are read
//! from them.

use vstd::prelude::*;
use vstd::utf8::{decode_utf8, valid_utf8};
use mobc_redis::redis::{FromRedisValue, RedisError, Value};

verus! {

/// A value as the backend answers with it.
#[derive(Debug, PartialEq, Eq)]
pub enum RedisValue {
    /// No value.
    Nil,
    /// An integer.
    Int(i64),
    /// Binary data.
    Data(Vec<u8>),
    /// Several values.
    Bulk(Vec<RedisValue>),
    /// A status line.
    Status(String),
    /// The status line `OK`.
    Okay,
}

/// The type `RedisError` of the crate `redis`.
#[verifier::external_type_specification]
#[verifier::external_body]
pub struct ExRedisError(RedisError);

/// The text that a value stands for, if it stands for one: the data, where it
/// is valid UTF-8; a status line; `OK`.
pub open spec fn text_of_value(v: RedisValue) -> Option<Seq<char>> {
    match v {
        RedisValue::Data(bytes) => if valid_utf8(bytes@) {
            Some(decode_utf8(bytes@))
        } else {
            None
        },
        RedisValue::Okay => Some("OK"@),
        RedisValue::Status(s) => Some(s@),
        _ => None,
    }
}

/// Every character is a decimal digit.
pub open spec fn is_digits(s: Seq<char>) -> bool {
    forall|i: int| 0 <= i < s.len() ==> '0' <= #[trigger] s[i] <= '9'
}

/// The number that a sequence of decimal digits writes.
pub open spec fn decimal_value(s: Seq<char>) -> int
    decreases s.len(),
{
    if s.len() == 0 {
        0
    } else {
        decimal_value(s.drop_last()) * 10 + (s.last() as int - '0' as int)
    }
}

/// The number below 256 that a text writes in decimal, after an optional `+`.
pub open spec fn parsed_u8(s: Seq<char>) -> Option<u8> {
    let digits = if s.len() > 0 && s[0] == '+' {
        s.skip(1)
    } else {
        s
    };
    if digits.len() > 0 && is_digits(digits) && decimal_value(digits) <= 255 {
        Some(decimal_value(digits) as u8)
    } else {
        None
    }
}

/// The number below 256 that a value stands for, if it stands for one: an
/// integer, cut to its lowest eight bits; a status line or UTF-8 data that
/// writes such a number.
pub open spec fn small_number_of_value(v: RedisValue) -> Option<u8> {
    match v {
        RedisValue::Int(n) => Some((n % 256) as u8),
        RedisValue::Status(s) => parsed_u8(s@),
        RedisValue::Data(bytes) => if valid_utf8(bytes@) {
            parsed_u8(decode_utf8(bytes@))
        } else {
            None
        },
        _ => None,
    }
}

/// Calls `String::from_redis_value` of the crate `redis` on the `Value` of
/// that crate with the variant and the contents of `v`; a list is handed
/// over without its items. The contract claims what the source of that
/// function shows: it succeeds on data that is valid UTF-8, with the text
/// decoded, on a status line, with its text, and on `OK`, with the text
/// `OK`, and it fails on every other value, whatever a list holds.
#[verifier::external_body]
fn string_from_value(v: &RedisValue) -> (r: Result<String, RedisError>)
    ensures
        match text_of_value(*v) {
            Some(text) => r matches Ok(s) && s@ == text,
            None => r is Err,
        },
{
    String::from_redis_value(&match v {
        RedisValue::Nil => Value::Nil,
        RedisValue::Int(n) => Value::Int(*n),
        RedisValue::Data(bytes) => Value::Data(bytes.clone()),
        RedisValue::Bulk(_) => Value::Bulk(Vec::new()),
        RedisValue::Status(s) => Value::Status(s.clone()),
        RedisValue::Okay => Value::Okay,
    })
}

/// Calls `u8::from_redis_value` of the crate `redis` on the `Value` of that
/// crate with the variant and the contents of `v`; a list is handed over
/// without its items. The contract claims what the source of that function
/// shows: an integer is cast to `u8`, which keeps its lowest eight bits; a
/// status line, or data that is valid UTF-8, is parsed as `str::parse::<u8>`
/// parses it, that is as decimal digits after an optional `+`, and must not
/// exceed 255; every other value fails, whatever a list holds.
#[verifier::external_body]
fn u8_from_value(v: &RedisValue) -> (r: Result<u8, RedisError>)
    ensures
        match small_number_of_value(*v) {
            Some(n) => r == Ok::<u8, RedisError>(n),
            None => r is Err,
        },
{
    u8::from_redis_value(&match v {
        RedisValue::Nil => Value::Nil,
        RedisValue::Int(n) => Value::Int(*n),
        RedisValue::Data(bytes) => Value::Data(bytes.clone()),
        RedisValue::Bulk(_) => Value::Bulk(Vec::new()),
        RedisValue::Status(s) => Value::Status(s.clone()),
        RedisValue::Okay => Value::Okay,
    })
}

/// Calls `to_string` on a `RedisError` of the crate `redis`: the text that
/// the error shows. Nothing is claimed of the text.
#[verifier::external_body]
pub(crate) fn error_text(e: &RedisError) -> String {
    e.to_string()
}

/// The text that `v` stands for, or the text of the reason why it stands for
/// none.
pub fn read_text(v: &RedisValue) -> (r: Result<String, String>)
    ensures
        match text_of_value(*v) {
            Some(text) => r matches Ok(s) && s@ == text,
            None => r is Err,
        },
{
    match string_from_value(v) {
        Ok(s) => Ok(s),
        Err(e) => Err(error_text(&e)),
    }
}

/// The number below 256 that `v` stands for, or the text of the reason why
/// it stands for none.
pub fn read_small_number(v: &RedisValue) -> (r: Result<u8, String>)
    ensures
        match small_number_of_value(*v) {
            Some(n) => r == Ok::<u8, String>(n),
            None => r is Err,
        },
{
    match u8_from_value(v) {
        Ok(n) => Ok(n),
        Err(e) => Err(error_text(&e)),
    }
}

} // verus!
