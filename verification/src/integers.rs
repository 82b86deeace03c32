use vstd::prelude::*;
use crate::error::Error;
use crate::json::Json;
use crate::number::{Number, NumberRepr, repr_as_i64, repr_as_u64, repr_of_i64};
use crate::token::{JsonValue, Token, lemma_token_view};

verus! {

broadcast use lemma_token_view;

/// An ASCII decimal digit.
pub open spec fn is_digit(c: char) -> bool {
    '0' as int <= c as int <= '9' as int
}

/// A non-empty run of ASCII decimal digits.
pub open spec fn all_digits(s: Seq<char>) -> bool {
    s.len() > 0 && forall|i: int| 0 <= i < s.len() ==> is_digit(#[trigger] s[i])
}

/// The number that a run of decimal digits writes.
pub open spec fn digits_value(s: Seq<char>) -> int
    decreases s.len(),
{
    if s.len() == 0 {
        0
    } else {
        digits_value(s.drop_last()) * 10 + (s.last() as int - '0' as int)
    }
}

/// The integer that `s` writes as an optional `+` followed by decimal digits.
pub open spec fn decimal_unsigned(s: Seq<char>) -> Option<int> {
    if s.len() > 0 && s[0] == '+' {
        if all_digits(s.drop_first()) {
            Some(digits_value(s.drop_first()))
        } else {
            None
        }
    } else if all_digits(s) {
        Some(digits_value(s))
    } else {
        None
    }
}

/// The integer that `s` writes as an optional `+` or `-` followed by decimal
/// digits.
pub open spec fn decimal_signed(s: Seq<char>) -> Option<int> {
    if s.len() > 0 && s[0] == '-' {
        if all_digits(s.drop_first()) {
            Some(-digits_value(s.drop_first()))
        } else {
            None
        }
    } else {
        decimal_unsigned(s)
    }
}

/// The integer that an unsigned integer type reads from a token: a
/// non-negative integer number, or a string of decimal digits.
pub open spec fn unsigned_reading(t: JsonValue) -> Option<int> {
    match t {
        JsonValue::Number(n) => match repr_as_u64(n) {
            Some(u) => Some(u as int),
            None => None,
        },
        JsonValue::String(s) => decimal_unsigned(s),
        _ => None,
    }
}

/// The integer that a signed integer type reads from a token: an integer
/// number within `i64`, or a string of decimal digits with an optional sign.
pub open spec fn signed_reading(t: JsonValue) -> Option<int> {
    match t {
        JsonValue::Number(n) => match repr_as_i64(n) {
            Some(i) => Some(i as int),
            None => None,
        },
        JsonValue::String(s) => decimal_signed(s),
        _ => None,
    }
}

/// The reading is an integer from `lo` to `hi`.
pub open spec fn reading_within(reading: Option<int>, lo: int, hi: int) -> bool {
    reading matches Some(x) && lo <= x <= hi
}

/// `str::parse::<u8>`, which its documentation describes as reading an
/// optional `+` followed by ASCII decimal digits, and failing where the value
/// does not fit in a `u8`.
#[verifier::external_body]
fn parse_u8(s: &str) -> (r: Option<u8>)
    ensures
        r is Some <==> reading_within(decimal_unsigned(s@), u8::MIN as int, u8::MAX as int),
        r matches Some(v) ==> decimal_unsigned(s@) == Some(v as int),
{
    s.parse::<u8>().ok()
}

/// `str::parse::<u16>`, which its documentation describes as reading an
/// optional `+` followed by ASCII decimal digits, and failing where the value
/// does not fit in a `u16`.
#[verifier::external_body]
fn parse_u16(s: &str) -> (r: Option<u16>)
    ensures
        r is Some <==> reading_within(decimal_unsigned(s@), u16::MIN as int, u16::MAX as int),
        r matches Some(v) ==> decimal_unsigned(s@) == Some(v as int),
{
    s.parse::<u16>().ok()
}

/// `str::parse::<u32>`, which its documentation describes as reading an
/// optional `+` followed by ASCII decimal digits, and failing where the value
/// does not fit in a `u32`.
#[verifier::external_body]
fn parse_u32(s: &str) -> (r: Option<u32>)
    ensures
        r is Some <==> reading_within(decimal_unsigned(s@), u32::MIN as int, u32::MAX as int),
        r matches Some(v) ==> decimal_unsigned(s@) == Some(v as int),
{
    s.parse::<u32>().ok()
}

/// `str::parse::<u64>`, which its documentation describes as reading an
/// optional `+` followed by ASCII decimal digits, and failing where the value
/// does not fit in a `u64`.
#[verifier::external_body]
fn parse_u64(s: &str) -> (r: Option<u64>)
    ensures
        r is Some <==> reading_within(decimal_unsigned(s@), u64::MIN as int, u64::MAX as int),
        r matches Some(v) ==> decimal_unsigned(s@) == Some(v as int),
{
    s.parse::<u64>().ok()
}

/// `str::parse::<i8>`, which its documentation describes as reading an
/// optional `+` or `-` followed by ASCII decimal digits, and failing where the
/// value does not fit in an `i8`.
#[verifier::external_body]
fn parse_i8(s: &str) -> (r: Option<i8>)
    ensures
        r is Some <==> reading_within(decimal_signed(s@), i8::MIN as int, i8::MAX as int),
        r matches Some(v) ==> decimal_signed(s@) == Some(v as int),
{
    s.parse::<i8>().ok()
}

/// `str::parse::<i16>`, which its documentation describes as reading an
/// optional `+` or `-` followed by ASCII decimal digits, and failing where the
/// value does not fit in an `i16`.
#[verifier::external_body]
fn parse_i16(s: &str) -> (r: Option<i16>)
    ensures
        r is Some <==> reading_within(decimal_signed(s@), i16::MIN as int, i16::MAX as int),
        r matches Some(v) ==> decimal_signed(s@) == Some(v as int),
{
    s.parse::<i16>().ok()
}

/// `str::parse::<i32>`, which its documentation describes as reading an
/// optional `+` or `-` followed by ASCII decimal digits, and failing where the
/// value does not fit in an `i32`.
#[verifier::external_body]
fn parse_i32(s: &str) -> (r: Option<i32>)
    ensures
        r is Some <==> reading_within(decimal_signed(s@), i32::MIN as int, i32::MAX as int),
        r matches Some(v) ==> decimal_signed(s@) == Some(v as int),
{
    s.parse::<i32>().ok()
}

/// `str::parse::<i64>`, which its documentation describes as reading an
/// optional `+` or `-` followed by ASCII decimal digits, and failing where the
/// value does not fit in an `i64`.
#[verifier::external_body]
fn parse_i64(s: &str) -> (r: Option<i64>)
    ensures
        r is Some <==> reading_within(decimal_signed(s@), i64::MIN as int, i64::MAX as int),
        r matches Some(v) ==> decimal_signed(s@) == Some(v as int),
{
    s.parse::<i64>().ok()
}

impl Json for u8 {
    type Error = Error;

    open spec fn obeys_json_spec() -> bool {
        true
    }

    open spec fn spec_error() -> Error {
        Error
    }

    open spec fn spec_to_token(&self) -> Option<JsonValue> {
        Some(JsonValue::Number(NumberRepr::PosInt(*self as u64)))
    }

    open spec fn spec_accepts(t: JsonValue) -> bool {
        reading_within(unsigned_reading(t), u8::MIN as int, u8::MAX as int)
    }

    open spec fn spec_decodes(t: JsonValue, v: u8) -> bool {
        unsigned_reading(t) == Some(v as int)
    }

    fn to_token(&self) -> (r: Result<Token, Error>) {
        Ok(Token::Number(Number::from_u64(*self as u64)))
    }

    fn from_token(token: &Token) -> (r: Result<u8, Error>) {
        match token {
            Token::Number(n) => match n.as_u64() {
                Ok(u) => if u <= u8::MAX as u64 {
                    Ok(u as u8)
                } else {
                    Err(Error)
                },
                Err(e) => Err(e),
            },
            Token::String(s) => match parse_u8(s.as_str()) {
                Some(v) => Ok(v),
                None => Err(Error),
            },
            _ => Err(Error),
        }
    }

    fn error() -> Error {
        Error
    }
}

impl Json for u16 {
    type Error = Error;

    open spec fn obeys_json_spec() -> bool {
        true
    }

    open spec fn spec_error() -> Error {
        Error
    }

    open spec fn spec_to_token(&self) -> Option<JsonValue> {
        Some(JsonValue::Number(NumberRepr::PosInt(*self as u64)))
    }

    open spec fn spec_accepts(t: JsonValue) -> bool {
        reading_within(unsigned_reading(t), u16::MIN as int, u16::MAX as int)
    }

    open spec fn spec_decodes(t: JsonValue, v: u16) -> bool {
        unsigned_reading(t) == Some(v as int)
    }

    fn to_token(&self) -> (r: Result<Token, Error>) {
        Ok(Token::Number(Number::from_u64(*self as u64)))
    }

    fn from_token(token: &Token) -> (r: Result<u16, Error>) {
        match token {
            Token::Number(n) => match n.as_u64() {
                Ok(u) => if u <= u16::MAX as u64 {
                    Ok(u as u16)
                } else {
                    Err(Error)
                },
                Err(e) => Err(e),
            },
            Token::String(s) => match parse_u16(s.as_str()) {
                Some(v) => Ok(v),
                None => Err(Error),
            },
            _ => Err(Error),
        }
    }

    fn error() -> Error {
        Error
    }
}

impl Json for u32 {
    type Error = Error;

    open spec fn obeys_json_spec() -> bool {
        true
    }

    open spec fn spec_error() -> Error {
        Error
    }

    open spec fn spec_to_token(&self) -> Option<JsonValue> {
        Some(JsonValue::Number(NumberRepr::PosInt(*self as u64)))
    }

    open spec fn spec_accepts(t: JsonValue) -> bool {
        reading_within(unsigned_reading(t), u32::MIN as int, u32::MAX as int)
    }

    open spec fn spec_decodes(t: JsonValue, v: u32) -> bool {
        unsigned_reading(t) == Some(v as int)
    }

    fn to_token(&self) -> (r: Result<Token, Error>) {
        Ok(Token::Number(Number::from_u64(*self as u64)))
    }

    fn from_token(token: &Token) -> (r: Result<u32, Error>) {
        match token {
            Token::Number(n) => match n.as_u64() {
                Ok(u) => if u <= u32::MAX as u64 {
                    Ok(u as u32)
                } else {
                    Err(Error)
                },
                Err(e) => Err(e),
            },
            Token::String(s) => match parse_u32(s.as_str()) {
                Some(v) => Ok(v),
                None => Err(Error),
            },
            _ => Err(Error),
        }
    }

    fn error() -> Error {
        Error
    }
}

impl Json for u64 {
    type Error = Error;

    open spec fn obeys_json_spec() -> bool {
        true
    }

    open spec fn spec_error() -> Error {
        Error
    }

    open spec fn spec_to_token(&self) -> Option<JsonValue> {
        Some(JsonValue::Number(NumberRepr::PosInt(*self as u64)))
    }

    open spec fn spec_accepts(t: JsonValue) -> bool {
        reading_within(unsigned_reading(t), u64::MIN as int, u64::MAX as int)
    }

    open spec fn spec_decodes(t: JsonValue, v: u64) -> bool {
        unsigned_reading(t) == Some(v as int)
    }

    fn to_token(&self) -> (r: Result<Token, Error>) {
        Ok(Token::Number(Number::from_u64(*self as u64)))
    }

    fn from_token(token: &Token) -> (r: Result<u64, Error>) {
        match token {
            Token::Number(n) => match n.as_u64() {
                Ok(u) => if u <= u64::MAX as u64 {
                    Ok(u as u64)
                } else {
                    Err(Error)
                },
                Err(e) => Err(e),
            },
            Token::String(s) => match parse_u64(s.as_str()) {
                Some(v) => Ok(v),
                None => Err(Error),
            },
            _ => Err(Error),
        }
    }

    fn error() -> Error {
        Error
    }
}

impl Json for i8 {
    type Error = Error;

    open spec fn obeys_json_spec() -> bool {
        true
    }

    open spec fn spec_error() -> Error {
        Error
    }

    open spec fn spec_to_token(&self) -> Option<JsonValue> {
        Some(JsonValue::Number(repr_of_i64(*self as i64)))
    }

    open spec fn spec_accepts(t: JsonValue) -> bool {
        reading_within(signed_reading(t), i8::MIN as int, i8::MAX as int)
    }

    open spec fn spec_decodes(t: JsonValue, v: i8) -> bool {
        signed_reading(t) == Some(v as int)
    }

    fn to_token(&self) -> (r: Result<Token, Error>) {
        Ok(Token::Number(Number::from_i64(*self as i64)))
    }

    fn from_token(token: &Token) -> (r: Result<i8, Error>) {
        match token {
            Token::Number(n) => match n.as_i64() {
                Ok(i) => if i8::MIN as i64 <= i && i <= i8::MAX as i64 {
                    Ok(i as i8)
                } else {
                    Err(Error)
                },
                Err(e) => Err(e),
            },
            Token::String(s) => match parse_i8(s.as_str()) {
                Some(v) => Ok(v),
                None => Err(Error),
            },
            _ => Err(Error),
        }
    }

    fn error() -> Error {
        Error
    }
}

impl Json for i16 {
    type Error = Error;

    open spec fn obeys_json_spec() -> bool {
        true
    }

    open spec fn spec_error() -> Error {
        Error
    }

    open spec fn spec_to_token(&self) -> Option<JsonValue> {
        Some(JsonValue::Number(repr_of_i64(*self as i64)))
    }

    open spec fn spec_accepts(t: JsonValue) -> bool {
        reading_within(signed_reading(t), i16::MIN as int, i16::MAX as int)
    }

    open spec fn spec_decodes(t: JsonValue, v: i16) -> bool {
        signed_reading(t) == Some(v as int)
    }

    fn to_token(&self) -> (r: Result<Token, Error>) {
        Ok(Token::Number(Number::from_i64(*self as i64)))
    }

    fn from_token(token: &Token) -> (r: Result<i16, Error>) {
        match token {
            Token::Number(n) => match n.as_i64() {
                Ok(i) => if i16::MIN as i64 <= i && i <= i16::MAX as i64 {
                    Ok(i as i16)
                } else {
                    Err(Error)
                },
                Err(e) => Err(e),
            },
            Token::String(s) => match parse_i16(s.as_str()) {
                Some(v) => Ok(v),
                None => Err(Error),
            },
            _ => Err(Error),
        }
    }

    fn error() -> Error {
        Error
    }
}

impl Json for i32 {
    type Error = Error;

    open spec fn obeys_json_spec() -> bool {
        true
    }

    open spec fn spec_error() -> Error {
        Error
    }

    open spec fn spec_to_token(&self) -> Option<JsonValue> {
        Some(JsonValue::Number(repr_of_i64(*self as i64)))
    }

    open spec fn spec_accepts(t: JsonValue) -> bool {
        reading_within(signed_reading(t), i32::MIN as int, i32::MAX as int)
    }

    open spec fn spec_decodes(t: JsonValue, v: i32) -> bool {
        signed_reading(t) == Some(v as int)
    }

    fn to_token(&self) -> (r: Result<Token, Error>) {
        Ok(Token::Number(Number::from_i64(*self as i64)))
    }

    fn from_token(token: &Token) -> (r: Result<i32, Error>) {
        match token {
            Token::Number(n) => match n.as_i64() {
                Ok(i) => if i32::MIN as i64 <= i && i <= i32::MAX as i64 {
                    Ok(i as i32)
                } else {
                    Err(Error)
                },
                Err(e) => Err(e),
            },
            Token::String(s) => match parse_i32(s.as_str()) {
                Some(v) => Ok(v),
                None => Err(Error),
            },
            _ => Err(Error),
        }
    }

    fn error() -> Error {
        Error
    }
}

impl Json for i64 {
    type Error = Error;

    open spec fn obeys_json_spec() -> bool {
        true
    }

    open spec fn spec_error() -> Error {
        Error
    }

    open spec fn spec_to_token(&self) -> Option<JsonValue> {
        Some(JsonValue::Number(repr_of_i64(*self as i64)))
    }

    open spec fn spec_accepts(t: JsonValue) -> bool {
        reading_within(signed_reading(t), i64::MIN as int, i64::MAX as int)
    }

    open spec fn spec_decodes(t: JsonValue, v: i64) -> bool {
        signed_reading(t) == Some(v as int)
    }

    fn to_token(&self) -> (r: Result<Token, Error>) {
        Ok(Token::Number(Number::from_i64(*self as i64)))
    }

    fn from_token(token: &Token) -> (r: Result<i64, Error>) {
        match token {
            Token::Number(n) => match n.as_i64() {
                Ok(i) => if i64::MIN as i64 <= i && i <= i64::MAX as i64 {
                    Ok(i as i64)
                } else {
                    Err(Error)
                },
                Err(e) => Err(e),
            },
            Token::String(s) => match parse_i64(s.as_str()) {
                Some(v) => Ok(v),
                None => Err(Error),
            },
            _ => Err(Error),
        }
    }

    fn error() -> Error {
        Error
    }
}

} // verus!
