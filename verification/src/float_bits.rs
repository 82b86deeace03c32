use vstd::prelude::*;
use crate::error::Error;
use crate::number::{Number, NumberRepr, finite_bits};
use crate::token::{JsonValue, Token, lemma_token_view};

verus! {

broadcast use lemma_token_view;

/// The double with these IEEE-754 bits has its sign bit set.
pub open spec fn sign_bit(bits: u64) -> bool {
    bits >> 63u64 == 1u64
}

/// The double with these IEEE-754 bits is NaN: all exponent bits set and a
/// non-zero fraction.
pub open spec fn nan_bits(bits: u64) -> bool {
    !finite_bits(bits) && bits & 0xf_ffff_ffff_ffffu64 != 0u64
}

/// The value of the token that a double with these IEEE-754 bits becomes: a
/// finite double is a number, the infinities are the strings `Infinity` and
/// `-Infinity`, and NaN is the string `NaN`.
pub open spec fn float_token_value(bits: u64) -> JsonValue {
    if finite_bits(bits) {
        JsonValue::Number(NumberRepr::Float(bits))
    } else if nan_bits(bits) {
        JsonValue::String("NaN"@)
    } else if sign_bit(bits) {
        JsonValue::String("-Infinity"@)
    } else {
        JsonValue::String("Infinity"@)
    }
}

/// The token of the double with these IEEE-754 bits; a single-precision
/// float takes the bits of its widening to double.
pub fn float_to_token(bits: u64) -> (r: Result<Token, Error>)
    ensures
        r matches Ok(t) && t@ == float_token_value(bits),
{
    if (bits >> 52u64) & 0x7ffu64 != 0x7ffu64 {
        match Number::from_f64_bits(bits) {
            Ok(n) => Ok(Token::Number(n)),
            Err(e) => Err(e),
        }
    } else if bits & 0xf_ffff_ffff_ffffu64 != 0u64 {
        Ok(Token::String("NaN".to_owned()))
    } else if bits >> 63u64 == 1u64 {
        Ok(Token::String("-Infinity".to_owned()))
    } else {
        Ok(Token::String("Infinity".to_owned()))
    }
}

/// What a floating-point type reads from a token: a number to convert, one of
/// the three non-finite values by name, or other text to parse as a float.
#[derive(Debug)]
pub enum FloatReading {
    Number(Number),
    Infinity,
    NegInfinity,
    NaN,
    Text(String),
}

/// The mathematical value of a `FloatReading`.
pub enum FloatReadingView {
    Number(NumberRepr),
    Infinity,
    NegInfinity,
    NaN,
    Text(Seq<char>),
}

impl View for FloatReading {
    type V = FloatReadingView;

    open spec fn view(&self) -> FloatReadingView {
        match self {
            FloatReading::Number(n) => FloatReadingView::Number(n@),
            FloatReading::Infinity => FloatReadingView::Infinity,
            FloatReading::NegInfinity => FloatReadingView::NegInfinity,
            FloatReading::NaN => FloatReadingView::NaN,
            FloatReading::Text(s) => FloatReadingView::Text(s@),
        }
    }
}

/// What a floating-point type reads from a token of value `t`: numbers as
/// numbers, the strings `Infinity`, `-Infinity` and `NaN` as those values, and
/// other strings as text to parse; nothing from other tokens.
pub open spec fn float_reading_of(t: JsonValue) -> Option<FloatReadingView> {
    match t {
        JsonValue::Number(n) => Some(FloatReadingView::Number(n)),
        JsonValue::String(s) => if s == "Infinity"@ {
            Some(FloatReadingView::Infinity)
        } else if s == "-Infinity"@ {
            Some(FloatReadingView::NegInfinity)
        } else if s == "NaN"@ {
            Some(FloatReadingView::NaN)
        } else {
            Some(FloatReadingView::Text(s))
        },
        _ => None,
    }
}

/// The string `s` holds the text `lit`.
fn text_is(s: &String, lit: &str) -> (r: bool)
    ensures
        r == (s@ == lit@),
{
    *s == lit.to_owned()
}

/// How a floating-point type reads `token`: numbers as numbers, the strings
/// `Infinity`, `-Infinity` and `NaN` as those values, other strings as text to
/// parse; every other token gives an error.
pub fn float_reading(token: &Token) -> (r: Result<FloatReading, Error>)
    ensures
        match float_reading_of(token@) {
            Some(v) => r matches Ok(x) && x@ == v,
            None => r is Err,
        },
{
    match token {
        Token::Number(n) => Ok(FloatReading::Number(*n)),
        Token::String(s) => {
            if text_is(s, "Infinity") {
                Ok(FloatReading::Infinity)
            } else if text_is(s, "-Infinity") {
                Ok(FloatReading::NegInfinity)
            } else if text_is(s, "NaN") {
                Ok(FloatReading::NaN)
            } else {
                Ok(FloatReading::Text(s.clone()))
            }
        },
        _ => Err(Error),
    }
}

} // verus!
