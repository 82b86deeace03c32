use vstd::prelude::*;
use crate::error::Error;
use crate::float_bits::{FloatReading, float_reading, float_to_token};
use crate::integers::{decimal_signed, decimal_unsigned};
use crate::json::Json;
use crate::number::NumberRepr;
use crate::text::{ParsedJson, ParsedValue, token_from_parsed};
use crate::token::{JsonValue, Token};

verus! {

/// A `u8` becomes the JSON number holding it, and `u8::from_token` reads a
/// non-negative integer number or a decimal string (an optional `+`, then
/// digits) whose value fits in a `u8`, and nothing else.
pub proof fn law_u8_tokens(x: u8, to: Result<Token, Error>, token: &Token, from: Result<u8, Error>)
    requires
        call_ensures(<u8 as Json>::to_token, (&x,), to),
        call_ensures(<u8 as Json>::from_token, (token,), from),
    ensures
        to matches Ok(t) && t@ == JsonValue::Number(NumberRepr::PosInt(x as u64)),
        match token@ {
            JsonValue::Number(NumberRepr::PosInt(u)) => if u <= u8::MAX {
                from == Ok::<u8, Error>(u as u8)
            } else {
                from is Err
            },
            JsonValue::Number(_) => from is Err,
            JsonValue::String(s) => match decimal_unsigned(s) {
                Some(v) => if 0 <= v <= u8::MAX {
                    from == Ok::<u8, Error>(v as u8)
                } else {
                    from is Err
                },
                None => from is Err,
            },
            _ => from is Err,
        },
{
}

/// A `u16` becomes the JSON number holding it, and `u16::from_token` reads a
/// non-negative integer number or a decimal string (an optional `+`, then
/// digits) whose value fits in a `u16`, and nothing else.
pub proof fn law_u16_tokens(x: u16, to: Result<Token, Error>, token: &Token, from: Result<u16, Error>)
    requires
        call_ensures(<u16 as Json>::to_token, (&x,), to),
        call_ensures(<u16 as Json>::from_token, (token,), from),
    ensures
        to matches Ok(t) && t@ == JsonValue::Number(NumberRepr::PosInt(x as u64)),
        match token@ {
            JsonValue::Number(NumberRepr::PosInt(u)) => if u <= u16::MAX {
                from == Ok::<u16, Error>(u as u16)
            } else {
                from is Err
            },
            JsonValue::Number(_) => from is Err,
            JsonValue::String(s) => match decimal_unsigned(s) {
                Some(v) => if 0 <= v <= u16::MAX {
                    from == Ok::<u16, Error>(v as u16)
                } else {
                    from is Err
                },
                None => from is Err,
            },
            _ => from is Err,
        },
{
}

/// A `u32` becomes the JSON number holding it, and `u32::from_token` reads a
/// non-negative integer number or a decimal string (an optional `+`, then
/// digits) whose value fits in a `u32`, and nothing else.
pub proof fn law_u32_tokens(x: u32, to: Result<Token, Error>, token: &Token, from: Result<u32, Error>)
    requires
        call_ensures(<u32 as Json>::to_token, (&x,), to),
        call_ensures(<u32 as Json>::from_token, (token,), from),
    ensures
        to matches Ok(t) && t@ == JsonValue::Number(NumberRepr::PosInt(x as u64)),
        match token@ {
            JsonValue::Number(NumberRepr::PosInt(u)) => if u <= u32::MAX {
                from == Ok::<u32, Error>(u as u32)
            } else {
                from is Err
            },
            JsonValue::Number(_) => from is Err,
            JsonValue::String(s) => match decimal_unsigned(s) {
                Some(v) => if 0 <= v <= u32::MAX {
                    from == Ok::<u32, Error>(v as u32)
                } else {
                    from is Err
                },
                None => from is Err,
            },
            _ => from is Err,
        },
{
}

/// A `u64` becomes the JSON number holding it, and `u64::from_token` reads a
/// non-negative integer number or a decimal string (an optional `+`, then
/// digits) whose value fits in a `u64`, and nothing else.
pub proof fn law_u64_tokens(x: u64, to: Result<Token, Error>, token: &Token, from: Result<u64, Error>)
    requires
        call_ensures(<u64 as Json>::to_token, (&x,), to),
        call_ensures(<u64 as Json>::from_token, (token,), from),
    ensures
        to matches Ok(t) && t@ == JsonValue::Number(NumberRepr::PosInt(x as u64)),
        match token@ {
            JsonValue::Number(NumberRepr::PosInt(u)) => if u <= u64::MAX {
                from == Ok::<u64, Error>(u as u64)
            } else {
                from is Err
            },
            JsonValue::Number(_) => from is Err,
            JsonValue::String(s) => match decimal_unsigned(s) {
                Some(v) => if 0 <= v <= u64::MAX {
                    from == Ok::<u64, Error>(v as u64)
                } else {
                    from is Err
                },
                None => from is Err,
            },
            _ => from is Err,
        },
{
}

/// An `i8` becomes the JSON number holding it (a negative one as a negative
/// integer), and `i8::from_token` reads an integer number or a decimal string
/// (an optional sign, then digits) whose value fits in an `i8`, and nothing
/// else.
pub proof fn law_i8_tokens(x: i8, to: Result<Token, Error>, token: &Token, from: Result<i8, Error>)
    requires
        call_ensures(<i8 as Json>::to_token, (&x,), to),
        call_ensures(<i8 as Json>::from_token, (token,), from),
    ensures
        to matches Ok(t) && t@ == JsonValue::Number(
            if x < 0 {
                NumberRepr::NegInt(x as i64)
            } else {
                NumberRepr::PosInt(x as u64)
            },
        ),
        match token@ {
            JsonValue::Number(NumberRepr::PosInt(u)) => if u <= i8::MAX {
                from == Ok::<i8, Error>(u as i8)
            } else {
                from is Err
            },
            JsonValue::Number(NumberRepr::NegInt(i)) => if i8::MIN <= i <= i8::MAX {
                from == Ok::<i8, Error>(i as i8)
            } else {
                from is Err
            },
            JsonValue::Number(NumberRepr::Float(_)) => from is Err,
            JsonValue::String(s) => match decimal_signed(s) {
                Some(v) => if i8::MIN <= v <= i8::MAX {
                    from == Ok::<i8, Error>(v as i8)
                } else {
                    from is Err
                },
                None => from is Err,
            },
            _ => from is Err,
        },
{
}

/// An `i16` becomes the JSON number holding it (a negative one as a negative
/// integer), and `i16::from_token` reads an integer number or a decimal string
/// (an optional sign, then digits) whose value fits in an `i16`, and nothing
/// else.
pub proof fn law_i16_tokens(x: i16, to: Result<Token, Error>, token: &Token, from: Result<i16, Error>)
    requires
        call_ensures(<i16 as Json>::to_token, (&x,), to),
        call_ensures(<i16 as Json>::from_token, (token,), from),
    ensures
        to matches Ok(t) && t@ == JsonValue::Number(
            if x < 0 {
                NumberRepr::NegInt(x as i64)
            } else {
                NumberRepr::PosInt(x as u64)
            },
        ),
        match token@ {
            JsonValue::Number(NumberRepr::PosInt(u)) => if u <= i16::MAX {
                from == Ok::<i16, Error>(u as i16)
            } else {
                from is Err
            },
            JsonValue::Number(NumberRepr::NegInt(i)) => if i16::MIN <= i <= i16::MAX {
                from == Ok::<i16, Error>(i as i16)
            } else {
                from is Err
            },
            JsonValue::Number(NumberRepr::Float(_)) => from is Err,
            JsonValue::String(s) => match decimal_signed(s) {
                Some(v) => if i16::MIN <= v <= i16::MAX {
                    from == Ok::<i16, Error>(v as i16)
                } else {
                    from is Err
                },
                None => from is Err,
            },
            _ => from is Err,
        },
{
}

/// An `i32` becomes the JSON number holding it (a negative one as a negative
/// integer), and `i32::from_token` reads an integer number or a decimal string
/// (an optional sign, then digits) whose value fits in an `i32`, and nothing
/// else.
pub proof fn law_i32_tokens(x: i32, to: Result<Token, Error>, token: &Token, from: Result<i32, Error>)
    requires
        call_ensures(<i32 as Json>::to_token, (&x,), to),
        call_ensures(<i32 as Json>::from_token, (token,), from),
    ensures
        to matches Ok(t) && t@ == JsonValue::Number(
            if x < 0 {
                NumberRepr::NegInt(x as i64)
            } else {
                NumberRepr::PosInt(x as u64)
            },
        ),
        match token@ {
            JsonValue::Number(NumberRepr::PosInt(u)) => if u <= i32::MAX {
                from == Ok::<i32, Error>(u as i32)
            } else {
                from is Err
            },
            JsonValue::Number(NumberRepr::NegInt(i)) => if i32::MIN <= i <= i32::MAX {
                from == Ok::<i32, Error>(i as i32)
            } else {
                from is Err
            },
            JsonValue::Number(NumberRepr::Float(_)) => from is Err,
            JsonValue::String(s) => match decimal_signed(s) {
                Some(v) => if i32::MIN <= v <= i32::MAX {
                    from == Ok::<i32, Error>(v as i32)
                } else {
                    from is Err
                },
                None => from is Err,
            },
            _ => from is Err,
        },
{
}

/// An `i64` becomes the JSON number holding it (a negative one as a negative
/// integer), and `i64::from_token` reads an integer number or a decimal string
/// (an optional sign, then digits) whose value fits in an `i64`, and nothing
/// else.
pub proof fn law_i64_tokens(x: i64, to: Result<Token, Error>, token: &Token, from: Result<i64, Error>)
    requires
        call_ensures(<i64 as Json>::to_token, (&x,), to),
        call_ensures(<i64 as Json>::from_token, (token,), from),
    ensures
        to matches Ok(t) && t@ == JsonValue::Number(
            if x < 0 {
                NumberRepr::NegInt(x as i64)
            } else {
                NumberRepr::PosInt(x as u64)
            },
        ),
        match token@ {
            JsonValue::Number(NumberRepr::PosInt(u)) => if u <= i64::MAX {
                from == Ok::<i64, Error>(u as i64)
            } else {
                from is Err
            },
            JsonValue::Number(NumberRepr::NegInt(i)) => if i64::MIN <= i <= i64::MAX {
                from == Ok::<i64, Error>(i as i64)
            } else {
                from is Err
            },
            JsonValue::Number(NumberRepr::Float(_)) => from is Err,
            JsonValue::String(s) => match decimal_signed(s) {
                Some(v) => if i64::MIN <= v <= i64::MAX {
                    from == Ok::<i64, Error>(v as i64)
                } else {
                    from is Err
                },
                None => from is Err,
            },
            _ => from is Err,
        },
{
}

/// `true` and `false` become the JSON literals, and `bool::from_token` reads
/// exactly the boolean tokens, as the boolean they hold.
pub proof fn law_bool_tokens(b: bool, to: Result<Token, Error>, token: &Token, from: Result<bool, Error>)
    requires
        call_ensures(<bool as Json>::to_token, (&b,), to),
        call_ensures(<bool as Json>::from_token, (token,), from),
    ensures
        to matches Ok(t) && t@ == JsonValue::Bool(b),
        from is Ok <==> token@ is Bool,
        from matches Ok(v) ==> token@ == JsonValue::Bool(v),
{
}

/// A string becomes the JSON string with its text, and `String::from_token`
/// reads exactly the string tokens, as their text.
pub proof fn law_string_tokens(
    s: String,
    to: Result<Token, Error>,
    token: &Token,
    from: Result<String, Error>,
)
    requires
        call_ensures(<String as Json>::to_token, (&s,), to),
        call_ensures(<String as Json>::from_token, (token,), from),
    ensures
        to matches Ok(t) && t@ == JsonValue::String(s@),
        from is Ok <==> token@ is String,
        from matches Ok(v) ==> token@ == JsonValue::String(v@),
{
}

/// A token converts to a token of the same value, and reads back from any
/// token as a token of that token's value.
pub proof fn law_token_tokens(x: Token, to: Result<Token, Error>, token: &Token, from: Result<Token, Error>)
    requires
        call_ensures(<Token as Json>::to_token, (&x,), to),
        call_ensures(<Token as Json>::from_token, (token,), from),
    ensures
        to matches Ok(t) && t@ == x@,
        from matches Ok(t) && t@ == token@,
{
}

/// A parsed literal becomes the same literal token: `null`, a boolean, a
/// string, or a number of the shape its accessors report (a `u64`, else an
/// `i64`, else a finite double); a number none of these fit gives an error.
/// An array or object becomes one with as many items, and an object keeps its
/// keys in order.
pub proof fn law_parsed_nodes(p: &ParsedJson, r: Result<Token, Error>)
    requires
        call_ensures(token_from_parsed, (p,), r),
    ensures
        match p@ {
            ParsedValue::Null => r matches Ok(t) && t@ == JsonValue::Null,
            ParsedValue::Bool(b) => r matches Ok(t) && t@ == JsonValue::Bool(b),
            ParsedValue::String(s) => r matches Ok(t) && t@ == JsonValue::String(s),
            ParsedValue::Number(n) => match n.as_u64 {
                Some(u) => r matches Ok(t) && t@ == JsonValue::Number(NumberRepr::PosInt(u)),
                None => match n.as_i64 {
                    Some(i) => r matches Ok(t) && t@ == JsonValue::Number(
                        if i < 0 {
                            NumberRepr::NegInt(i)
                        } else {
                            NumberRepr::PosInt(i as u64)
                        },
                    ),
                    None => match n.float_bits {
                        Some(bits) => if (bits >> 52u64) & 0x7ffu64 != 0x7ffu64 {
                            r matches Ok(t) && t@ == JsonValue::Number(NumberRepr::Float(bits))
                        } else {
                            r is Err
                        },
                        None => r is Err,
                    },
                },
            },
            ParsedValue::Array(items) => r matches Ok(t) ==> (t@ matches JsonValue::Array(vs)
                && vs.len() == items.len()),
            ParsedValue::Object(entries) => r matches Ok(t) ==> (t@ matches JsonValue::Object(es)
                && es.len() == entries.len() && forall|i: int|
                0 <= i < entries.len() ==> (#[trigger] es[i]).0 == entries[i].0),
        },
{
}

/// The token of a parsed array holds, at each position, the token of the
/// parsed item there; an item that fails makes the whole array fail.
pub proof fn law_parsed_array_items(
    p: &ParsedJson,
    r: Result<Token, Error>,
    i: int,
    item: Result<Token, Error>,
)
    requires
        call_ensures(token_from_parsed, (p,), r),
        *p matches ParsedJson::Array(items) && 0 <= i < items@.len() && call_ensures(
            token_from_parsed,
            (&items@[i],),
            item,
        ),
    ensures
        r matches Ok(t) ==> (item matches Ok(u) && t@->Array_0[i] == u@),
        item is Err ==> r is Err,
{
    let items = p->Array_0;
    assert(p@->Array_0[i] == items@[i]@);
}

/// The token of a parsed object holds, under each key, the token of the parsed
/// value there; a value that fails makes the whole object fail.
pub proof fn law_parsed_object_values(
    p: &ParsedJson,
    r: Result<Token, Error>,
    i: int,
    value: Result<Token, Error>,
)
    requires
        call_ensures(token_from_parsed, (p,), r),
        *p matches ParsedJson::Object(entries) && 0 <= i < entries@.len() && call_ensures(
            token_from_parsed,
            (&entries@[i].1,),
            value,
        ),
    ensures
        r matches Ok(t) ==> (value matches Ok(u) && t@->Object_0[i].1 == u@),
        value is Err ==> r is Err,
{
    let entries = p->Object_0;
    assert(p@->Object_0[i].1 == entries@[i].1@);
}

/// A floating-point type reads every number token as that number, the strings
/// `Infinity`, `-Infinity` and `NaN` as those values, other strings as text,
/// and nothing else.
pub proof fn law_float_reading_tokens(token: &Token, r: Result<FloatReading, Error>)
    requires
        call_ensures(float_reading, (token,), r),
    ensures
        match token@ {
            JsonValue::Number(n) => r matches Ok(FloatReading::Number(m)) && m@ == n,
            JsonValue::String(s) => if s == "Infinity"@ {
                r matches Ok(FloatReading::Infinity)
            } else if s == "-Infinity"@ {
                r matches Ok(FloatReading::NegInfinity)
            } else if s == "NaN"@ {
                r matches Ok(FloatReading::NaN)
            } else {
                r matches Ok(FloatReading::Text(x)) && x@ == s
            },
            _ => r is Err,
        },
{
}

/// A finite double becomes the number holding its bits, NaN the string `NaN`,
/// and the infinities the strings `Infinity` and `-Infinity` by their sign.
pub proof fn law_float_tokens(bits: u64, r: Result<Token, Error>)
    requires
        call_ensures(float_to_token, (bits,), r),
    ensures
        r matches Ok(t) && t@ == if (bits >> 52u64) & 0x7ffu64 != 0x7ffu64 {
            JsonValue::Number(NumberRepr::Float(bits))
        } else if bits & 0xf_ffff_ffff_ffffu64 != 0u64 {
            JsonValue::String("NaN"@)
        } else if bits >> 63u64 == 1u64 {
            JsonValue::String("-Infinity"@)
        } else {
            JsonValue::String("Infinity"@)
        },
{
}

} // verus!
