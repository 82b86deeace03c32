use vstd::prelude::*;
use vstd::string::StringSliceAdditionalSpecFns;
use crate::error::Error;
use crate::number::{Number, NumberRepr, finite_bits, repr_of_i64};
use crate::token::{
    JsonValue, ObjectMap, Token, distinct_keys, entries_value, has_key, key_index,
    lemma_token_view, tokens_value,
};
use serde_json::Value as SerdeJsonValue;

verus! {

broadcast use lemma_token_view;

/// `serde_json::Value`, the tree that serde_json's parsers build.
#[verifier::external_type_specification]
#[verifier::external_body]
pub struct ExSerdeJsonValue(SerdeJsonValue);

/// A number of a parsed JSON tree as serde_json's accessors give it: as a
/// `u64`, as an `i64`, and the bits of it as a double.
#[derive(Debug, Clone, Copy)]
pub struct ParsedNumber {
    pub as_u64: Option<u64>,
    pub as_i64: Option<i64>,
    pub float_bits: Option<u64>,
}

/// A JSON tree as serde_json parses it, node for node.
#[derive(Debug)]
pub enum ParsedJson {
    Null,
    Bool(bool),
    Number(ParsedNumber),
    String(String),
    Array(Vec<ParsedJson>),
    Object(Vec<(String, ParsedJson)>),
}

/// The mathematical value of a parsed JSON tree.
pub enum ParsedValue {
    Null,
    Bool(bool),
    Number(ParsedNumber),
    String(Seq<char>),
    Array(Seq<ParsedValue>),
    Object(Seq<(Seq<char>, ParsedValue)>),
}

/// The value of a parsed JSON tree: its shape, with the values it holds.
pub open spec fn parsed_view(p: ParsedJson) -> ParsedValue
    decreases p,
{
    match p {
        ParsedJson::Null => ParsedValue::Null,
        ParsedJson::Bool(b) => ParsedValue::Bool(b),
        ParsedJson::Number(n) => ParsedValue::Number(n),
        ParsedJson::String(s) => ParsedValue::String(s@),
        ParsedJson::Array(items) => ParsedValue::Array(
            Seq::new(
                items@.len(),
                |i: int|
                    if 0 <= i < items@.len() {
                        parsed_view(items@[i])
                    } else {
                        ParsedValue::Null
                    },
            ),
        ),
        ParsedJson::Object(entries) => ParsedValue::Object(
            Seq::new(
                entries@.len(),
                |i: int|
                    if 0 <= i < entries@.len() {
                        (entries@[i].0@, parsed_view(entries@[i].1))
                    } else {
                        (Seq::empty(), ParsedValue::Null)
                    },
            ),
        ),
    }
}

impl View for ParsedJson {
    type V = ParsedValue;

    open spec fn view(&self) -> ParsedValue {
        parsed_view(*self)
    }
}

/// The shape of the number that serde_json's accessors describe: a
/// non-negative integer where it reads as a `u64`, else a negative integer
/// where it reads as an `i64`, else a finite double.
pub open spec fn number_repr_of(n: ParsedNumber) -> Option<NumberRepr> {
    match n.as_u64 {
        Some(u) => Some(NumberRepr::PosInt(u)),
        None => match n.as_i64 {
            Some(i) => Some(repr_of_i64(i)),
            None => match n.float_bits {
                Some(bits) => if finite_bits(bits) {
                    Some(NumberRepr::Float(bits))
                } else {
                    None
                },
                None => None,
            },
        },
    }
}

/// Every number in the tree has a shape and no object repeats a key.
pub open spec fn parsed_ok(p: ParsedValue) -> bool
    decreases p,
{
    match p {
        ParsedValue::Number(n) => number_repr_of(n) is Some,
        ParsedValue::Array(items) => forall|i: int|
            0 <= i < items.len() ==> parsed_ok(#[trigger] items[i]),
        ParsedValue::Object(entries) => distinct_keys(entries) && forall|i: int|
            0 <= i < entries.len() ==> parsed_ok((#[trigger] entries[i]).1),
        _ => true,
    }
}

/// The value of the token that holds a parsed JSON tree.
pub open spec fn parsed_token_value(p: ParsedValue) -> JsonValue
    decreases p,
{
    match p {
        ParsedValue::Null => JsonValue::Null,
        ParsedValue::Bool(b) => JsonValue::Bool(b),
        ParsedValue::Number(n) => JsonValue::Number(number_repr_of(n).unwrap()),
        ParsedValue::String(s) => JsonValue::String(s),
        ParsedValue::Array(items) => JsonValue::Array(
            Seq::new(
                items.len(),
                |i: int|
                    if 0 <= i < items.len() {
                        parsed_token_value(items[i])
                    } else {
                        JsonValue::Null
                    },
            ),
        ),
        ParsedValue::Object(entries) => JsonValue::Object(
            Seq::new(
                entries.len(),
                |i: int|
                    if 0 <= i < entries.len() {
                        (entries[i].0, parsed_token_value(entries[i].1))
                    } else {
                        (Seq::empty(), JsonValue::Null)
                    },
            ),
        ),
    }
}

/// The library number of a parsed number, where its accessors describe one.
pub fn number_from_parsed(n: ParsedNumber) -> (r: Result<Number, Error>)
    ensures
        match number_repr_of(n) {
            Some(repr) => r matches Ok(m) && m@ == repr,
            None => r is Err,
        },
{
    match n.as_u64 {
        Some(u) => Ok(Number::from_u64(u)),
        None => match n.as_i64 {
            Some(i) => Ok(Number::from_i64(i)),
            None => match n.float_bits {
                Some(bits) => Number::from_f64_bits(bits),
                None => Err(Error),
            },
        },
    }
}

/// The token that holds a parsed JSON tree, node for node, objects keeping the
/// order of their entries; an error where a number has no shape or an object
/// repeats a key.
pub fn token_from_parsed(p: &ParsedJson) -> (r: Result<Token, Error>)
    ensures
        r is Ok <==> parsed_ok(p@),
        r matches Ok(t) ==> t@ == parsed_token_value(p@),
    decreases p,
{
    match p {
        ParsedJson::Null => Ok(Token::Null),
        ParsedJson::Bool(b) => Ok(Token::Bool(*b)),
        ParsedJson::Number(n) => match number_from_parsed(*n) {
            Ok(m) => Ok(Token::Number(m)),
            Err(e) => Err(e),
        },
        ParsedJson::String(s) => Ok(Token::String(s.clone())),
        ParsedJson::Array(items) => {
            let ghost pv = p@;
            let mut out: Vec<Token> = Vec::new();
            let mut i: usize = 0;
            while i < items.len()
                invariant
                    *p == ParsedJson::Array(*items),
                    pv == p@,
                    i <= items@.len(),
                    out@.len() == i,
                    forall|j: int| 0 <= j < i ==> parsed_ok(#[trigger] items@[j]@),
                    forall|j: int| 0 <= j < i ==> (#[trigger] out@[j])@ == parsed_token_value(items@[j]@),
                decreases items@.len() - i,
            {
                proof {
                    assert(decreases_to!(*p => (*p)->Array_0));
                    assert(decreases_to!(*items => items@));
                    assert(decreases_to!(items@ => items@[i as int]));
                }
                match token_from_parsed(&items[i]) {
                    Ok(t) => out.push(t),
                    Err(e) => {
                        assert(pv->Array_0[i as int] == items@[i as int]@);
                        return Err(e);
                    },
                }
                i += 1;
            }
            let r = Token::Array(out);
            proof {
                assert forall|j: int| 0 <= j < items@.len() implies parsed_ok(#[trigger] pv->Array_0[j]) by {
                    assert(pv->Array_0[j] == items@[j]@);
                }
                assert(tokens_value(out@) =~= parsed_token_value(pv)->Array_0);
            }
            Ok(r)
        },
        ParsedJson::Object(entries) => {
            let ghost pv = p@;
            let mut out: ObjectMap<Token> = ObjectMap::new();
            let mut i: usize = 0;
            while i < entries.len()
                invariant
                    *p == ParsedJson::Object(*entries),
                    pv == p@,
                    i <= entries@.len(),
                    out@.len() == i,
                    forall|j: int| 0 <= j < i ==> (#[trigger] out@[j]).0 == entries@[j].0@,
                    forall|j: int| 0 <= j < i ==> parsed_ok((#[trigger] entries@[j]).1@),
                    forall|j: int|
                        0 <= j < i ==> (#[trigger] out@[j]).1@ == parsed_token_value(entries@[j].1@),
                    forall|j: int, k: int|
                        0 <= j < i && 0 <= k < i && j != k ==> (#[trigger] entries@[j]).0@ != (
                        #[trigger] entries@[k]).0@,
                decreases entries@.len() - i,
            {
                proof {
                    assert(decreases_to!(*p => (*p)->Object_0));
                    assert(decreases_to!(*entries => entries@));
                    assert(decreases_to!(entries@ => entries@[i as int]));
                    assert(decreases_to!(entries@[i as int] => entries@[i as int].1));
                }
                let key = entries[i].0.clone();
                if out.get(key.as_str()).is_some() {
                    proof {
                        let j = key_index(out@, key@);
                        assert(out@[j].0 == entries@[j].0@);
                        assert(pv->Object_0[j].0 == pv->Object_0[i as int].0);
                    }
                    return Err(Error);
                }
                match token_from_parsed(&entries[i].1) {
                    Ok(t) => {
                        out.insert(key, t);
                    },
                    Err(e) => {
                        assert(pv->Object_0[i as int].1 == entries@[i as int].1@);
                        return Err(e);
                    },
                }
                proof {
                    assert forall|j: int| 0 <= j < i implies (#[trigger] entries@[j]).0@ != entries@[i as int].0@ by {
                        if entries@[j].0@ == entries@[i as int].0@ {
                            assert(has_key(out@, key@)) by {
                                assert(out@[j].0 == key@);
                            }
                        }
                    }
                }
                i += 1;
            }
            let r = Token::Object(out);
            proof {
                let ev = pv->Object_0;
                assert forall|j: int| 0 <= j < entries@.len() implies parsed_ok((#[trigger] ev[j]).1) by {
                    assert(ev[j].1 == entries@[j].1@);
                }
                assert forall|j: int, k: int|
                    0 <= j < ev.len() && 0 <= k < ev.len() && j != k implies #[trigger] ev[j].0
                    != #[trigger] ev[k].0 by {
                    assert(ev[j].0 == entries@[j].0@);
                    assert(ev[k].0 == entries@[k].0@);
                }
                assert(entries_value(out@) =~= parsed_token_value(pv)->Object_0);
            }
            Ok(r)
        },
    }
}

/// The tree that serde_json's `from_slice` parses from these bytes as one JSON
/// value, node for node, or `None` where it rejects them.
pub uninterp spec fn parsed_bytes(bytes: Seq<u8>) -> Option<ParsedValue>;

/// A `serde_json::Value` node for node as a `ParsedJson`; a number is given by
/// what `as_u64`, `as_i64` and `as_f64` return for it.
#[verifier::external_body]
fn parsed_from_value(v: &SerdeJsonValue) -> ParsedJson {
    match v {
        SerdeJsonValue::Null => ParsedJson::Null,
        SerdeJsonValue::Bool(b) => ParsedJson::Bool(*b),
        SerdeJsonValue::Number(n) => ParsedJson::Number(
            ParsedNumber { as_u64: n.as_u64(), as_i64: n.as_i64(), float_bits: n.as_f64().map(|x| x.to_bits()) },
        ),
        SerdeJsonValue::String(s) => ParsedJson::String(s.clone()),
        SerdeJsonValue::Array(a) => ParsedJson::Array(a.iter().map(parsed_from_value).collect()),
        SerdeJsonValue::Object(m) => ParsedJson::Object(
            m.iter().map(|(k, x)| (k.clone(), parsed_from_value(x))).collect(),
        ),
    }
}

/// `serde_json::from_slice::<serde_json::Value>`, the tree taken node for node.
/// Its result depends on the bytes alone (objects are ordered maps and the
/// nesting limit is fixed) and is named `parsed_bytes`. Each number serde_json
/// keeps is a `u64`, a negative `i64` or a finite double, which its accessors
/// report, and each object holds a key once, so the tree satisfies
/// `parsed_ok`. serde_json's JSON grammar itself is not written out here.
#[verifier::external_body]
fn parse_bytes(bytes: &[u8]) -> (r: Option<ParsedJson>)
    ensures
        r is Some <==> parsed_bytes(bytes@) is Some,
        r matches Some(p) ==> parsed_bytes(bytes@) == Some(p@) && parsed_ok(p@),
{
    serde_json::from_slice::<SerdeJsonValue>(bytes).ok().map(|v| parsed_from_value(&v))
}

/// `serde_json::from_str::<serde_json::Value>`, the tree taken node for node.
/// serde_json reads a `str` through the reader of its UTF-8 bytes (its
/// `StrRead` delegates to `SliceRead`), so the result is the one that
/// `from_slice` gives for those bytes; the rest is as for `parse_bytes`.
#[verifier::external_body]
fn parse_text(text: &str) -> (r: Option<ParsedJson>)
    ensures
        r is Some <==> parsed_bytes(text.spec_bytes()) is Some,
        r matches Some(p) ==> parsed_bytes(text.spec_bytes()) == Some(p@) && parsed_ok(p@),
{
    serde_json::from_str::<SerdeJsonValue>(text).ok().map(|v| parsed_from_value(&v))
}

impl Token {
    /// The token of the JSON value that the bytes write, as serde_json parses
    /// them; an error where serde_json rejects them.
    pub fn deserialize_bytes(bytes: &[u8]) -> (r: Result<Token, Error>)
        ensures
            match parsed_bytes(bytes@) {
                Some(p) => r matches Ok(t) && t@ == parsed_token_value(p),
                None => r is Err,
            },
    {
        match parse_bytes(bytes) {
            Some(p) => token_from_parsed(&p),
            None => Err(Error),
        }
    }

    /// The token of the JSON value that the text writes, as serde_json parses
    /// it; the same as for the text's UTF-8 bytes.
    pub fn deserialize_str(text: &str) -> (r: Result<Token, Error>)
        ensures
            match parsed_bytes(text.spec_bytes()) {
                Some(p) => r matches Ok(t) && t@ == parsed_token_value(p),
                None => r is Err,
            },
    {
        match parse_text(text) {
            Some(p) => token_from_parsed(&p),
            None => Err(Error),
        }
    }
}

} // verus!
