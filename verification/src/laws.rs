use vstd::prelude::*;
use crate::derived::type_key;
use crate::error::Error;
use vstd::string::StringSliceAdditionalSpecFns;
use crate::float_bits::{FloatReadingView, float_reading_of, float_token_value, nan_bits, sign_bit};
use crate::number::{NumberRepr, finite_bits};
use crate::json::{
    Json, calls_round_trip, entry_values, first_read_error, gives_token, never_null, read_error,
    reads_as, all_accepted, all_decoded, all_encodable, all_values_accepted, all_values_decoded,
    all_values_encodable, round_trips,
};
use crate::token::{JsonValue, ObjectMap, Token, distinct_keys, lemma_set_entry, lookup, set_entry};

verus! {

/// A token converts to itself and back.
pub proof fn law_token_round_trip(t: Token)
    ensures
        round_trips(t),
{
}

/// A boolean converts to a token and back.
pub proof fn law_bool_round_trip(b: bool)
    ensures
        round_trips(b),
{
}

/// A string converts to a token and back.
pub proof fn law_string_round_trip(s: String)
    ensures
        round_trips(s),
{
}

/// Every unsigned integer converts to a number token and back.
pub proof fn law_unsigned_round_trip(a: u8, b: u16, c: u32, d: u64)
    ensures
        round_trips(a),
        round_trips(b),
        round_trips(c),
        round_trips(d),
{
}

/// Every signed integer converts to a number token and back.
pub proof fn law_signed_round_trip(a: i8, b: i16, c: i32, d: i64)
    ensures
        round_trips(a),
        round_trips(b),
        round_trips(c),
        round_trips(d),
{
}

/// `None` becomes `null` and back; `Some(v)` round-trips where `v` does, unless
/// `v` itself becomes `null` (as `Some(None)` does), which reads back as `None`.
pub proof fn law_option_round_trip<T: Json>(x: Option<T>)
    requires
        T::obeys_json_spec(),
        x matches Some(v) ==> round_trips(v) && v.spec_to_token() != Some(JsonValue::Null),
    ensures
        round_trips(x),
{
}

/// A vector whose items all round-trip round-trips.
pub proof fn law_vec_round_trip<T: Json>(v: Vec<T>)
    requires
        T::obeys_json_spec(),
        forall|i: int| 0 <= i < v@.len() ==> round_trips(#[trigger] v@[i]),
    ensures
        round_trips(v),
{
    assert(all_encodable(v@));
    let items = Seq::new(v@.len(), |i: int| v@[i].spec_to_token().unwrap());
    assert(v.spec_to_token() == Some(JsonValue::Array(items)));
    assert(all_accepted::<T>(items)) by {
        assert forall|i: int| 0 <= i < items.len() implies T::spec_accepts(#[trigger] items[i]) by {
            assert(round_trips(v@[i]));
        }
    }
    assert(all_decoded(items, v@)) by {
        assert forall|i: int| 0 <= i < items.len() implies T::spec_decodes(#[trigger] items[i], v@[i]) by {
            assert(round_trips(v@[i]));
        }
    }
}

/// An object whose values all round-trip round-trips, keys and order kept.
pub proof fn law_object_round_trip<T: Json>(m: ObjectMap<T>)
    requires
        T::obeys_json_spec(),
        forall|i: int| 0 <= i < m@.len() ==> round_trips(#[trigger] m@[i].1),
    ensures
        round_trips(m),
{
    assert(all_values_encodable(m@)) by {
        assert forall|i: int| 0 <= i < m@.len() implies (#[trigger] m@[i]).1.spec_to_token() is Some by {
            assert(round_trips(m@[i].1));
        }
    }
    let entries = Seq::new(m@.len(), |i: int| (m@[i].0, m@[i].1.spec_to_token().unwrap()));
    assert(m.spec_to_token() == Some(JsonValue::Object(entries)));
    assert(all_values_accepted::<T>(entries)) by {
        assert forall|i: int| 0 <= i < entries.len() implies T::spec_accepts((#[trigger] entries[i]).1) by {
            assert(round_trips(m@[i].1));
        }
    }
    assert(all_values_decoded(entries, m@)) by {
        assert forall|i: int| 0 <= i < entries.len() implies (#[trigger] m@[i]).0 == entries[i].0
            && T::spec_decodes(entries[i].1, m@[i].1) by {
            assert(round_trips(m@[i].1));
        }
    }
}

/// Reading an object's key after setting it gives the value set, every other
/// key reads as before, and keys stay distinct.
pub proof fn law_object_read_after_write<V>(
    entries: Seq<(Seq<char>, V)>,
    key: Seq<char>,
    value: V,
    other: Seq<char>,
)
    requires
        distinct_keys(entries),
    ensures
        distinct_keys(set_entry(entries, key, value)),
        lookup(set_entry(entries, key, value), key) == Some(value),
        other != key ==> lookup(set_entry(entries, key, value), other) == lookup(entries, other),
{
    lemma_set_entry(entries, key, value, other);
}

/// The variant tag that `variant_tag` reads from an object is the one that
/// `tag_variant` wrote into it.
pub proof fn law_variant_tag_round_trip(name: Seq<char>, entries: Seq<(Seq<char>, JsonValue)>)
    requires
        distinct_keys(entries),
    ensures
        lookup(set_entry(entries, type_key(), JsonValue::String(name)), type_key()) == Some(
            JsonValue::String(name),
        ),
{
    lemma_set_entry(entries, type_key(), JsonValue::String(name), type_key());
}

/// A field that `encode_field` stored is read back by `decode_field` as the
/// same value, where the value round-trips.
pub proof fn law_field_round_trip<T: Json>(
    entries: Seq<(Seq<char>, JsonValue)>,
    key: Seq<char>,
    value: T,
)
    requires
        distinct_keys(entries),
        round_trips(value),
    ensures
        lookup(set_entry(entries, key, value.spec_to_token().unwrap()), key) matches Some(t)
            && T::spec_accepts(t) && T::spec_decodes(t, value),
{
    lemma_set_entry(entries, key, value.spec_to_token().unwrap(), key);
}

/// A double becomes a token from which floating-point types read it back: a
/// finite one as the number holding its bits, an infinity as that infinity,
/// and NaN as NaN.
pub proof fn law_float_round_trip(bits: u64)
    ensures
        float_reading_of(float_token_value(bits)) == Some(
            if finite_bits(bits) {
                FloatReadingView::Number(NumberRepr::Float(bits))
            } else if nan_bits(bits) {
                FloatReadingView::NaN
            } else if sign_bit(bits) {
                FloatReadingView::NegInfinity
            } else {
                FloatReadingView::Infinity
            },
        ),
{
    reveal_strlit("NaN");
    reveal_strlit("Infinity");
    reveal_strlit("-Infinity");
    assert("NaN"@ != "Infinity"@) by {
        assert("NaN"@.len() != "Infinity"@.len());
    }
    assert("NaN"@ != "-Infinity"@) by {
        assert("NaN"@.len() != "-Infinity"@.len());
    }
    assert("-Infinity"@ != "Infinity"@) by {
        assert("-Infinity"@.len() != "Infinity"@.len());
    }
}

/// Where the calls of `T` round-trip and never give `null`, the token of an
/// option is read back as that option.
pub proof fn law_option_calls_round_trip<T: Json>(
    o: Option<T>,
    t: Token,
    back: Result<Option<T>, T::Error>,
)
    requires
        calls_round_trip::<T>(),
        never_null::<T>(),
        gives_token(&o, t),
        call_ensures(Option::<T>::from_token, (&t,), back),
    ensures
        back == Ok::<Option<T>, T::Error>(o),
{
    match o {
        None => {},
        Some(v) => {
            assert(gives_token(&v, t));
            match back {
                Ok(Some(x)) => {
                    assert(call_ensures(T::from_token, (&t,), Ok::<T, T::Error>(x)));
                },
                Ok(None) => {},
                Err(e) => {
                    assert(call_ensures(T::from_token, (&t,), Err::<T, T::Error>(e)));
                },
            }
        },
    }
}

/// Where the calls of `T` round-trip, the token of a vector is read back as a
/// vector with the same items in the same order.
pub proof fn law_vec_calls_round_trip<T: Json>(v: Vec<T>, t: Token, back: Result<Vec<T>, T::Error>)
    requires
        calls_round_trip::<T>(),
        gives_token(&v, t),
        call_ensures(Vec::<T>::from_token, (&t,), back),
    ensures
        back matches Ok(w) && w@ == v@,
{
    let items = t->Array_0;
    match back {
        Ok(w) => {
            assert forall|i: int| 0 <= i < v@.len() implies w@[i] == v@[i] by {
                assert(gives_token(&v@[i], items@[i]));
                assert(reads_as(&items@[i], w@[i]));
            }
            assert(w@ =~= v@);
        },
        Err(e) => {
            assert(first_read_error::<T>(items@, e));
            let i = choose|i: int| 0 <= i < items@.len() && #[trigger] read_error::<T>(&items@[i], e);
            assert(gives_token(&v@[i], items@[i]));
        },
    }
}

/// Where the calls of `T` round-trip, the token of an object is read back as
/// an object with the same keys and values in the same order.
pub proof fn law_object_calls_round_trip<T: Json>(
    m: ObjectMap<T>,
    t: Token,
    back: Result<ObjectMap<T>, T::Error>,
)
    requires
        calls_round_trip::<T>(),
        gives_token(&m, t),
        call_ensures(ObjectMap::<T>::from_token, (&t,), back),
    ensures
        back matches Ok(w) && w@ == m@,
{
    let o = t->Object_0;
    match back {
        Ok(w) => {
            assert forall|i: int| 0 <= i < m@.len() implies w@[i] == m@[i] by {
                assert(o@[i].0 == m@[i].0);
                assert(gives_token(&m@[i].1, o@[i].1));
                assert(reads_as(&o@[i].1, w@[i].1));
            }
            assert(w@ =~= m@);
        },
        Err(e) => {
            let values = entry_values(o@);
            assert(first_read_error::<T>(values, e));
            let i = choose|i: int| 0 <= i < values.len() && #[trigger] read_error::<T>(&values[i], e);
            assert(gives_token(&m@[i].1, o@[i].1));
        },
    }
}

/// A text and its UTF-8 bytes are read as tokens of the same value, or both
/// rejected.
pub proof fn law_text_reads_as_its_bytes(
    text: &str,
    bytes: &[u8],
    from_text: Result<Token, Error>,
    from_bytes: Result<Token, Error>,
)
    requires
        bytes@ == text.spec_bytes(),
        call_ensures(Token::deserialize_str, (text,), from_text),
        call_ensures(Token::deserialize_bytes, (bytes,), from_bytes),
    ensures
        from_text is Ok <==> from_bytes is Ok,
        from_text matches Ok(t1) ==> (from_bytes matches Ok(t2) && t1@ == t2@),
{
}

} // verus!
