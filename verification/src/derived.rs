use vstd::prelude::*;
use crate::error::Error;
use crate::json::{Json, gives_token, token_error};
use crate::token::{
    JsonValue, ObjectMap, Token, entries_value, lemma_lookup_entries_value,
    lemma_set_entries_value, lemma_token_view, lookup, set_entry,
};

verus! {

broadcast use lemma_token_view;

/// The camel-case spelling that `stringcase::camel_case` gives to a text.
pub uninterp spec fn camel_case_of(s: Seq<char>) -> Seq<char>;

/// `stringcase::camel_case`: the camel-case spelling of `s`, which depends on
/// `s` alone.
#[verifier::external_body]
fn camel_case(s: &str) -> (r: String)
    ensures
        r@ == camel_case_of(s@),
{
    stringcase::camel_case(s)
}

/// The JSON name of a Rust identifier: the key under which the derived
/// encoding of a struct stores a named field, and the tag it gives to an enum
/// variant.
pub fn json_name(ident: &str) -> (name: String)
    ensures
        name@ == camel_case_of(ident@),
{
    camel_case(ident)
}

/// The key under which an enum's encoding stores the variant's name.
pub open spec fn type_key() -> Seq<char> {
    seq!['$', 't', 'y', 'p', 'e']
}

/// Stores the token of `value` under `key`, as the derived encoding of a struct
/// does for each named field. Where `value` does not convert, the object is
/// left as it was.
pub fn encode_field<T: Json<Error = Error>>(map: &mut ObjectMap<Token>, key: &str, value: &T) -> (r:
    Result<(), Error>)
    ensures
        T::obeys_json_spec() ==> (r is Ok <==> value.spec_to_token() is Some),
        T::obeys_json_spec() && r is Ok ==> entries_value(final(map)@) == set_entry(
            entries_value(old(map)@),
            key@,
            value.spec_to_token().unwrap(),
        ),
        r is Ok ==> exists|t: Token|
            #[trigger] gives_token(value, t) && final(map)@ == set_entry(old(map)@, key@, t),
        r matches Err(e) ==> token_error(value, e) && final(map)@ == old(map)@,
{
    match value.to_token() {
        Ok(t) => {
            let ghost before = map@;
            let ghost stored = t;
            let k = key.to_owned();
            map.insert(k, t);
            proof {
                lemma_set_entries_value(before, key@, t);
                assert(gives_token(value, stored));
            }
            Ok(())
        },
        Err(e) => Err(e),
    }
}

/// The value of a named field, as the derived decoding of a struct reads it:
/// the token stored under `key`, decoded, or the type's default value where no
/// token is stored under `key`.
pub fn decode_field<T: Json<Error = Error> + Default>(map: &ObjectMap<Token>, key: &str) -> (r:
    Result<T, Error>)
    ensures
        T::obeys_json_spec() ==> match lookup(entries_value(map@), key@) {
            Some(t) => (r is Ok <==> T::spec_accepts(t)) && (r matches Ok(v) ==> T::spec_decodes(t, v)),
            None => r is Ok,
        },
        match lookup(map@, key@) {
            Some(t) => call_ensures(T::from_token, (&t,), r),
            None => r matches Ok(v) && call_ensures(T::default, (), v),
        },
{
    let found = map.get(key);
    proof {
        lemma_lookup_entries_value(map@, key@);
    }
    match found {
        Some(t) => T::from_token(t),
        None => Ok(T::default()),
    }
}

/// Adds the variant tag `variant` under the key `$type` to the object that
/// encodes a variant's payload, as the derived encoding of an enum does; a
/// payload that is no object gives an error.
pub fn tag_variant(variant: &str, payload: Token) -> (r: Result<Token, Error>)
    ensures
        r is Ok <==> payload@ is Object,
        r matches Ok(t) ==> t@ == JsonValue::Object(
            set_entry(payload@->Object_0, type_key(), JsonValue::String(variant@)),
        ),
{
    match payload {
        Token::Object(mut o) => {
            let ghost before = o@;
            proof {
                reveal_strlit("$type");
                assert("$type"@ =~= type_key());
            }
            let key = "$type".to_owned();
            let tag = Token::String(variant.to_owned());
            let ghost tag_token = tag;
            o.insert(key, tag);
            proof {
                lemma_set_entries_value(before, type_key(), tag_token);
            }
            Ok(Token::Object(o))
        },
        _ => Err(Error),
    }
}

/// The variant tag that the derived encoding of an enum stores under `$type`:
/// an error unless the token is an object with a string under that key.
pub fn variant_tag(token: &Token) -> (r: Result<String, Error>)
    ensures
        r is Ok <==> (token@ matches JsonValue::Object(entries) && lookup(entries, type_key()) matches Some(
            JsonValue::String(_),
        )),
        r matches Ok(name) ==> (token@ matches JsonValue::Object(entries) && lookup(entries, type_key())
            == Some(JsonValue::String(name@))),
{
    match token {
        Token::Object(o) => {
            let found = o.get("$type");
            proof {
                reveal_strlit("$type");
                assert("$type"@ =~= type_key());
                lemma_lookup_entries_value(o@, type_key());
            }
            match found {
                Some(t) => String::from_token(t),
                None => Err(Error),
            }
        },
        _ => Err(Error),
    }
}

/// The variant tag of a token value: the string stored under `$type` in an
/// object.
pub open spec fn tag_of(t: JsonValue) -> Option<Seq<char>> {
    match t {
        JsonValue::Object(entries) => match lookup(entries, type_key()) {
            Some(JsonValue::String(name)) => Some(name),
            _ => None,
        },
        _ => None,
    }
}

/// The position among `names` of the first name equal to the token's variant
/// tag, as the derived decoding of an enum picks the variant; an error where
/// the token has no variant tag or the tag is none of `names`.
pub fn variant_index(token: &Token, names: &[&str]) -> (r: Result<usize, Error>)
    ensures
        r matches Ok(i) ==> i < names@.len() && tag_of(token@) == Some(names@[i as int]@)
            && forall|j: int| 0 <= j < i ==> (#[trigger] names@[j])@ != names@[i as int]@,
        r is Err <==> (tag_of(token@) is None || forall|j: int|
            0 <= j < names@.len() ==> tag_of(token@) != Some((#[trigger] names@[j])@)),
{
    let tag = match variant_tag(token) {
        Ok(tag) => tag,
        Err(e) => return Err(e),
    };
    let mut i: usize = 0;
    while i < names.len()
        invariant
            i <= names@.len(),
            tag_of(token@) == Some(tag@),
            forall|j: int| 0 <= j < i ==> (#[trigger] names@[j])@ != tag@,
        decreases names@.len() - i,
    {
        if tag == names[i].to_owned() {
            return Ok(i);
        }
        i += 1;
    }
    Err(Error)
}

} // verus!
