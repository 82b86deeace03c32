use vstd::prelude::*;
use crate::error::Error;
use crate::token::{
    JsonValue, ObjectMap, Token, distinct_keys, entries_match, entries_value, has_key, key_index,
    lemma_token_view, tokens_value,
};

verus! {

broadcast use lemma_token_view;

/// A type whose values convert to and from JSON tokens.
///
/// An implementation describes its conversions by three spec functions: the
/// token that `to_token` produces, the tokens that `from_token` accepts, and the
/// value it returns for each of them. The contracts of `to_token` and
/// `from_token` hold those descriptions to account where `obeys_json_spec` is
/// true, as it is for every implementation of this library; an implementation
/// written elsewhere in ordinary Rust leaves it false and is promised nothing.
pub trait Json: Sized {
    type Error;

    /// Whether the conversions of this type follow the spec functions below.
    open spec fn obeys_json_spec() -> bool {
        false
    }

    /// The value of the token that `to_token` produces, or `None` where it fails.
    open spec fn spec_to_token(&self) -> Option<JsonValue> {
        None
    }

    /// Whether `from_token` succeeds on a token of value `t`.
    open spec fn spec_accepts(t: JsonValue) -> bool {
        false
    }

    /// Whether `v` is what `from_token` returns for a token of value `t`.
    open spec fn spec_decodes(t: JsonValue, v: Self) -> bool {
        false
    }

    /// The token that stands for `self`.
    fn to_token(&self) -> (r: Result<Token, Self::Error>)
        ensures
            Self::obeys_json_spec() ==> (r is Ok <==> self.spec_to_token() is Some),
            Self::obeys_json_spec() ==> (r matches Ok(t) ==> self.spec_to_token() == Some(t@)),
    ;

    /// The value that `token` stands for.
    fn from_token(token: &Token) -> (r: Result<Self, Self::Error>)
        ensures
            Self::obeys_json_spec() ==> (r is Ok <==> Self::spec_accepts(token@)),
            Self::obeys_json_spec() ==> (r matches Ok(v) ==> Self::spec_decodes(token@, v)),
    ;

    /// The error value that `error` returns.
    open spec fn spec_error() -> Self::Error {
        arbitrary()
    }

    /// The error of this type's conversions.
    fn error() -> (e: Self::Error)
        ensures
            Self::obeys_json_spec() ==> e == Self::spec_error(),
    ;
}

/// Every token value in `items` is one that `T::from_token` accepts.
pub open spec fn all_accepted<T: Json>(items: Seq<JsonValue>) -> bool {
    forall|i: int| 0 <= i < items.len() ==> T::spec_accepts(#[trigger] items[i])
}

/// Each item of `items` is the token value that `values` holds at its position.
pub open spec fn all_decoded<T: Json>(items: Seq<JsonValue>, values: Seq<T>) -> bool {
    &&& values.len() == items.len()
    &&& forall|i: int| 0 <= i < items.len() ==> T::spec_decodes(#[trigger] items[i], values[i])
}

/// Every value in `values` converts to a token.
pub open spec fn all_encodable<T: Json>(values: Seq<T>) -> bool {
    forall|i: int| 0 <= i < values.len() ==> (#[trigger] values[i]).spec_to_token() is Some
}

/// Every value stored in `entries` converts to a token.
pub open spec fn all_values_encodable<T: Json>(entries: Seq<(Seq<char>, T)>) -> bool {
    forall|i: int| 0 <= i < entries.len() ==> (#[trigger] entries[i]).1.spec_to_token() is Some
}

/// Every token value stored in `entries` is one that `T::from_token` accepts.
pub open spec fn all_values_accepted<T: Json>(entries: Seq<(Seq<char>, JsonValue)>) -> bool {
    forall|i: int| 0 <= i < entries.len() ==> T::spec_accepts((#[trigger] entries[i]).1)
}

/// `values` has the keys of `entries`, in order, each with the value that the
/// token value under that key stands for.
pub open spec fn all_values_decoded<T: Json>(
    entries: Seq<(Seq<char>, JsonValue)>,
    values: Seq<(Seq<char>, T)>,
) -> bool {
    &&& values.len() == entries.len()
    &&& forall|i: int|
        0 <= i < entries.len() ==> (#[trigger] values[i]).0 == entries[i].0 && T::spec_decodes(
            entries[i].1,
            values[i].1,
        )
}

/// `t` is a token that a call of `T::to_token` on `x` may return.
pub open spec fn gives_token<T: Json>(x: &T, t: Token) -> bool {
    call_ensures(T::to_token, (x,), Ok::<Token, T::Error>(t))
}

/// `e` is an error that a call of `T::to_token` on `x` may return.
pub open spec fn token_error<T: Json>(x: &T, e: T::Error) -> bool {
    call_ensures(T::to_token, (x,), Err::<Token, T::Error>(e))
}

/// Some call of `T::to_token` on `x` may succeed.
pub open spec fn converts<T: Json>(x: &T) -> bool {
    exists|t: Token| gives_token(x, t)
}

/// `x` is a value that a call of `T::from_token` on `t` may return.
pub open spec fn reads_as<T: Json>(t: &Token, x: T) -> bool {
    call_ensures(T::from_token, (t,), Ok::<T, T::Error>(x))
}

/// `e` is an error that a call of `T::from_token` on `t` may return.
pub open spec fn read_error<T: Json>(t: &Token, e: T::Error) -> bool {
    call_ensures(T::from_token, (t,), Err::<T, T::Error>(e))
}

/// Some call of `T::from_token` on `t` may succeed.
pub open spec fn readable<T: Json>(t: &Token) -> bool {
    exists|x: T| reads_as(t, x)
}

/// `e` is what a call of `T::to_token` may return on one of `values`, and a
/// call on each value before it may succeed.
pub open spec fn first_token_error<T: Json>(values: Seq<T>, e: T::Error) -> bool {
    exists|i: int|
        0 <= i < values.len() && #[trigger] token_error(&values[i], e) && forall|j: int|
            0 <= j < i ==> converts(#[trigger] &values[j])
}

/// The values of object entries, in order.
pub open spec fn entry_values<K, V>(entries: Seq<(K, V)>) -> Seq<V> {
    Seq::new(entries.len(), |i: int| entries[i].1)
}

/// `e` is what a call of `T::from_token` may return on one of `tokens`, and a
/// call on each token before it may succeed.
pub open spec fn first_read_error<T: Json>(tokens: Seq<Token>, e: T::Error) -> bool {
    exists|i: int|
        0 <= i < tokens.len() && #[trigger] read_error::<T>(&tokens[i], e) && forall|j: int|
            0 <= j < i ==> readable::<T>(#[trigger] &tokens[j])
}

/// Every token that a call of `T::to_token` may return for a value is read
/// back as that value by every call of `T::from_token`.
pub open spec fn calls_round_trip<T: Json>() -> bool {
    forall|x: T, t: Token, back: Result<T, T::Error>|
        #![trigger gives_token(&x, t), call_ensures(T::from_token, (&t,), back)]
        gives_token(&x, t) && call_ensures(T::from_token, (&t,), back) ==> back == Ok::<T, T::Error>(x)
}

/// No call of `T::to_token` returns a `null` token.
pub open spec fn never_null<T: Json>() -> bool {
    forall|x: T, t: Token| #[trigger] gives_token(&x, t) ==> !(t@ is Null)
}

/// Converting `x` to a token and back succeeds and gives `x` again.
pub open spec fn round_trips<T: Json>(x: T) -> bool {
    &&& T::obeys_json_spec()
    &&& x.spec_to_token() is Some
    &&& T::spec_accepts(x.spec_to_token().unwrap())
    &&& T::spec_decodes(x.spec_to_token().unwrap(), x)
}

impl Json for Token {
    type Error = Error;

    open spec fn obeys_json_spec() -> bool {
        true
    }

    open spec fn spec_error() -> Error {
        Error
    }

    open spec fn spec_to_token(&self) -> Option<JsonValue> {
        Some(self@)
    }

    open spec fn spec_accepts(t: JsonValue) -> bool {
        true
    }

    open spec fn spec_decodes(t: JsonValue, v: Token) -> bool {
        v@ == t
    }

    fn to_token(&self) -> (r: Result<Token, Error>) {
        Ok(self.clone())
    }

    fn from_token(token: &Token) -> (r: Result<Token, Error>) {
        Ok(token.clone())
    }

    fn error() -> Error {
        Error
    }
}

impl Json for bool {
    type Error = Error;

    open spec fn obeys_json_spec() -> bool {
        true
    }

    open spec fn spec_error() -> Error {
        Error
    }

    open spec fn spec_to_token(&self) -> Option<JsonValue> {
        Some(JsonValue::Bool(*self))
    }

    open spec fn spec_accepts(t: JsonValue) -> bool {
        t is Bool
    }

    open spec fn spec_decodes(t: JsonValue, v: bool) -> bool {
        t == JsonValue::Bool(v)
    }

    fn to_token(&self) -> (r: Result<Token, Error>) {
        Ok(Token::Bool(*self))
    }

    fn from_token(token: &Token) -> (r: Result<bool, Error>) {
        match token {
            Token::Bool(b) => Ok(*b),
            _ => Err(Error),
        }
    }

    fn error() -> Error {
        Error
    }
}

impl Json for String {
    type Error = Error;

    open spec fn obeys_json_spec() -> bool {
        true
    }

    open spec fn spec_error() -> Error {
        Error
    }

    open spec fn spec_to_token(&self) -> Option<JsonValue> {
        Some(JsonValue::String(self@))
    }

    open spec fn spec_accepts(t: JsonValue) -> bool {
        t is String
    }

    open spec fn spec_decodes(t: JsonValue, v: String) -> bool {
        t == JsonValue::String(v@)
    }

    fn to_token(&self) -> (r: Result<Token, Error>) {
        Ok(Token::String(self.clone()))
    }

    fn from_token(token: &Token) -> (r: Result<String, Error>) {
        match token {
            Token::String(s) => Ok(s.clone()),
            _ => Err(Error),
        }
    }

    fn error() -> Error {
        Error
    }
}

impl<T: Json> Json for Option<T> {
    type Error = T::Error;

    open spec fn obeys_json_spec() -> bool {
        T::obeys_json_spec()
    }

    /// The error of the item type.
    open spec fn spec_error() -> T::Error {
        T::spec_error()
    }

    open spec fn spec_to_token(&self) -> Option<JsonValue> {
        match self {
            None => Some(JsonValue::Null),
            Some(v) => v.spec_to_token(),
        }
    }

    open spec fn spec_accepts(t: JsonValue) -> bool {
        t is Null || T::spec_accepts(t)
    }

    open spec fn spec_decodes(t: JsonValue, v: Option<T>) -> bool {
        if t is Null {
            v is None
        } else {
            v matches Some(x) && T::spec_decodes(t, x)
        }
    }

    /// `None` becomes `null`; `Some(v)` becomes whatever `v.to_token()` gives.
    fn to_token(&self) -> (r: Result<Token, T::Error>)
        ensures
            self is None ==> (r matches Ok(t) && t@ == JsonValue::Null),
            self matches Some(v) ==> call_ensures(T::to_token, (&v,), r),
    {
        match self {
            None => Ok(Token::Null),
            Some(v) => v.to_token(),
        }
    }

    /// `null` reads as `None`; any other token as `Some` of what `T` reads from
    /// it, with `T`'s error where `T` fails.
    fn from_token(token: &Token) -> (r: Result<Option<T>, T::Error>)
        ensures
            token@ is Null ==> (r matches Ok(v) && v is None),
            !(token@ is Null) ==> match r {
                Ok(Some(x)) => call_ensures(T::from_token, (token,), Ok::<T, T::Error>(x)),
                Ok(None) => false,
                Err(e) => call_ensures(T::from_token, (token,), Err::<T, T::Error>(e)),
            },
    {
        match token {
            Token::Null => Ok(None),
            _ => match T::from_token(token) {
                Ok(v) => Ok(Some(v)),
                Err(e) => Err(e),
            },
        }
    }

    /// The error of the item type.
    fn error() -> (e: T::Error)
        ensures
            call_ensures(T::error, (), e),
    {
        T::error()
    }
}

impl<T: Json> Json for Vec<T> {
    type Error = T::Error;

    open spec fn obeys_json_spec() -> bool {
        T::obeys_json_spec()
    }

    /// The error of the item type.
    open spec fn spec_error() -> T::Error {
        T::spec_error()
    }

    open spec fn spec_to_token(&self) -> Option<JsonValue> {
        if all_encodable(self@) {
            Some(JsonValue::Array(Seq::new(self@.len(), |i: int| self@[i].spec_to_token().unwrap())))
        } else {
            None
        }
    }

    open spec fn spec_accepts(t: JsonValue) -> bool {
        match t {
            JsonValue::Array(items) => all_accepted::<T>(items),
            _ => false,
        }
    }

    open spec fn spec_decodes(t: JsonValue, v: Vec<T>) -> bool {
        match t {
            JsonValue::Array(items) => all_decoded(items, v@),
            _ => false,
        }
    }

    /// The array of the items' tokens, in order; where an item fails, the error
    /// of the first item that fails.
    fn to_token(&self) -> (r: Result<Token, T::Error>)
        ensures
            r matches Ok(t) ==> (t matches Token::Array(items) && items@.len() == self@.len()
                && forall|i: int| 0 <= i < self@.len() ==> gives_token(&self@[i], #[trigger] items@[i])),
            r matches Err(e) ==> first_token_error(self@, e),
    {
        let mut out: Vec<Token> = Vec::new();
        let mut i: usize = 0;
        while i < self.len()
            invariant
                i <= self@.len(),
                out@.len() == i,
                T::obeys_json_spec() ==> forall|j: int|
                    0 <= j < i ==> (#[trigger] self@[j]).spec_to_token() == Some(out@[j]@),
                forall|j: int| 0 <= j < i ==> gives_token(&self@[j], #[trigger] out@[j]),
            decreases self@.len() - i,
        {
            match self[i].to_token() {
                Ok(t) => out.push(t),
                Err(e) => {
                    assert forall|j: int| 0 <= j < i implies converts(#[trigger] &self@[j]) by {
                        assert(gives_token(&self@[j], out@[j]));
                    }
                    assert(token_error(&self@[i as int], e));
                    assert(first_token_error(self@, e));
                    return Err(e);
                },
            }
            i += 1;
        }
        let r = Token::Array(out);
        proof {
            if T::obeys_json_spec() {
                assert(r@->Array_0 =~= Seq::new(self@.len(), |i: int| self@[i].spec_to_token().unwrap()));
            }
        }
        Ok(r)
    }

    /// The items that `T` reads from the array's tokens, in order; where one
    /// fails, the error of the first that fails; the item type's error for a
    /// token that is no array.
    fn from_token(token: &Token) -> (r: Result<Vec<T>, T::Error>)
        ensures
            !(token@ is Array) ==> (r matches Err(e) && call_ensures(T::error, (), e)),
            *token matches Token::Array(items) ==> match r {
                Ok(v) => v@.len() == items@.len() && forall|i: int|
                    0 <= i < items@.len() ==> reads_as(&items@[i], #[trigger] v@[i]),
                Err(e) => first_read_error::<T>(items@, e),
            },
    {
        match token {
            Token::Array(items) => {
                let mut out: Vec<T> = Vec::new();
                let mut i: usize = 0;
                while i < items.len()
                    invariant
                        i <= items@.len(),
                        out@.len() == i,
                        *token == Token::Array(*items),
                        token@ == JsonValue::Array(tokens_value(items@)),
                        T::obeys_json_spec() ==> forall|j: int|
                            0 <= j < i ==> T::spec_accepts(#[trigger] items@[j]@),
                        T::obeys_json_spec() ==> forall|j: int|
                            0 <= j < i ==> T::spec_decodes(#[trigger] items@[j]@, out@[j]),
                        forall|j: int| 0 <= j < i ==> reads_as(&items@[j], #[trigger] out@[j]),
                    decreases items@.len() - i,
                {
                    match T::from_token(&items[i]) {
                        Ok(v) => out.push(v),
                        Err(e) => {
                            assert(tokens_value(items@)[i as int] == items@[i as int]@);
                            assert forall|j: int| 0 <= j < i implies readable::<T>(#[trigger] &items@[j]) by {
                                assert(reads_as(&items@[j], out@[j]));
                            }
                            assert(read_error::<T>(&items@[i as int], e));
                            assert(first_read_error::<T>(items@, e));
                            return Err(e);
                        },
                    }
                    i += 1;
                }
                Ok(out)
            },
            _ => Err(T::error()),
        }
    }

    /// The error of the item type.
    fn error() -> (e: T::Error)
        ensures
            call_ensures(T::error, (), e),
    {
        T::error()
    }
}

impl<T: Json> Json for ObjectMap<T> {
    type Error = T::Error;

    open spec fn obeys_json_spec() -> bool {
        T::obeys_json_spec()
    }

    /// The error of the item type.
    open spec fn spec_error() -> T::Error {
        T::spec_error()
    }

    open spec fn spec_to_token(&self) -> Option<JsonValue> {
        if all_values_encodable(self@) {
            Some(
                JsonValue::Object(
                    Seq::new(
                        self@.len(),
                        |i: int| (self@[i].0, self@[i].1.spec_to_token().unwrap()),
                    ),
                ),
            )
        } else {
            None
        }
    }

    open spec fn spec_accepts(t: JsonValue) -> bool {
        match t {
            JsonValue::Object(entries) => all_values_accepted::<T>(entries),
            _ => false,
        }
    }

    open spec fn spec_decodes(t: JsonValue, v: ObjectMap<T>) -> bool {
        match t {
            JsonValue::Object(entries) => all_values_decoded(entries, v@),
            _ => false,
        }
    }

    /// The object of the values' tokens under the same keys, in order; where a
    /// value fails, the error of the first value that fails.
    fn to_token(&self) -> (r: Result<Token, T::Error>)
        ensures
            r matches Ok(t) ==> (t matches Token::Object(o) && o@.len() == self@.len() && forall|i: int|
                0 <= i < self@.len() ==> (#[trigger] o@[i]).0 == self@[i].0 && gives_token(
                    &self@[i].1,
                    o@[i].1,
                )),
            r matches Err(e) ==> first_token_error(entry_values(self@), e),
    {
        let entries = self.as_slice();
        let mut out: ObjectMap<Token> = ObjectMap::new();
        let mut i: usize = 0;
        while i < entries.len()
            invariant
                i <= self@.len(),
                entries_match(entries@, self@),
                distinct_keys(self@),
                out@.len() == i,
                forall|j: int| 0 <= j < i ==> (#[trigger] out@[j]).0 == self@[j].0,
                T::obeys_json_spec() ==> forall|j: int|
                    0 <= j < i ==> self@[j].1.spec_to_token() == Some((#[trigger] out@[j]).1@),
                forall|j: int| 0 <= j < i ==> gives_token(&self@[j].1, (#[trigger] out@[j]).1),
            decreases self@.len() - i,
        {
            assert(entries@[i as int].1 == self@[i as int].1);
            match entries[i].1.to_token() {
                Ok(t) => {
                    let key = entries[i].0.clone();
                    assert(!has_key(out@, key@)) by {
                        if has_key(out@, key@) {
                            let j = key_index(out@, key@);
                            assert(self@[j].0 == self@[i as int].0);
                        }
                    }
                    out.insert(key, t);
                },
                Err(e) => {
                    let ghost values = entry_values(self@);
                    assert forall|j: int| 0 <= j < i implies converts(#[trigger] &values[j]) by {
                        assert(gives_token(&self@[j].1, out@[j].1));
                    }
                    assert(token_error(&values[i as int], e));
                    assert(first_token_error(values, e));
                    return Err(e);
                },
            }
            i += 1;
        }
        let r = Token::Object(out);
        proof {
            if T::obeys_json_spec() {
                assert forall|j: int|
                    0 <= j < self@.len() implies (#[trigger] self@[j]).1.spec_to_token() is Some by {
                    assert(out@[j].0 == self@[j].0);
                }
                assert(all_values_encodable(self@));
                assert(entries_value(out@) =~= Seq::new(
                    self@.len(),
                    |i: int| (self@[i].0, self@[i].1.spec_to_token().unwrap()),
                ));
            }
        }
        Ok(r)
    }

    /// The values that `T` reads from the object's tokens, under the same keys
    /// in order; where one fails, the error of the first that fails; the item
    /// type's error for a token that is no object.
    fn from_token(token: &Token) -> (r: Result<ObjectMap<T>, T::Error>)
        ensures
            !(token@ is Object) ==> (r matches Err(e) && call_ensures(T::error, (), e)),
            *token matches Token::Object(o) ==> match r {
                Ok(m) => m@.len() == o@.len() && forall|i: int|
                    0 <= i < o@.len() ==> (#[trigger] m@[i]).0 == o@[i].0 && reads_as(&o@[i].1, m@[i].1),
                Err(e) => first_read_error::<T>(entry_values(o@), e),
            },
    {
        match token {
            Token::Object(o) => {
                let entries = o.as_slice();
                let mut out: ObjectMap<T> = ObjectMap::new();
                let mut i: usize = 0;
                while i < entries.len()
                    invariant
                        i <= o@.len(),
                        entries_match(entries@, o@),
                        distinct_keys(o@),
                        *token == Token::Object(*o),
                        token@ == JsonValue::Object(entries_value(o@)),
                        out@.len() == i,
                        forall|j: int| 0 <= j < i ==> reads_as(&o@[j].1, (#[trigger] out@[j]).1),
                        forall|j: int| 0 <= j < i ==> (#[trigger] out@[j]).0 == o@[j].0,
                        T::obeys_json_spec() ==> forall|j: int|
                            #![trigger out@[j]]
                            #![trigger o@[j]]
                            0 <= j < i ==> T::spec_accepts(o@[j].1@) && T::spec_decodes(
                                o@[j].1@,
                                out@[j].1,
                            ),
                    decreases o@.len() - i,
                {
                    assert(entries@[i as int].1 == o@[i as int].1);
                    match T::from_token(&entries[i].1) {
                        Ok(v) => {
                            let key = entries[i].0.clone();
                            assert(!has_key(out@, key@)) by {
                                if has_key(out@, key@) {
                                    let j = key_index(out@, key@);
                                    assert(o@[j].0 == o@[i as int].0);
                                }
                            }
                            out.insert(key, v);
                        },
                        Err(e) => {
                            assert(entries_value(o@)[i as int].1 == o@[i as int].1@);
                            let ghost values = entry_values(o@);
                            assert forall|j: int| 0 <= j < i implies readable::<T>(#[trigger] &values[j]) by {
                                assert(reads_as(&o@[j].1, out@[j].1));
                            }
                            assert(read_error::<T>(&values[i as int], e));
                            assert(first_read_error::<T>(values, e));
                            return Err(e);
                        },
                    }
                    i += 1;
                }
                proof {
                    if T::obeys_json_spec() {
                        let values = entries_value(o@);
                        assert forall|j: int| 0 <= j < o@.len() implies T::spec_accepts(
                            (#[trigger] values[j]).1,
                        ) by {
                            assert(out@[j].0 == o@[j].0);
                        }
                        assert forall|j: int|
                            0 <= j < o@.len() implies (#[trigger] out@[j]).0 == values[j].0
                            && T::spec_decodes(values[j].1, out@[j].1) by {
                            assert(out@[j].0 == o@[j].0);
                        }
                        assert(all_values_accepted::<T>(values));
                        assert(all_values_decoded(values, out@));
                    }
                }
                Ok(out)
            },
            _ => Err(T::error()),
        }
    }

    /// The error of the item type.
    fn error() -> (e: T::Error)
        ensures
            call_ensures(T::error, (), e),
    {
        T::error()
    }
}

} // verus!
