use vstd::prelude::*;
use crate::number::{Number, NumberRepr};

verus! {

/// The mathematical value of a token. An object keeps its entries in the order
/// in which they were first inserted, and no key occurs twice in it.
pub enum JsonValue {
    Null,
    Bool(bool),
    Number(NumberRepr),
    String(Seq<char>),
    Array(Seq<JsonValue>),
    Object(Seq<(Seq<char>, JsonValue)>),
}

/// No key occurs twice among the entries.
pub open spec fn distinct_keys<V>(s: Seq<(Seq<char>, V)>) -> bool {
    forall|i: int, j: int|
        0 <= i < s.len() && 0 <= j < s.len() && i != j ==> #[trigger] s[i].0 != #[trigger] s[j].0
}

/// Some entry has this key.
pub open spec fn has_key<V>(s: Seq<(Seq<char>, V)>, k: Seq<char>) -> bool {
    exists|i: int| 0 <= i < s.len() && #[trigger] s[i].0 == k
}

/// The position of an entry with this key, where there is one.
pub open spec fn key_index<V>(s: Seq<(Seq<char>, V)>, k: Seq<char>) -> int {
    choose|i: int| 0 <= i < s.len() && #[trigger] s[i].0 == k
}

/// The value stored under this key, where there is one.
pub open spec fn lookup<V>(s: Seq<(Seq<char>, V)>, k: Seq<char>) -> Option<V> {
    if has_key(s, k) {
        Some(s[key_index(s, k)].1)
    } else {
        None
    }
}

/// The entries after `k` is set to `v`: an entry with key `k` has its value
/// replaced in place, else the entry is appended.
pub open spec fn set_entry<V>(s: Seq<(Seq<char>, V)>, k: Seq<char>, v: V) -> Seq<(Seq<char>, V)> {
    if has_key(s, k) {
        s.update(key_index(s, k), (k, v))
    } else {
        s.push((k, v))
    }
}

/// The executable entries `raw` hold the keys and values of `s`, in order.
pub open spec fn entries_match<V>(raw: Seq<(String, V)>, s: Seq<(Seq<char>, V)>) -> bool {
    &&& raw.len() == s.len()
    &&& forall|i: int| 0 <= i < s.len() ==> (#[trigger] raw[i]).0@ == s[i].0 && raw[i].1 == s[i].1
}

/// A JSON object: string keys, each present once, with their values, in the
/// order in which the keys were first inserted.
#[derive(Debug)]
pub struct ObjectMap<V> {
    entries: Vec<(String, V)>,
}

impl<V> View for ObjectMap<V> {
    type V = Seq<(Seq<char>, V)>;

    closed spec fn view(&self) -> Seq<(Seq<char>, V)> {
        Seq::new(self.entries@.len(), |i: int| (self.entries@[i].0@, self.entries@[i].1))
    }
}

/// The position of the first entry whose key is `key`.
fn position<V>(entries: &Vec<(String, V)>, key: &String) -> (r: Option<usize>)
    ensures
        r matches Some(i) ==> i < entries@.len() && entries@[i as int].0@ == key@,
        r is None ==> forall|j: int| 0 <= j < entries@.len() ==> #[trigger] entries@[j].0@ != key@,
{
    let mut i: usize = 0;
    while i < entries.len()
        invariant
            i <= entries@.len(),
            forall|j: int| 0 <= j < i ==> #[trigger] entries@[j].0@ != key@,
        decreases entries@.len() - i,
    {
        if entries[i].0 == *key {
            return Some(i);
        }
        i += 1;
    }
    None
}

impl<V> ObjectMap<V> {
    #[verifier::type_invariant]
    spec fn keys_are_distinct(self) -> bool {
        distinct_keys(self@)
    }

    /// The empty object.
    pub fn new() -> (m: ObjectMap<V>)
        ensures
            m@ == Seq::<(Seq<char>, V)>::empty(),
    {
        let m = ObjectMap { entries: Vec::new() };
        assert(m@ =~= Seq::<(Seq<char>, V)>::empty());
        m
    }

    /// The number of entries.
    pub fn len(&self) -> (n: usize)
        ensures
            n == self@.len(),
    {
        self.entries.len()
    }

    /// The value stored under `key`, if any.
    pub fn get(&self, key: &str) -> (r: Option<&V>)
        ensures
            r is Some <==> has_key(self@, key@),
            r matches Some(v) ==> lookup(self@, key@) == Some(*v),
            distinct_keys(self@),
    {
        proof { use_type_invariant(self); }
        let k = key.to_owned();
        match position(&self.entries, &k) {
            Some(i) => {
                assert(self@[i as int].0 == key@);
                assert(key_index(self@, key@) == i as int);
                Some(&self.entries[i].1)
            },
            None => {
                assert(!has_key(self@, key@)) by {
                    if has_key(self@, key@) {
                        let j = key_index(self@, key@);
                        assert(self.entries@[j].0@ != key@);
                    }
                }
                None
            },
        }
    }

    /// Stores `value` under `key`. An entry with that key keeps its place and has
    /// its value replaced, and the value it held is returned; otherwise the entry
    /// is appended.
    pub fn insert(&mut self, key: String, value: V) -> (previous: Option<V>)
        ensures
            final(self)@ == set_entry(old(self)@, key@, value),
            previous == lookup(old(self)@, key@),
            distinct_keys(old(self)@),
    {
        proof { use_type_invariant(&*self); }
        let ghost old_view = self@;
        let mut entries: Vec<(String, V)> = Vec::new();
        std::mem::swap(&mut entries, &mut self.entries);
        assert(entries_match(entries@, old_view));
        match position(&entries, &key) {
            Some(i) => {
                assert(old_view[i as int].0 == key@);
                assert(key_index(old_view, key@) == i as int);
                let (_, old_value) = entries.remove(i);
                entries.insert(i, (key, value));
                let m = ObjectMap { entries };
                assert(m@ =~= set_entry(old_view, key@, value));
                *self = m;
                Some(old_value)
            },
            None => {
                assert(!has_key(old_view, key@)) by {
                    if has_key(old_view, key@) {
                        let j = key_index(old_view, key@);
                        assert(entries@[j].0@ != key@);
                    }
                }
                entries.push((key, value));
                let m = ObjectMap { entries };
                assert(m@ =~= set_entry(old_view, key@, value));
                *self = m;
                None
            },
        }
    }

    /// The entries, in order.
    pub fn as_slice(&self) -> (r: &[(String, V)])
        ensures
            entries_match(r@, self@),
            distinct_keys(self@),
    {
        proof { use_type_invariant(self); }
        self.entries.as_slice()
    }

    /// The entries, in order, taken out of the object.
    pub fn into_entries(self) -> (r: Vec<(String, V)>)
        ensures
            entries_match(r@, self@),
    {
        self.entries
    }
}

/// A JSON token.
#[derive(Debug)]
pub enum Token {
    Null,
    Bool(bool),
    Number(Number),
    String(String),
    Array(Vec<Token>),
    Object(ObjectMap<Token>),
}

/// The value of a token: its shape, with the values of the tokens it holds.
pub closed spec fn token_value(t: Token) -> JsonValue
    decreases t,
{
    match t {
        Token::Null => JsonValue::Null,
        Token::Bool(b) => JsonValue::Bool(b),
        Token::Number(n) => JsonValue::Number(n@),
        Token::String(s) => JsonValue::String(s@),
        Token::Array(v) => JsonValue::Array(
            Seq::new(
                v@.len(),
                |i: int|
                    if 0 <= i < v@.len() {
                        token_value(v@[i])
                    } else {
                        JsonValue::Null
                    },
            ),
        ),
        Token::Object(o) => JsonValue::Object(
            Seq::new(
                o.entries@.len(),
                |i: int|
                    if 0 <= i < o.entries@.len() {
                        (o.entries@[i].0@, token_value(o.entries@[i].1))
                    } else {
                        (Seq::empty(), JsonValue::Null)
                    },
            ),
        ),
    }
}

impl View for Token {
    type V = JsonValue;

    open spec fn view(&self) -> JsonValue {
        token_value(*self)
    }
}

/// The values of a sequence of tokens.
pub open spec fn tokens_value(v: Seq<Token>) -> Seq<JsonValue> {
    Seq::new(v.len(), |i: int| v[i]@)
}

/// The keys and values of a sequence of object entries whose values are tokens.
pub open spec fn entries_value(s: Seq<(Seq<char>, Token)>) -> Seq<(Seq<char>, JsonValue)> {
    Seq::new(s.len(), |i: int| (s[i].0, s[i].1@))
}

/// The value of a token follows its shape.
pub broadcast proof fn lemma_token_view(t: Token)
    ensures
        #[trigger] t@ == match t {
            Token::Null => JsonValue::Null,
            Token::Bool(b) => JsonValue::Bool(b),
            Token::Number(n) => JsonValue::Number(n@),
            Token::String(s) => JsonValue::String(s@),
            Token::Array(v) => JsonValue::Array(tokens_value(v@)),
            Token::Object(o) => JsonValue::Object(entries_value(o@)),
        },
{
    match t {
        Token::Array(v) => {
            assert(token_value(t)->Array_0 =~= tokens_value(v@));
        },
        Token::Object(o) => {
            assert(token_value(t)->Object_0 =~= entries_value(o@));
        },
        _ => {},
    }
}

impl Token {
    /// A copy of this token with the same value.
    fn duplicate(&self) -> (r: Token)
        ensures
            r@ == self@,
        decreases self,
    {
        proof { lemma_token_view(*self); }
        match self {
            Token::Null => Token::Null,
            Token::Bool(b) => Token::Bool(*b),
            Token::Number(n) => Token::Number(*n),
            Token::String(s) => Token::String(s.clone()),
            Token::Array(v) => {
                let mut out: Vec<Token> = Vec::new();
                let mut i: usize = 0;
                while i < v.len()
                    invariant
                        i <= v@.len(),
                        out@.len() == i,
                        forall|j: int| 0 <= j < i ==> #[trigger] out@[j]@ == v@[j]@,
                        *self == Token::Array(*v),
                    decreases v@.len() - i,
                {
                    proof {
                        assert(decreases_to!(*self => (*self)->Array_0));
                        assert(decreases_to!(*v => v@));
                        assert(decreases_to!(v@ => v@[i as int]));
                    }
                    let item = v[i].duplicate();
                    out.push(item);
                    i += 1;
                }
                let r = Token::Array(out);
                proof {
                    lemma_token_view(r);
                    assert(tokens_value(out@) =~= tokens_value(v@));
                }
                r
            },
            Token::Object(o) => {
                proof { use_type_invariant(o); }
                let mut out: Vec<(String, Token)> = Vec::new();
                let mut i: usize = 0;
                while i < o.entries.len()
                    invariant
                        i <= o.entries@.len(),
                        out@.len() == i,
                        forall|j: int|
                            0 <= j < i ==> #[trigger] out@[j].0@ == o.entries@[j].0@
                                && out@[j].1@ == o.entries@[j].1@,
                        *self == Token::Object(*o),
                    decreases o.entries@.len() - i,
                {
                    proof {
                        let e = o.entries@[i as int];
                        assert(decreases_to!(*self => (*self)->Object_0));
                        assert(decreases_to!(*o => o.entries));
                        assert(decreases_to!(o.entries => o.entries@));
                        assert(decreases_to!(o.entries@ => e));
                        assert(decreases_to!(e => e.1));
                    }
                    let key = o.entries[i].0.clone();
                    let item = o.entries[i].1.duplicate();
                    out.push((key, item));
                    i += 1;
                }
                proof {
                    let mv = Seq::new(out@.len(), |j: int| (out@[j].0@, out@[j].1));
                    assert(forall|j: int| 0 <= j < mv.len() ==> #[trigger] mv[j].0 == o@[j].0);
                    assert(distinct_keys(mv));
                }
                let m = ObjectMap { entries: out };
                let r = Token::Object(m);
                proof {
                    lemma_token_view(r);
                    assert(entries_value(m@) =~= entries_value(o@));
                }
                r
            },
        }
    }
}

impl Clone for Token {
    /// A copy of this token with the same value.
    fn clone(&self) -> (r: Token)
        ensures
            r@ == self@,
    {
        self.duplicate()
    }
}


/// Setting a key keeps the keys distinct, and reading a key back after setting
/// it gives the value set, while every other key reads as before.
pub(crate) proof fn lemma_set_entry<V>(s: Seq<(Seq<char>, V)>, k: Seq<char>, v: V, other: Seq<char>)
    requires
        distinct_keys(s),
    ensures
        distinct_keys(set_entry(s, k, v)),
        lookup(set_entry(s, k, v), k) == Some(v),
        other != k ==> lookup(set_entry(s, k, v), other) == lookup(s, other),
{
    let t = set_entry(s, k, v);
    if has_key(s, k) {
        let i = key_index(s, k);
        assert(t[i].0 == k);
        assert(key_index(t, k) == i);
    } else {
        assert(t[s.len() as int].0 == k);
        assert(key_index(t, k) == s.len() as int);
    }
    if other != k {
        if has_key(s, other) {
            let j = key_index(s, other);
            assert(t[j].0 == other);
            assert(key_index(t, other) == j);
        } else {
            assert(!has_key(t, other)) by {
                if has_key(t, other) {
                    let j = key_index(t, other);
                    assert(s[j].0 == other);
                }
            }
        }
    }
}

/// Reading a key of object entries whose values are tokens agrees with reading
/// it from their values.
pub proof fn lemma_lookup_entries_value(s: Seq<(Seq<char>, Token)>, k: Seq<char>)
    requires
        distinct_keys(s),
    ensures
        distinct_keys(entries_value(s)),
        lookup(s, k) matches Some(t) ==> lookup(entries_value(s), k) == Some(t@),
        lookup(s, k) is None ==> lookup(entries_value(s), k) is None,
{
    let e = entries_value(s);
    assert(forall|i: int| 0 <= i < s.len() ==> #[trigger] e[i].0 == s[i].0);
    if has_key(s, k) {
        let i = key_index(s, k);
        assert(e[i].0 == k);
        assert(key_index(e, k) == i);
    } else {
        assert(!has_key(e, k)) by {
            if has_key(e, k) {
                let j = key_index(e, k);
                assert(s[j].0 == k);
            }
        }
    }
}

/// Setting a key in object entries whose values are tokens commutes with
/// taking their values.
pub proof fn lemma_set_entries_value(s: Seq<(Seq<char>, Token)>, k: Seq<char>, t: Token)
    requires
        distinct_keys(s),
    ensures
        entries_value(set_entry(s, k, t)) == set_entry(entries_value(s), k, t@),
{
    let e = entries_value(s);
    assert(forall|i: int| 0 <= i < s.len() ==> #[trigger] e[i].0 == s[i].0);
    if has_key(s, k) {
        let i = key_index(s, k);
        assert(e[i].0 == k);
        assert(key_index(e, k) == i);
        assert(entries_value(set_entry(s, k, t)) =~= set_entry(e, k, t@));
    } else {
        assert(!has_key(e, k)) by {
            if has_key(e, k) {
                let j = key_index(e, k);
                assert(s[j].0 == k);
            }
        }
        assert(entries_value(set_entry(s, k, t)) =~= set_entry(e, k, t@));
    }
}

} // verus!
