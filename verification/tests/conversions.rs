use resoxide_json::derived::{
    decode_field, encode_field, json_name, tag_variant, variant_index, variant_tag,
};
use resoxide_json::{Error, Json, Number, NumberRepr, ObjectMap, Token};

fn number_repr(t: &Token) -> NumberRepr {
    match t {
        Token::Number(n) => n.repr(),
        _ => panic!("not a number token"),
    }
}

fn string_token(s: &str) -> Token {
    Token::String(s.to_string())
}

#[test]
fn error_text() {
    assert_eq!(Error.to_string(), "Json-Error");
}

#[test]
fn unsigned_to_token_is_positive_number() {
    let t = 42u8.to_token().unwrap();
    assert!(matches!(number_repr(&t), NumberRepr::PosInt(42)));
    let t = u64::MAX.to_token().unwrap();
    assert!(matches!(number_repr(&t), NumberRepr::PosInt(u64::MAX)));
}

#[test]
fn signed_to_token_splits_by_sign() {
    assert!(matches!(number_repr(&(-5i8).to_token().unwrap()), NumberRepr::NegInt(-5)));
    assert!(matches!(number_repr(&7i32.to_token().unwrap()), NumberRepr::PosInt(7)));
    assert!(matches!(number_repr(&0i64.to_token().unwrap()), NumberRepr::PosInt(0)));
}

#[test]
fn unsigned_from_number_checks_range() {
    assert_eq!(u8::from_token(&Token::Number(Number::from_u64(255))).unwrap(), 255);
    assert!(u8::from_token(&Token::Number(Number::from_u64(256))).is_err());
    assert!(u16::from_token(&Token::Number(Number::from_i64(-1))).is_err());
    assert_eq!(u64::from_token(&Token::Number(Number::from_u64(u64::MAX))).unwrap(), u64::MAX);
}

#[test]
fn signed_from_number_checks_range() {
    assert_eq!(i8::from_token(&Token::Number(Number::from_i64(-128))).unwrap(), -128);
    assert!(i8::from_token(&Token::Number(Number::from_i64(128))).is_err());
    assert!(i64::from_token(&Token::Number(Number::from_u64(u64::MAX))).is_err());
    assert_eq!(i64::from_token(&Token::Number(Number::from_i64(i64::MIN))).unwrap(), i64::MIN);
}

#[test]
fn integers_from_float_number_fail() {
    let one_and_half = Number::from_f64_bits(1.5f64.to_bits()).unwrap();
    assert!(u32::from_token(&Token::Number(one_and_half)).is_err());
    assert!(i32::from_token(&Token::Number(one_and_half)).is_err());
}

#[test]
fn integers_from_decimal_strings() {
    assert_eq!(u8::from_token(&string_token("42")).unwrap(), 42);
    assert_eq!(u16::from_token(&string_token("+7")).unwrap(), 7);
    assert_eq!(u32::from_token(&string_token("0007")).unwrap(), 7);
    assert_eq!(i8::from_token(&string_token("-0")).unwrap(), 0);
    assert_eq!(i16::from_token(&string_token("-300")).unwrap(), -300);
    assert_eq!(i64::from_token(&string_token("9223372036854775807")).unwrap(), i64::MAX);
    assert!(u8::from_token(&string_token("-0")).is_err());
    assert!(u8::from_token(&string_token("300")).is_err());
    assert!(u8::from_token(&string_token("")).is_err());
    assert!(u8::from_token(&string_token("+")).is_err());
    assert!(i32::from_token(&string_token("-")).is_err());
    assert!(i32::from_token(&string_token(" 1")).is_err());
    assert!(i32::from_token(&string_token("1_000")).is_err());
    assert!(u64::from_token(&string_token("18446744073709551616")).is_err());
}

#[test]
fn integers_from_other_tokens_fail() {
    assert!(u8::from_token(&Token::Null).is_err());
    assert!(i8::from_token(&Token::Bool(true)).is_err());
    assert!(u32::from_token(&Token::Array(vec![])).is_err());
}

#[test]
fn bool_and_string_round_trip() {
    let t = true.to_token().unwrap();
    assert!(matches!(t, Token::Bool(true)));
    assert!(bool::from_token(&t).unwrap());
    assert!(bool::from_token(&Token::Null).is_err());
    let s = String::from("héllo");
    let t = s.to_token().unwrap();
    assert_eq!(String::from_token(&t).unwrap(), "héllo");
    assert!(String::from_token(&Token::Bool(false)).is_err());
}

#[test]
fn option_uses_null() {
    assert!(matches!(None::<u8>.to_token().unwrap(), Token::Null));
    assert_eq!(Option::<u8>::from_token(&Token::Null).unwrap(), None);
    assert_eq!(Option::<u8>::from_token(&string_token("9")).unwrap(), Some(9));
    assert!(Option::<u8>::from_token(&Token::Bool(true)).is_err());
}

#[test]
fn nested_none_reads_back_as_none() {
    let t = Some(None::<u8>).to_token().unwrap();
    assert!(matches!(t, Token::Null));
    assert_eq!(Option::<Option<u8>>::from_token(&t).unwrap(), None);
}

#[test]
fn vec_round_trip_and_error() {
    let v: Vec<i16> = vec![-1, 0, 300];
    let t = v.to_token().unwrap();
    match &t {
        Token::Array(items) => assert_eq!(items.len(), 3),
        _ => panic!("not an array"),
    }
    assert_eq!(Vec::<i16>::from_token(&t).unwrap(), v);
    let bad = Token::Array(vec![Token::Number(Number::from_u64(1)), Token::Bool(true)]);
    assert!(Vec::<u8>::from_token(&bad).is_err());
    assert!(Vec::<u8>::from_token(&Token::Null).is_err());
}

#[test]
fn object_map_insert_get_and_order() {
    let mut m: ObjectMap<u8> = ObjectMap::new();
    assert_eq!(m.insert("b".to_string(), 1), None);
    assert_eq!(m.insert("a".to_string(), 2), None);
    assert_eq!(m.insert("b".to_string(), 3), Some(1));
    assert_eq!(m.len(), 2);
    assert_eq!(m.get("b"), Some(&3));
    assert_eq!(m.get("a"), Some(&2));
    assert_eq!(m.get("c"), None);
    let keys: Vec<&str> = m.as_slice().iter().map(|(k, _)| k.as_str()).collect();
    assert_eq!(keys, vec!["b", "a"]);
}

#[test]
fn object_map_round_trip() {
    let mut m: ObjectMap<bool> = ObjectMap::new();
    m.insert("x".to_string(), true);
    m.insert("y".to_string(), false);
    let t = m.to_token().unwrap();
    let back = ObjectMap::<bool>::from_token(&t).unwrap();
    let entries = back.into_entries();
    assert_eq!(entries, vec![("x".to_string(), true), ("y".to_string(), false)]);
    assert!(ObjectMap::<bool>::from_token(&Token::Array(vec![])).is_err());
}

#[test]
fn token_converts_to_itself() {
    let mut m: ObjectMap<Token> = ObjectMap::new();
    m.insert("k".to_string(), Token::Array(vec![Token::Null, string_token("v")]));
    let t = Token::Object(m);
    let copy = t.to_token().unwrap();
    match Token::from_token(&copy).unwrap() {
        Token::Object(o) => match o.get("k") {
            Some(Token::Array(items)) => {
                assert_eq!(items.len(), 2);
                assert!(matches!(&items[1], Token::String(s) if s == "v"));
            },
            _ => panic!("missing entry"),
        },
        _ => panic!("not an object"),
    }
}

#[test]
fn number_constructors_and_accessors() {
    assert!(matches!(Number::from_i64(-1).repr(), NumberRepr::NegInt(-1)));
    assert!(matches!(Number::from_i64(5).repr(), NumberRepr::PosInt(5)));
    assert!(Number::from_f64_bits(f64::INFINITY.to_bits()).is_err());
    assert!(Number::from_f64_bits(f64::NEG_INFINITY.to_bits()).is_err());
    assert!(Number::from_f64_bits(f64::NAN.to_bits()).is_err());
    assert!(Number::from_f64_bits(0.25f64.to_bits()).is_ok());
    assert!(Number::from_u64(u64::MAX).as_i64().is_err());
    assert_eq!(Number::from_u64(7).as_i64().unwrap(), 7);
    assert!(Number::from_i64(-7).as_u64().is_err());
    assert_eq!(Number::from_i64(-7).as_i64().unwrap(), -7);
}

#[test]
fn json_names_are_camel_case() {
    assert_eq!(json_name("user_name"), "userName");
    assert_eq!(json_name("FooBar"), "fooBar");
    assert_eq!(json_name("id"), "id");
}

#[test]
fn variant_tags_round_trip() {
    let payload = Token::Object(ObjectMap::new());
    let tagged = tag_variant("circle", payload).unwrap();
    assert_eq!(variant_tag(&tagged).unwrap(), "circle");
    assert!(tag_variant("circle", Token::Null).is_err());
    assert!(variant_tag(&Token::Object(ObjectMap::new())).is_err());
    let mut m = ObjectMap::new();
    m.insert("$type".to_string(), Token::Bool(true));
    assert!(variant_tag(&Token::Object(m)).is_err());
}

#[test]
fn tag_replaces_an_existing_tag() {
    let mut m = ObjectMap::new();
    m.insert("$type".to_string(), string_token("old"));
    m.insert("r".to_string(), Token::Number(Number::from_u64(2)));
    let tagged = tag_variant("new", Token::Object(m)).unwrap();
    assert_eq!(variant_tag(&tagged).unwrap(), "new");
    match tagged {
        Token::Object(o) => assert_eq!(o.len(), 2),
        _ => panic!("not an object"),
    }
}

#[derive(Debug, Default, PartialEq)]
struct Point {
    x_pos: i32,
    label: Option<String>,
}

impl Json for Point {
    type Error = Error;

    fn to_token(&self) -> Result<Token, Error> {
        let mut map = ObjectMap::new();
        encode_field(&mut map, &json_name("x_pos"), &self.x_pos)?;
        encode_field(&mut map, &json_name("label"), &self.label)?;
        Ok(Token::Object(map))
    }

    fn from_token(token: &Token) -> Result<Point, Error> {
        match token {
            Token::Object(map) => Ok(Point {
                x_pos: decode_field(map, &json_name("x_pos"))?,
                label: decode_field(map, &json_name("label"))?,
            }),
            _ => Err(Error),
        }
    }

    fn error() -> Error {
        Error
    }
}

#[test]
fn fields_round_trip_with_camel_case_keys() {
    let p = Point { x_pos: -3, label: Some("here".to_string()) };
    let t = p.to_token().unwrap();
    match &t {
        Token::Object(o) => {
            assert!(o.get("xPos").is_some());
            assert!(o.get("label").is_some());
        },
        _ => panic!("not an object"),
    }
    assert_eq!(Point::from_token(&t).unwrap(), p);
}

#[test]
fn missing_fields_take_defaults() {
    let mut map = ObjectMap::new();
    map.insert("xPos".to_string(), string_token("12"));
    let p = Point::from_token(&Token::Object(map)).unwrap();
    assert_eq!(p, Point { x_pos: 12, label: None });
    let mut map = ObjectMap::new();
    map.insert("xPos".to_string(), Token::Bool(true));
    assert!(Point::from_token(&Token::Object(map)).is_err());
}

#[test]
fn every_integer_type_round_trips() {
    assert_eq!(u8::from_token(&u8::MAX.to_token().unwrap()).unwrap(), u8::MAX);
    assert_eq!(u16::from_token(&u16::MAX.to_token().unwrap()).unwrap(), u16::MAX);
    assert_eq!(u32::from_token(&u32::MAX.to_token().unwrap()).unwrap(), u32::MAX);
    assert_eq!(u64::from_token(&u64::MAX.to_token().unwrap()).unwrap(), u64::MAX);
    assert_eq!(i8::from_token(&i8::MIN.to_token().unwrap()).unwrap(), i8::MIN);
    assert_eq!(i16::from_token(&i16::MIN.to_token().unwrap()).unwrap(), i16::MIN);
    assert_eq!(i32::from_token(&i32::MAX.to_token().unwrap()).unwrap(), i32::MAX);
    assert_eq!(i64::from_token(&i64::MIN.to_token().unwrap()).unwrap(), i64::MIN);
}

#[test]
fn errors_of_generic_conversions_come_from_the_item_type() {
    let _e: Error = Vec::<u8>::error();
    let _e: Error = Option::<bool>::error();
    let _e: Error = ObjectMap::<String>::error();
}

#[derive(Debug, PartialEq)]
enum Shape {
    Circle(u8),
    Empty,
}

impl Json for Shape {
    type Error = Error;

    fn to_token(&self) -> Result<Token, Error> {
        match self {
            Shape::Circle(r) => tag_variant(&json_name("Circle"), r.to_token()?),
            Shape::Empty => tag_variant(&json_name("Empty"), Token::Object(ObjectMap::new())),
        }
    }

    fn from_token(token: &Token) -> Result<Shape, Error> {
        let names = [json_name("Circle"), json_name("Empty")];
        let refs: Vec<&str> = names.iter().map(|n| n.as_str()).collect();
        match variant_index(token, &refs)? {
            0 => Ok(Shape::Circle(u8::from_token(token)?)),
            _ => Ok(Shape::Empty),
        }
    }

    fn error() -> Error {
        Error
    }
}

#[test]
fn variant_index_picks_the_tagged_name() {
    let tagged = tag_variant("empty", Token::Object(ObjectMap::new())).unwrap();
    assert_eq!(variant_index(&tagged, &["circle", "empty"]).unwrap(), 1);
    assert_eq!(variant_index(&tagged, &["empty", "empty"]).unwrap(), 0);
    assert!(variant_index(&tagged, &["circle"]).is_err());
    assert!(variant_index(&Token::Null, &["circle"]).is_err());
}

#[test]
fn unit_variants_round_trip_and_payloads_must_be_objects() {
    let t = Shape::Empty.to_token().unwrap();
    assert_eq!(variant_tag(&t).unwrap(), "empty");
    assert_eq!(Shape::from_token(&t).unwrap(), Shape::Empty);
    assert!(Shape::Circle(3).to_token().is_err());
}

#[test]
fn containers_of_user_types() {
    assert!(matches!(None::<Point>.to_token().unwrap(), Token::Null));
    assert_eq!(Option::<Point>::from_token(&Token::Null).unwrap(), None);
    let v = vec![Point { x_pos: 1, label: None }, Point { x_pos: 2, label: Some("b".to_string()) }];
    let t = v.to_token().unwrap();
    assert_eq!(Vec::<Point>::from_token(&t).unwrap(), v);
    let bad = Token::Array(vec![Token::Object(ObjectMap::new()), Token::Null]);
    assert!(Vec::<Point>::from_token(&bad).is_err());
    assert!(Vec::<Point>::from_token(&Token::Bool(true)).is_err());
    assert!(Vec::<Point>::from_token(&Token::Array(vec![])).unwrap().is_empty());
}
