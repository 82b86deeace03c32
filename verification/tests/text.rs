use resoxide_json::{NumberRepr, Token};

#[test]
fn parses_objects_in_key_order() {
    let t = Token::deserialize_str("{\"b\": 1, \"a\": [true, null, -2, 1.5, \"x\"]}").unwrap();
    match t {
        Token::Object(o) => {
            let keys: Vec<&str> = o.as_slice().iter().map(|(k, _)| k.as_str()).collect();
            assert_eq!(keys, vec!["a", "b"]);
            match o.get("b") {
                Some(Token::Number(n)) => assert!(matches!(n.repr(), NumberRepr::PosInt(1))),
                _ => panic!("missing b"),
            }
            match o.get("a") {
                Some(Token::Array(items)) => {
                    assert_eq!(items.len(), 5);
                    assert!(matches!(items[0], Token::Bool(true)));
                    assert!(matches!(items[1], Token::Null));
                    match &items[2] {
                        Token::Number(n) => assert!(matches!(n.repr(), NumberRepr::NegInt(-2))),
                        _ => panic!("not a number"),
                    }
                    match &items[3] {
                        Token::Number(n) => match n.repr() {
                            NumberRepr::Float(bits) => assert_eq!(f64::from_bits(bits), 1.5),
                            _ => panic!("not a float"),
                        },
                        _ => panic!("not a number"),
                    }
                    assert!(matches!(&items[4], Token::String(s) if s == "x"));
                },
                _ => panic!("missing a"),
            }
        },
        _ => panic!("not an object"),
    }
}

#[test]
fn parses_bytes_like_text() {
    let t = Token::deserialize_bytes(b"[18446744073709551615]").unwrap();
    match t {
        Token::Array(items) => match &items[0] {
            Token::Number(n) => assert!(matches!(n.repr(), NumberRepr::PosInt(u64::MAX))),
            _ => panic!("not a number"),
        },
        _ => panic!("not an array"),
    }
}

#[test]
fn later_duplicate_keys_win() {
    let t = Token::deserialize_str("{\"k\": 1, \"k\": 2}").unwrap();
    match t {
        Token::Object(o) => {
            assert_eq!(o.len(), 1);
            match o.get("k") {
                Some(Token::Number(n)) => assert!(matches!(n.repr(), NumberRepr::PosInt(2))),
                _ => panic!("missing k"),
            }
        },
        _ => panic!("not an object"),
    }
}

#[test]
fn rejects_malformed_text() {
    assert!(Token::deserialize_str("{").is_err());
    assert!(Token::deserialize_str("").is_err());
    assert!(Token::deserialize_str("[1,]").is_err());
    assert!(Token::deserialize_str("NaN").is_err());
    assert!(Token::deserialize_bytes(b"\"\xff\"").is_err());
    assert!(Token::deserialize_bytes(b"nul").is_err());
}

use resoxide_json::text::{ParsedJson, ParsedNumber, number_from_parsed, token_from_parsed};

fn parsed_int(u: u64) -> ParsedJson {
    ParsedJson::Number(ParsedNumber { as_u64: Some(u), as_i64: None, float_bits: None })
}

#[test]
fn parsed_numbers_take_their_shape() {
    let n = number_from_parsed(ParsedNumber { as_u64: None, as_i64: Some(-4), float_bits: Some((-4.0f64).to_bits()) });
    assert!(matches!(n.unwrap().repr(), NumberRepr::NegInt(-4)));
    let n = number_from_parsed(ParsedNumber { as_u64: None, as_i64: None, float_bits: Some(2.5f64.to_bits()) });
    assert!(matches!(n.unwrap().repr(), NumberRepr::Float(_)));
    assert!(number_from_parsed(ParsedNumber { as_u64: None, as_i64: None, float_bits: None }).is_err());
    assert!(number_from_parsed(ParsedNumber { as_u64: None, as_i64: None, float_bits: Some(f64::NAN.to_bits()) }).is_err());
}

#[test]
fn parsed_trees_become_tokens() {
    let tree = ParsedJson::Object(vec![
        ("z".to_string(), parsed_int(1)),
        ("a".to_string(), ParsedJson::Array(vec![ParsedJson::Null, ParsedJson::Bool(false)])),
    ]);
    match token_from_parsed(&tree).unwrap() {
        Token::Object(o) => {
            let keys: Vec<&str> = o.as_slice().iter().map(|(k, _)| k.as_str()).collect();
            assert_eq!(keys, vec!["z", "a"]);
        },
        _ => panic!("not an object"),
    }
    let repeated = ParsedJson::Object(vec![("k".to_string(), parsed_int(1)), ("k".to_string(), parsed_int(2))]);
    assert!(token_from_parsed(&repeated).is_err());
    let shapeless = ParsedJson::Array(vec![ParsedJson::Number(ParsedNumber { as_u64: None, as_i64: None, float_bits: None })]);
    assert!(token_from_parsed(&shapeless).is_err());
}

#[test]
fn text_and_its_bytes_read_alike() {
    let text = "{\"é\": [1, -1, 0.5]}";
    let a = Token::deserialize_str(text).unwrap();
    let b = Token::deserialize_bytes(text.as_bytes()).unwrap();
    match (a, b) {
        (Token::Object(x), Token::Object(y)) => {
            assert_eq!(x.len(), y.len());
            assert!(x.get("é").is_some() && y.get("é").is_some());
        },
        _ => panic!("not objects"),
    }
}
