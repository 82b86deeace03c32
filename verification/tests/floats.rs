use resoxide_json::float_bits::{FloatReading, float_reading, float_to_token};
use resoxide_json::{Number, NumberRepr, Token};

fn string_of(t: &Token) -> &str {
    match t {
        Token::String(s) => s.as_str(),
        _ => panic!("not a string token"),
    }
}

#[test]
fn finite_doubles_become_numbers() {
    let t = float_to_token(1.5f64.to_bits()).unwrap();
    match t {
        Token::Number(n) => match n.repr() {
            NumberRepr::Float(bits) => assert_eq!(f64::from_bits(bits), 1.5),
            _ => panic!("not a float"),
        },
        _ => panic!("not a number"),
    }
    let t = float_to_token((-0.0f64).to_bits()).unwrap();
    assert!(matches!(t, Token::Number(_)));
}

#[test]
fn non_finite_doubles_become_names() {
    assert_eq!(string_of(&float_to_token(f64::INFINITY.to_bits()).unwrap()), "Infinity");
    assert_eq!(string_of(&float_to_token(f64::NEG_INFINITY.to_bits()).unwrap()), "-Infinity");
    assert_eq!(string_of(&float_to_token(f64::NAN.to_bits()).unwrap()), "NaN");
    assert_eq!(string_of(&float_to_token((-f64::NAN).to_bits()).unwrap()), "NaN");
    let widened = (f32::NEG_INFINITY as f64).to_bits();
    assert_eq!(string_of(&float_to_token(widened).unwrap()), "-Infinity");
}

#[test]
fn readings_of_tokens() {
    assert!(matches!(float_reading(&Token::String("Infinity".to_string())), Ok(FloatReading::Infinity)));
    assert!(matches!(float_reading(&Token::String("-Infinity".to_string())), Ok(FloatReading::NegInfinity)));
    assert!(matches!(float_reading(&Token::String("NaN".to_string())), Ok(FloatReading::NaN)));
    match float_reading(&Token::String("2.5".to_string())) {
        Ok(FloatReading::Text(s)) => assert_eq!(s, "2.5"),
        _ => panic!("not text"),
    }
    match float_reading(&Token::Number(Number::from_i64(-3))) {
        Ok(FloatReading::Number(n)) => assert!(matches!(n.repr(), NumberRepr::NegInt(-3))),
        _ => panic!("not a number"),
    }
    assert!(float_reading(&Token::Null).is_err());
    assert!(float_reading(&Token::Bool(false)).is_err());
}

#[test]
fn doubles_read_back_from_their_tokens() {
    for f in [0.1f64, -2.0, f64::MAX, f64::MIN_POSITIVE] {
        match float_reading(&float_to_token(f.to_bits()).unwrap()) {
            Ok(FloatReading::Number(n)) => match n.repr() {
                NumberRepr::Float(bits) => assert_eq!(bits, f.to_bits()),
                _ => panic!("not a float"),
            },
            _ => panic!("not a number"),
        }
    }
    assert!(matches!(
        float_reading(&float_to_token(f64::INFINITY.to_bits()).unwrap()),
        Ok(FloatReading::Infinity)
    ));
}
