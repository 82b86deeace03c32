# resoxide_json

A JSON token model and the conversions between Rust values and tokens,
verified with Verus.

- `src/token.rs`: `Token`, the JSON token; `ObjectMap`, an object whose keys
  occur once each and keep their insertion order; `JsonValue`, the
  mathematical value of a token.
- `src/number.rs`: `Number`, a JSON number (non-negative integer, negative
  integer, or finite double given by its bits).
- `src/json.rs`: the `Json` trait and its implementations for tokens, `bool`,
  `String`, `Option`, `Vec` and `ObjectMap`.
- `src/integers.rs`: `Json` for the integer types, which read numbers and
  decimal strings.
- `src/derived.rs`: the encoding rules that derived implementations follow:
  camel-case names, fields stored under their names, and enum variants tagged
  under `$type`.
- `src/text.rs`: reading JSON text into tokens through serde_json.
- `src/laws.rs`: round trips and the read-after-write law of objects.
- `app/lib.rs`: printing JSON text through serde_json, conversions to and from
  `serde_json::Value`, floats and `rust_decimal::Decimal`.
