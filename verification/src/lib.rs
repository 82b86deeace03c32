//! JSON token model with conversions between Rust values and JSON tokens.

pub mod derived;
pub mod error;
pub mod float_bits;
pub mod integers;
pub mod json;
pub mod laws;
pub mod number;
pub mod text;
pub mod token;
pub mod token_laws;

pub use error::Error;
pub use json::Json;
pub use number::{Number, NumberRepr};
pub use token::{JsonValue, ObjectMap, Token};
