use vstd::prelude::*;
use core::convert::Infallible;
use core::num::{ParseFloatError, ParseIntError, TryFromIntError};
use serde_json::Error as SerdeJsonError;

verus! {

/// The single error of this library: a value and a token did not match.
#[derive(Debug, Default, Copy, Clone)]
pub struct Error;

impl Error {
    /// The text that describes the error, `Json-Error`.
    pub fn to_string(&self) -> (text: String)
        ensures
            text@ == "Json-Error"@,
    {
        "Json-Error".to_owned()
    }
}

/// `serde_json::Error`, the error of serde_json's parsers and printers.
#[verifier::external_type_specification]
#[verifier::external_body]
pub struct ExSerdeJsonError(SerdeJsonError);

/// `core::num::ParseIntError`, the error of parsing an integer from text.
#[verifier::external_type_specification]
#[verifier::external_body]
pub struct ExParseIntError(ParseIntError);

/// `core::num::ParseFloatError`, the error of parsing a float from text.
#[verifier::external_type_specification]
#[verifier::external_body]
pub struct ExParseFloatError(ParseFloatError);

impl From<SerdeJsonError> for Error {
    fn from(_e: SerdeJsonError) -> (r: Error) {
        Error
    }
}

impl vstd::std_specs::convert::FromSpecImpl<SerdeJsonError> for Error {
    open spec fn obeys_from_spec() -> bool {
        true
    }

    open spec fn from_spec(v: SerdeJsonError) -> Error {
        Error
    }
}

impl From<TryFromIntError> for Error {
    fn from(_e: TryFromIntError) -> (r: Error) {
        Error
    }
}

impl vstd::std_specs::convert::FromSpecImpl<TryFromIntError> for Error {
    open spec fn obeys_from_spec() -> bool {
        true
    }

    open spec fn from_spec(v: TryFromIntError) -> Error {
        Error
    }
}

impl From<ParseIntError> for Error {
    fn from(_e: ParseIntError) -> (r: Error) {
        Error
    }
}

impl vstd::std_specs::convert::FromSpecImpl<ParseIntError> for Error {
    open spec fn obeys_from_spec() -> bool {
        true
    }

    open spec fn from_spec(v: ParseIntError) -> Error {
        Error
    }
}

impl From<ParseFloatError> for Error {
    fn from(_e: ParseFloatError) -> (r: Error) {
        Error
    }
}

impl vstd::std_specs::convert::FromSpecImpl<ParseFloatError> for Error {
    open spec fn obeys_from_spec() -> bool {
        true
    }

    open spec fn from_spec(v: ParseFloatError) -> Error {
        Error
    }
}

impl From<Infallible> for Error {
    fn from(_e: Infallible) -> (r: Error) {
        Error
    }
}

impl vstd::std_specs::convert::FromSpecImpl<Infallible> for Error {
    open spec fn obeys_from_spec() -> bool {
        true
    }

    open spec fn from_spec(v: Infallible) -> Error {
        Error
    }
}

} // verus!
