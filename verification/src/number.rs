use vstd::prelude::*;
use crate::error::Error;

verus! {

/// The three shapes a JSON number takes: a non-negative integer, a negative
/// integer, or a finite floating-point number given by its IEEE-754 bits.
#[derive(Debug, Clone, Copy)]
pub enum NumberRepr {
    PosInt(u64),
    NegInt(i64),
    Float(u64),
}

/// Whether the IEEE-754 double with these bits is finite (its exponent field is
/// not all ones).
pub open spec fn finite_bits(bits: u64) -> bool {
    (bits >> 52u64) & 0x7ffu64 != 0x7ffu64
}

/// The shapes a `Number` may hold: a negative integer is below zero and a float
/// is finite.
pub open spec fn repr_ok(r: NumberRepr) -> bool {
    match r {
        NumberRepr::PosInt(_) => true,
        NumberRepr::NegInt(i) => i < 0,
        NumberRepr::Float(bits) => finite_bits(bits),
    }
}

/// The number as an `i64`, where it is an integer in range.
pub open spec fn repr_as_i64(r: NumberRepr) -> Option<i64> {
    match r {
        NumberRepr::PosInt(u) => if u <= i64::MAX { Some(u as i64) } else { None },
        NumberRepr::NegInt(i) => Some(i),
        NumberRepr::Float(_) => None,
    }
}

/// The number as a `u64`, where it is a non-negative integer.
pub open spec fn repr_as_u64(r: NumberRepr) -> Option<u64> {
    match r {
        NumberRepr::PosInt(u) => Some(u),
        _ => None,
    }
}

/// The shape a number built from an `i64` takes.
pub open spec fn repr_of_i64(i: i64) -> NumberRepr {
    if i < 0 { NumberRepr::NegInt(i) } else { NumberRepr::PosInt(i as u64) }
}

/// A JSON number, with the representation and accessors of `serde_json::Number`
/// (without arbitrary precision).
#[derive(Debug, Clone, Copy)]
pub struct Number {
    repr: NumberRepr,
}

impl View for Number {
    type V = NumberRepr;

    closed spec fn view(&self) -> NumberRepr {
        self.repr
    }
}

impl Number {
    #[verifier::type_invariant]
    spec fn well_formed(self) -> bool {
        repr_ok(self.repr)
    }

    /// The number holding a non-negative integer.
    pub fn from_u64(u: u64) -> (n: Number)
        ensures
            n@ == NumberRepr::PosInt(u),
    {
        Number { repr: NumberRepr::PosInt(u) }
    }

    /// The number holding an integer: negative ones are kept apart from the others.
    pub fn from_i64(i: i64) -> (n: Number)
        ensures
            n@ == repr_of_i64(i),
    {
        if i < 0 {
            Number { repr: NumberRepr::NegInt(i) }
        } else {
            Number { repr: NumberRepr::PosInt(i as u64) }
        }
    }

    /// The number holding the double with these bits; infinities and NaN are no
    /// JSON numbers and give an error.
    pub fn from_f64_bits(bits: u64) -> (r: Result<Number, Error>)
        ensures
            r is Ok <==> finite_bits(bits),
            r matches Ok(n) ==> n@ == NumberRepr::Float(bits),
    {
        if (bits >> 52u64) & 0x7ffu64 != 0x7ffu64 {
            Ok(Number { repr: NumberRepr::Float(bits) })
        } else {
            Err(Error)
        }
    }

    /// The shape of this number.
    pub fn repr(&self) -> (r: NumberRepr)
        ensures
            r == self@,
            repr_ok(r),
    {
        proof { use_type_invariant(self); }
        self.repr
    }

    /// The number as an `i64`; an error where it is a float or above `i64::MAX`.
    pub fn as_i64(&self) -> (r: Result<i64, Error>)
        ensures
            match repr_as_i64(self@) {
                Some(i) => r == Ok::<i64, Error>(i),
                None => r is Err,
            },
    {
        match self.repr {
            NumberRepr::PosInt(u) => if u <= i64::MAX as u64 { Ok(u as i64) } else { Err(Error) },
            NumberRepr::NegInt(i) => Ok(i),
            NumberRepr::Float(_) => Err(Error),
        }
    }

    /// The number as a `u64`; an error where it is negative or a float.
    pub fn as_u64(&self) -> (r: Result<u64, Error>)
        ensures
            match repr_as_u64(self@) {
                Some(u) => r == Ok::<u64, Error>(u),
                None => r is Err,
            },
    {
        match self.repr {
            NumberRepr::PosInt(u) => Ok(u),
            _ => Err(Error),
        }
    }
}

} // verus!
