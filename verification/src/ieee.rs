//! Trusted bridge to software IEEE-754 double-precision arithmetic.
//!
//! Verus does not model floating-point values, so the library carries
//! every number as the 64-bit pattern of an IEEE-754 double. The four
//! operations and decimal parsing are performed by `rustc_apfloat`, a
//! software implementation of IEEE-754 with round-to-nearest-even;
//! each is named below by an uninterpreted function of its inputs, so
//! division by zero simply yields the bit pattern of an infinity or a
//! NaN rather than an error.

use vstd::prelude::*;

use rustc_apfloat::Float;
use rustc_apfloat::ieee::Double;

use crate::token::spec_is_number;

verus! {

/// The IEEE-754 double denoted by a decimal lexeme, as its bit
/// pattern.
pub uninterp spec fn float_bits_of(s: Seq<char>) -> u64;

/// The bit pattern of the IEEE-754 sum of two doubles given by their
/// bit patterns.
pub uninterp spec fn add_bits(a: u64, b: u64) -> u64;

/// The bit pattern of the IEEE-754 difference of two doubles given by
/// their bit patterns.
pub uninterp spec fn sub_bits(a: u64, b: u64) -> u64;

/// The bit pattern of the IEEE-754 product of two doubles given by
/// their bit patterns.
pub uninterp spec fn mul_bits(a: u64, b: u64) -> u64;

/// The bit pattern of the IEEE-754 quotient of two doubles given by
/// their bit patterns.
pub uninterp spec fn div_bits(a: u64, b: u64) -> u64;

/// Relies on rustc_apfloat's `Double` `FromStr`: correctly rounded
/// IEEE-754 binary64 decimal parsing, a function of the characters
/// alone. Its decimal path accepts every non-empty string of decimal
/// digits and at most one decimal point that holds at least one
/// digit, which is exactly the set of numeric lexemes.
#[verifier::external_body]
pub(crate) fn parse_number_bits(s: &str) -> (r: Option<u64>)
    ensures
        spec_is_number(s@) ==> r is Some,
        r matches Some(b) ==> b == float_bits_of(s@),
{
    match s.parse::<Double>() {
        Ok(v) => Some(v.to_bits() as u64),
        Err(_) => None,
    }
}

/// Relies on rustc_apfloat's `Double` addition (round to nearest,
/// ties to even): a function of the operand bit patterns alone.
#[verifier::external_body]
pub(crate) fn add_f64_bits(a: u64, b: u64) -> (r: u64)
    ensures
        r == add_bits(a, b),
{
    (Double::from_bits(a as u128) + Double::from_bits(b as u128)).value.to_bits() as u64
}

/// Relies on rustc_apfloat's `Double` subtraction (round to nearest,
/// ties to even): a function of the operand bit patterns alone.
#[verifier::external_body]
pub(crate) fn sub_f64_bits(a: u64, b: u64) -> (r: u64)
    ensures
        r == sub_bits(a, b),
{
    (Double::from_bits(a as u128) - Double::from_bits(b as u128)).value.to_bits() as u64
}

/// Relies on rustc_apfloat's `Double` multiplication (round to
/// nearest, ties to even): a function of the operand bit patterns
/// alone.
#[verifier::external_body]
pub(crate) fn mul_f64_bits(a: u64, b: u64) -> (r: u64)
    ensures
        r == mul_bits(a, b),
{
    (Double::from_bits(a as u128) * Double::from_bits(b as u128)).value.to_bits() as u64
}

/// Relies on rustc_apfloat's `Double` division (round to nearest,
/// ties to even): a function of the operand bit patterns alone.
#[verifier::external_body]
pub(crate) fn div_f64_bits(a: u64, b: u64) -> (r: u64)
    ensures
        r == div_bits(a, b),
{
    (Double::from_bits(a as u128) / Double::from_bits(b as u128)).value.to_bits() as u64
}

} // verus!
