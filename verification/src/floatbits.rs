//! Trusted bridge to IEEE-754 double-precision arithmetic.
//!
//! Verified code holds a floating-point number as its 64-bit IEEE-754 bit
//! pattern (`u64`). The arithmetic itself is delegated to outside soft-float
//! crates that compute on bit patterns in integer code: `const_soft_float`
//! for the rounded operations and `rustc_apfloat` for conversions, parsing
//! and rendering. Each operation's result is named by an uninterpreted spec
//! function of its operands, so that the library's contracts can say "the
//! IEEE-754 sum of `a` and `b`" without restating IEEE-754 arithmetic.

use vstd::prelude::*;
use rustc_apfloat::Float;

verus! {

/// Bit pattern of the quiet NaN used where the engine needs a
/// not-a-number sentinel (the same pattern `f64::NAN` denotes).
pub const NAN_BITS: u64 = 0x7ff8_0000_0000_0000;

/// Bit pattern of +0.0, the neutral element the folds start from.
pub const POS_ZERO_BITS: u64 = 0;

/// Bit pattern of 1.0.
pub const ONE_BITS: u64 = 0x3ff0_0000_0000_0000;

/// The IEEE-754 sum of the doubles with bit patterns `a` and `b`.
pub uninterp spec fn spec_add_bits(a: u64, b: u64) -> u64;

/// The IEEE-754 difference of the doubles with bit patterns `a` and `b`.
pub uninterp spec fn spec_sub_bits(a: u64, b: u64) -> u64;

/// The IEEE-754 product of the doubles with bit patterns `a` and `b`.
pub uninterp spec fn spec_mul_bits(a: u64, b: u64) -> u64;

/// The IEEE-754 quotient of the doubles with bit patterns `a` and `b`.
pub uninterp spec fn spec_div_bits(a: u64, b: u64) -> u64;

/// The IEEE-754 square root of the double with bit pattern `a`.
pub uninterp spec fn spec_sqrt_bits(a: u64) -> u64;

/// The double nearest to the signed integer `i`.
pub uninterp spec fn spec_float_of_i64(i: i64) -> u64;

/// The double nearest to the unsigned integer `n`.
pub uninterp spec fn spec_float_of_u64(n: u64) -> u64;

/// The double with bit pattern `b`, converted to `i64` by truncation
/// toward zero, saturating at the `i64` bounds, with NaN taken to 0.
pub uninterp spec fn spec_int_of_float(b: u64) -> i64;

/// The double that the text `s` parses to, or `None` where the text is
/// not a floating-point literal.
pub uninterp spec fn spec_parse_float(s: Seq<char>) -> Option<u64>;

/// The decimal rendering of the double with bit pattern `b`.
pub uninterp spec fn spec_float_decimal(b: u64) -> Seq<char>;

/// Relies on `const_soft_float::soft_f64::SoftF64::add`: correctly rounded
/// IEEE-754 double addition computed on bit patterns.
#[verifier::external_body]
pub(crate) fn add_bits(a: u64, b: u64) -> (r: u64)
    ensures
        r == spec_add_bits(a, b),
{
    const_soft_float::soft_f64::SoftF64::from_bits(a)
        .add(const_soft_float::soft_f64::SoftF64::from_bits(b))
        .to_bits()
}

/// Relies on `const_soft_float::soft_f64::SoftF64::sub`: correctly rounded
/// IEEE-754 double subtraction computed on bit patterns.
#[verifier::external_body]
pub(crate) fn sub_bits(a: u64, b: u64) -> (r: u64)
    ensures
        r == spec_sub_bits(a, b),
{
    const_soft_float::soft_f64::SoftF64::from_bits(a)
        .sub(const_soft_float::soft_f64::SoftF64::from_bits(b))
        .to_bits()
}

/// Relies on `const_soft_float::soft_f64::SoftF64::mul`: correctly rounded
/// IEEE-754 double multiplication computed on bit patterns.
#[verifier::external_body]
pub(crate) fn mul_bits(a: u64, b: u64) -> (r: u64)
    ensures
        r == spec_mul_bits(a, b),
{
    const_soft_float::soft_f64::SoftF64::from_bits(a)
        .mul(const_soft_float::soft_f64::SoftF64::from_bits(b))
        .to_bits()
}

/// Relies on `const_soft_float::soft_f64::SoftF64::div`: correctly rounded
/// IEEE-754 double division computed on bit patterns.
#[verifier::external_body]
pub(crate) fn div_bits(a: u64, b: u64) -> (r: u64)
    ensures
        r == spec_div_bits(a, b),
{
    const_soft_float::soft_f64::SoftF64::from_bits(a)
        .div(const_soft_float::soft_f64::SoftF64::from_bits(b))
        .to_bits()
}

/// Relies on `const_soft_float::soft_f64::SoftF64::sqrt`: correctly rounded
/// IEEE-754 double square root computed on bit patterns.
#[verifier::external_body]
pub(crate) fn sqrt_bits(a: u64) -> (r: u64)
    ensures
        r == spec_sqrt_bits(a),
{
    const_soft_float::soft_f64::SoftF64::from_bits(a).sqrt().to_bits()
}

/// Relies on `rustc_apfloat::Float::from_i128`: round-to-nearest-even
/// conversion of a signed integer to a double.
#[verifier::external_body]
pub(crate) fn float_of_i64(i: i64) -> (r: u64)
    ensures
        r == spec_float_of_i64(i),
{
    rustc_apfloat::ieee::Double::from_i128(i as i128).value.to_bits() as u64
}

/// Relies on `rustc_apfloat::Float::from_u128`: round-to-nearest-even
/// conversion of an unsigned integer to a double.
#[verifier::external_body]
pub(crate) fn float_of_u64(n: u64) -> (r: u64)
    ensures
        r == spec_float_of_u64(n),
{
    rustc_apfloat::ieee::Double::from_u128(n as u128).value.to_bits() as u64
}

/// Relies on `rustc_apfloat::Float::to_i128`: conversion of a double to a
/// 64-bit signed integer, truncating toward zero, saturating at the bounds,
/// with NaN taken to 0.
#[verifier::external_body]
pub(crate) fn int_of_float(b: u64) -> (r: i64)
    ensures
        r == spec_int_of_float(b),
{
    rustc_apfloat::ieee::Double::from_bits(b as u128).to_i128(64).value as i64
}

/// Relies on `rustc_apfloat::ieee::Double`'s `FromStr`: correctly rounded
/// parsing of a floating-point literal.
#[verifier::external_body]
pub(crate) fn parse_float(s: &str) -> (r: Option<u64>)
    ensures
        r == spec_parse_float(s@),
{
    match s.parse::<rustc_apfloat::ieee::Double>() {
        Ok(d) => Some(d.to_bits() as u64),
        Err(_) => None,
    }
}

/// Relies on `rustc_apfloat::ieee::Double`'s `Display`: decimal rendering
/// of a double.
#[verifier::external_body]
pub(crate) fn float_decimal(b: u64) -> (r: String)
    ensures
        r@ == spec_float_decimal(b),
{
    format!("{}", rustc_apfloat::ieee::Double::from_bits(b as u128))
}

} // verus!
