//! IEEE 754 binary64 arithmetic over raw bit patterns.
//!
//! Verified code in this crate stores every real number as the `u64` bit
//! pattern of an IEEE 754 double. Rounded arithmetic and ordered comparison
//! are done by `rustc_apfloat`'s software implementation of IEEE 754 binary64
//! through the trusted wrappers below; the result of each such operation is
//! named by an uninterpreted spec function of the operand bit patterns, so
//! that contracts can pin every computed value down exactly. Operations that
//! IEEE 754 defines directly on the bit pattern (sign manipulation, the zero
//! and NaN tests) are implemented and verified here, with no trust involved.

use rustc_apfloat::Float;
use vstd::prelude::*;

verus! {

/// Bit pattern of the double `+0.0`.
pub const ZERO_BITS: u64 = 0;

/// Bit pattern of the double `-0.0`: only the sign bit set.
pub const SIGN_MASK: u64 = 0x8000_0000_0000_0000;

/// Mask of the magnitude: exponent and mantissa bits.
pub const MAGNITUDE_MASK: u64 = 0x7FFF_FFFF_FFFF_FFFF;

/// Mask of the exponent bits.
pub const EXPONENT_MASK: u64 = 0x7FF0_0000_0000_0000;

/// Mask of the mantissa bits.
pub const MANTISSA_MASK: u64 = 0x000F_FFFF_FFFF_FFFF;

/// A bit pattern compares equal to `0.0` exactly when it is one of the two
/// IEEE 754 zeros.
pub open spec fn is_zero_bits(a: u64) -> bool {
    a == ZERO_BITS || a == SIGN_MASK
}

/// A bit pattern is a NaN exactly when the exponent bits are all ones and the
/// mantissa is not zero.
pub open spec fn is_nan_bits(a: u64) -> bool {
    a & EXPONENT_MASK == EXPONENT_MASK && a & MANTISSA_MASK != 0
}

/// The absolute value of a double clears the sign bit and changes nothing
/// else.
pub open spec fn abs_bits(a: u64) -> u64 {
    a & MAGNITUDE_MASK
}

/// Negating a double flips the sign bit and changes nothing else.
pub open spec fn neg_bits(a: u64) -> u64 {
    a ^ SIGN_MASK
}

/// The bit pattern of the rounded IEEE 754 sum of the doubles `a` and `b`.
pub uninterp spec fn add_bits(a: u64, b: u64) -> u64;

/// The bit pattern of the rounded IEEE 754 difference of `a` and `b`.
pub uninterp spec fn sub_bits(a: u64, b: u64) -> u64;

/// The bit pattern of the rounded IEEE 754 product of `a` and `b`.
pub uninterp spec fn mul_bits(a: u64, b: u64) -> u64;

/// The bit pattern of the rounded IEEE 754 quotient of `a` over `b`.
pub uninterp spec fn div_bits(a: u64, b: u64) -> u64;

/// Whether the double `a` compares strictly below the double `b` in the IEEE
/// 754 order; false whenever either operand is a NaN.
pub uninterp spec fn lt_bits(a: u64, b: u64) -> bool;

/// Whether the double `a` compares below or equal to the double `b` in the
/// IEEE 754 order; false whenever either operand is a NaN.
pub uninterp spec fn le_bits(a: u64, b: u64) -> bool;

/// The larger of two doubles, with a NaN operand ignored in favour of the
/// other, as IEEE 754's maximum operation behaves.
pub open spec fn max_bits(a: u64, b: u64) -> u64 {
    if is_nan_bits(a) {
        b
    } else if is_nan_bits(b) {
        a
    } else if lt_bits(a, b) {
        b
    } else {
        a
    }
}

/// Relies on `rustc_apfloat::ieee::Double`'s addition: the IEEE 754 binary64
/// sum, rounded to nearest even, a function of the two operand bit patterns.
#[verifier::external_body]
pub(crate) fn fp_add(a: u64, b: u64) -> (r: u64)
    ensures
        r == add_bits(a, b),
{
    let x = rustc_apfloat::ieee::Double::from_bits(a as u128);
    let y = rustc_apfloat::ieee::Double::from_bits(b as u128);
    (x + y).value.to_bits() as u64
}

/// Relies on `rustc_apfloat::ieee::Double`'s subtraction: the IEEE 754
/// binary64 difference, rounded to nearest even, a function of the two
/// operand bit patterns.
#[verifier::external_body]
pub(crate) fn fp_sub(a: u64, b: u64) -> (r: u64)
    ensures
        r == sub_bits(a, b),
{
    let x = rustc_apfloat::ieee::Double::from_bits(a as u128);
    let y = rustc_apfloat::ieee::Double::from_bits(b as u128);
    (x - y).value.to_bits() as u64
}

/// Relies on `rustc_apfloat::ieee::Double`'s multiplication: the IEEE 754
/// binary64 product, rounded to nearest even, a function of the two operand
/// bit patterns.
#[verifier::external_body]
pub(crate) fn fp_mul(a: u64, b: u64) -> (r: u64)
    ensures
        r == mul_bits(a, b),
{
    let x = rustc_apfloat::ieee::Double::from_bits(a as u128);
    let y = rustc_apfloat::ieee::Double::from_bits(b as u128);
    (x * y).value.to_bits() as u64
}

/// Relies on `rustc_apfloat::ieee::Double`'s division: the IEEE 754 binary64
/// quotient, rounded to nearest even, a function of the two operand bit
/// patterns.
#[verifier::external_body]
pub(crate) fn fp_div(a: u64, b: u64) -> (r: u64)
    ensures
        r == div_bits(a, b),
{
    let x = rustc_apfloat::ieee::Double::from_bits(a as u128);
    let y = rustc_apfloat::ieee::Double::from_bits(b as u128);
    (x / y).value.to_bits() as u64
}

/// Relies on `rustc_apfloat::ieee::Double`'s `PartialOrd`: the IEEE 754
/// comparison, in which every NaN is unordered, a function of the two operand
/// bit patterns.
#[verifier::external_body]
pub(crate) fn fp_lt(a: u64, b: u64) -> (r: bool)
    ensures
        r == lt_bits(a, b),
{
    rustc_apfloat::ieee::Double::from_bits(a as u128)
        < rustc_apfloat::ieee::Double::from_bits(b as u128)
}

/// Relies on `rustc_apfloat::ieee::Double`'s `PartialOrd`: the IEEE 754
/// comparison, in which every NaN is unordered, a function of the two operand
/// bit patterns.
#[verifier::external_body]
pub(crate) fn fp_le(a: u64, b: u64) -> (r: bool)
    ensures
        r == le_bits(a, b),
{
    rustc_apfloat::ieee::Double::from_bits(a as u128)
        <= rustc_apfloat::ieee::Double::from_bits(b as u128)
}

/// The zero test a double equality against `0.0` performs: only the two
/// IEEE 754 zeros compare equal to zero.
pub(crate) fn fp_is_zero(a: u64) -> (r: bool)
    ensures
        r == is_zero_bits(a),
{
    a == ZERO_BITS || a == SIGN_MASK
}

/// The NaN test on the bit pattern: exponent all ones, mantissa not zero.
pub(crate) fn fp_is_nan(a: u64) -> (r: bool)
    ensures
        r == is_nan_bits(a),
{
    a & EXPONENT_MASK == EXPONENT_MASK && a & MANTISSA_MASK != 0
}

/// The absolute value of a double: IEEE 754 defines it as clearing the sign
/// bit, quiet even on NaN.
pub(crate) fn fp_abs(a: u64) -> (r: u64)
    ensures
        r == abs_bits(a),
{
    a & MAGNITUDE_MASK
}

/// Negation of a double: IEEE 754 defines it as flipping the sign bit, quiet
/// even on NaN.
pub(crate) fn fp_neg(a: u64) -> (r: u64)
    ensures
        r == neg_bits(a),
{
    a ^ SIGN_MASK
}

/// The IEEE 754 maximum of two doubles: the larger operand, with a NaN
/// ignored in favour of the other.
pub(crate) fn fp_max(a: u64, b: u64) -> (r: u64)
    ensures
        r == max_bits(a, b),
{
    if fp_is_nan(a) {
        b
    } else if fp_is_nan(b) {
        a
    } else if fp_lt(a, b) {
        b
    } else {
        a
    }
}

} // verus!
