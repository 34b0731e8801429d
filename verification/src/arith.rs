//! Trusted double-precision arithmetic on bit patterns.
//!
//! Every arithmetic step of the statistics goes through one of the wrappers
//! below. Each wrapper hands its operands to a pure software implementation
//! of IEEE-754 binary64 arithmetic (round to nearest, ties to even — the
//! default that hardware doubles use) and its result is named by an
//! uninterpreted spec function of the operand patterns alone: the library's
//! contracts speak of those names, never of a particular rounding outcome.

use vstd::prelude::*;
use crate::bits::{is_finite_bits, is_nan_bits, is_zero_bits, ONE_BITS};
use const_soft_float::soft_f64::SoftF64;
use rustc_apfloat::Float as ApFloat;
use rustc_apfloat::ieee::Double;

verus! {

pub uninterp spec fn add_bits(a: u64, b: u64) -> u64;

pub uninterp spec fn sub_bits(a: u64, b: u64) -> u64;

pub uninterp spec fn mul_bits(a: u64, b: u64) -> u64;

pub uninterp spec fn div_bits(a: u64, b: u64) -> u64;

pub uninterp spec fn sqrt_bits(a: u64) -> u64;

pub uninterp spec fn of_count_bits(n: u64) -> u64;

/// Relies on const_soft_float::soft_f64::SoftF64::add: IEEE-754 binary64
/// addition, a function of the two operand patterns alone.
#[verifier::external_body]
pub(crate) fn f64_add(a: u64, b: u64) -> (r: u64)
    ensures
        r == add_bits(a, b),
{
    SoftF64::from_bits(a).add(SoftF64::from_bits(b)).to_bits()
}

/// Relies on const_soft_float::soft_f64::SoftF64::sub: IEEE-754 binary64
/// subtraction, a function of the two operand patterns alone.
#[verifier::external_body]
pub(crate) fn f64_sub(a: u64, b: u64) -> (r: u64)
    ensures
        r == sub_bits(a, b),
{
    SoftF64::from_bits(a).sub(SoftF64::from_bits(b)).to_bits()
}

/// Relies on const_soft_float::soft_f64::SoftF64::mul: IEEE-754 binary64
/// multiplication, a function of the two operand patterns alone; a NaN
/// operand always yields a NaN product.
#[verifier::external_body]
pub(crate) fn f64_mul(a: u64, b: u64) -> (r: u64)
    ensures
        r == mul_bits(a, b),
        is_nan_bits(a) || is_nan_bits(b) ==> is_nan_bits(r),
{
    SoftF64::from_bits(a).mul(SoftF64::from_bits(b)).to_bits()
}

/// Relies on const_soft_float::soft_f64::SoftF64::div: IEEE-754 binary64
/// division, a function of the two operand patterns alone. Dividing a
/// finite nonzero value by itself has the exact quotient 1, which IEEE-754
/// division returns unrounded.
#[verifier::external_body]
pub(crate) fn f64_div(a: u64, b: u64) -> (r: u64)
    ensures
        r == div_bits(a, b),
        a == b && is_finite_bits(a) && !is_zero_bits(a) ==> r == ONE_BITS,
{
    SoftF64::from_bits(a).div(SoftF64::from_bits(b)).to_bits()
}

/// Relies on const_soft_float::soft_f64::SoftF64::sqrt: IEEE-754 binary64
/// square root, a function of the operand pattern alone.
#[verifier::external_body]
pub(crate) fn f64_sqrt(a: u64) -> (r: u64)
    ensures
        r == sqrt_bits(a),
{
    SoftF64::from_bits(a).sqrt().to_bits()
}

/// Relies on rustc_apfloat::ieee::Double::from_u128: conversion of an
/// unsigned count to the nearest binary64, a function of the count alone.
/// Every u64 converts to a finite double, a count of at least one converts
/// to a value of at least 1.0, and 1 converts exactly to 1.0.
#[verifier::external_body]
pub(crate) fn f64_of_count(n: u64) -> (r: u64)
    ensures
        r == of_count_bits(n),
        is_finite_bits(r),
        n >= 1 ==> !is_zero_bits(r),
        n == 1 ==> r == ONE_BITS,
{
    Double::from_u128(n as u128).value.to_bits() as u64
}

} // verus!
