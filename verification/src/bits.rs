//! Bit-level view of IEEE-754 binary64 values.
//!
//! A sample travels through the library as its 64-bit pattern: one sign bit,
//! eleven exponent bits, fifty-two fraction bits. The predicates below state
//! directly on the pattern what the floating-point classification and the
//! (non-NaN) ordering of doubles are, so no arithmetic has to be trusted for
//! them.

use vstd::prelude::*;

verus! {

/// The quiet NaN used as the sentinel for undefined output positions.
pub const NAN_BITS: u64 = 0x7ff8_0000_0000_0000;

/// Positive zero, the starting value of every running sum.
pub const ZERO_BITS: u64 = 0;

/// The pattern of 1.0.
pub const ONE_BITS: u64 = 0x3ff0_0000_0000_0000;

/// Mask of everything but the sign bit: exponent and fraction.
pub const MAGNITUDE_MASK: u64 = 0x7fff_ffff_ffff_ffff;

/// Sign bit alone.
pub const SIGN_MASK: u64 = 0x8000_0000_0000_0000;

/// A double is finite exactly when its exponent field is not all ones
/// (all ones marks an infinity or a NaN).
pub open spec fn is_finite_bits(a: u64) -> bool {
    (a >> 52) & 0x7ff != 0x7ff
}

/// A double is a NaN exactly when its exponent field is all ones and its
/// fraction is not zero.
pub open spec fn is_nan_bits(a: u64) -> bool {
    (a >> 52) & 0x7ff == 0x7ff && a & 0x000f_ffff_ffff_ffff != 0
}

/// A double compares equal to 0.0 exactly when everything but its sign bit
/// is zero (both zeroes qualify).
pub open spec fn is_zero_bits(a: u64) -> bool {
    a & MAGNITUDE_MASK == 0
}

/// The ordering `a <= b` of doubles, stated on the patterns: false when
/// either side is a NaN; the two zeroes are equal; otherwise negatives come
/// before positives, positives order by magnitude, negatives by reversed
/// magnitude.
pub open spec fn le_bits(a: u64, b: u64) -> bool {
    if is_nan_bits(a) || is_nan_bits(b) {
        false
    } else if a & MAGNITUDE_MASK == 0 && b & MAGNITUDE_MASK == 0 {
        true
    } else if a >> 63 == 1 && b >> 63 == 1 {
        a & MAGNITUDE_MASK >= b & MAGNITUDE_MASK
    } else if a >> 63 == 1 {
        true
    } else if b >> 63 == 1 {
        false
    } else {
        a & MAGNITUDE_MASK <= b & MAGNITUDE_MASK
    }
}

/// The strict ordering `a < b` of doubles, for non-NaN patterns.
pub open spec fn lt_bits(a: u64, b: u64) -> bool {
    le_bits(a, b) && !le_bits(b, a)
}

/// Negation of a double flips the sign bit and nothing else.
pub open spec fn neg_bits(a: u64) -> u64 {
    a ^ SIGN_MASK
}

/// Runtime test of `is_finite_bits`.
pub fn finite_bits(a: u64) -> (r: bool)
    ensures
        r == is_finite_bits(a),
{
    (a >> 52) & 0x7ff != 0x7ff
}

/// Runtime test of `is_zero_bits`.
pub fn zero_bits(a: u64) -> (r: bool)
    ensures
        r == is_zero_bits(a),
{
    a & MAGNITUDE_MASK == 0
}

/// Runtime test of `is_nan_bits`.
pub fn nan_bits(a: u64) -> (r: bool)
    ensures
        r == is_nan_bits(a),
{
    (a >> 52) & 0x7ff == 0x7ff && a & 0x000f_ffff_ffff_ffff != 0
}

/// Runtime test of `le_bits`.
pub fn le_bits_exec(a: u64, b: u64) -> (r: bool)
    ensures
        r == le_bits(a, b),
{
    if nan_bits(a) || nan_bits(b) {
        false
    } else if a & MAGNITUDE_MASK == 0 && b & MAGNITUDE_MASK == 0 {
        true
    } else if a >> 63 == 1 && b >> 63 == 1 {
        a & MAGNITUDE_MASK >= b & MAGNITUDE_MASK
    } else if a >> 63 == 1 {
        true
    } else if b >> 63 == 1 {
        false
    } else {
        a & MAGNITUDE_MASK <= b & MAGNITUDE_MASK
    }
}

/// Runtime negation: flip the sign bit.
pub fn negate_bits(a: u64) -> (r: u64)
    ensures
        r == neg_bits(a),
{
    a ^ SIGN_MASK
}

/// Every non-NaN pattern is ordered below or equal to itself.
pub proof fn lemma_le_bits_refl(a: u64)
    requires
        !is_nan_bits(a),
    ensures
        le_bits(a, a),
{
}

/// The ordering of non-NaN patterns is transitive.
pub proof fn lemma_le_bits_trans(a: u64, b: u64, c: u64)
    requires
        le_bits(a, b),
        le_bits(b, c),
    ensures
        le_bits(a, c),
{
}

/// The sentinel constant is a NaN and therefore not finite.
pub proof fn lemma_nan_const()
    ensures
        is_nan_bits(NAN_BITS),
        !is_finite_bits(NAN_BITS),
{
    assert((0x7ff8_0000_0000_0000u64 >> 52) & 0x7ff == 0x7ff) by (bit_vector);
    assert(0x7ff8_0000_0000_0000u64 & 0x000f_ffff_ffff_ffff != 0) by (bit_vector);
}

/// A finite pattern is not a NaN.
pub proof fn lemma_finite_not_nan(a: u64)
    requires
        is_finite_bits(a),
    ensures
        !is_nan_bits(a),
{
}

} // verus!
