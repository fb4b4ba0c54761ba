//! Bit-level view of the automaton's continuous scalars.
//!
//! A scalar is an IEEE-754 binary64 value carried as its 64-bit
//! pattern. The ordering of such values (and hence clamping) is fully
//! determined by the bit pattern alone — sign-magnitude order, with
//! the two zeroes equal and NaN unordered — so both are implemented
//! and verified here as plain integer code.

use vstd::prelude::*;

verus! {

/// Bit pattern of the scalar `0.0`.
pub const BITS_ZERO: u64 = 0;

/// Bit pattern of the scalar `1.0`.
pub const BITS_ONE: u64 = 0x3FF0_0000_0000_0000;

/// Mask selecting the exponent field of a binary64 pattern.
pub const EXPONENT_MASK: u64 = 0x7FF0_0000_0000_0000;

/// Mask selecting the fraction (mantissa) field of a binary64 pattern.
pub const FRACTION_MASK: u64 = 0x000F_FFFF_FFFF_FFFF;

/// Mask clearing the sign bit of a binary64 pattern.
pub const MAGNITUDE_MASK: u64 = 0x7FFF_FFFF_FFFF_FFFF;

/// First pattern whose sign bit is set.
pub const SIGN_BIT: u64 = 0x8000_0000_0000_0000;

/// A binary64 pattern denotes NaN when its exponent field is all ones
/// and its fraction field is not zero.
pub open spec fn is_nan_bits(x: u64) -> bool {
    x & EXPONENT_MASK == EXPONENT_MASK && x & FRACTION_MASK != 0
}

/// The pattern with the sign bit cleared: the bits of the absolute value.
pub open spec fn magnitude_bits(x: u64) -> u64 {
    x & MAGNITUDE_MASK
}

/// Whether the sign bit of the pattern is set.
pub open spec fn sign_bit_set(x: u64) -> bool {
    x >= SIGN_BIT
}

/// The place of a non-NaN binary64 value in the real order, as an
/// integer key: magnitudes of non-negative values order like their bit
/// patterns, negative values mirror below zero, and the two zeroes
/// share the key `0`.
pub open spec fn order_key(x: u64) -> int {
    if sign_bit_set(x) {
        -(magnitude_bits(x) as int)
    } else {
        magnitude_bits(x) as int
    }
}

/// The strict `<` order on binary64 values, decided on bit patterns:
/// false whenever either side is NaN, otherwise the sign-magnitude
/// order of the values.
pub open spec fn lt_spec(a: u64, b: u64) -> bool {
    &&& !is_nan_bits(a)
    &&& !is_nan_bits(b)
    &&& order_key(a) < order_key(b)
}

/// What clamping a scalar into `[0.0, 1.0]` returns: the nearer bound
/// when the value lies strictly outside, and the value itself
/// otherwise — in particular NaN, which no comparison orders, is
/// returned unchanged.
pub open spec fn clamp_unit_spec(x: u64) -> u64 {
    if lt_spec(x, BITS_ZERO) {
        BITS_ZERO
    } else if lt_spec(BITS_ONE, x) {
        BITS_ONE
    } else {
        x
    }
}

/// The pattern denotes a value lying in the closed interval `[0.0, 1.0]`.
pub open spec fn in_unit_interval(x: u64) -> bool {
    &&& !is_nan_bits(x)
    &&& 0 <= order_key(x)
    &&& order_key(x) <= BITS_ONE
}

/// Whether the pattern denotes NaN.
pub fn is_nan(x: u64) -> (r: bool)
    ensures
        r == is_nan_bits(x),
{
    x & EXPONENT_MASK == EXPONENT_MASK && x & FRACTION_MASK != 0
}

/// The strict `<` order on two scalars given by their bit patterns.
pub fn lt_bits(a: u64, b: u64) -> (r: bool)
    ensures
        r == lt_spec(a, b),
{
    if is_nan(a) || is_nan(b) {
        return false;
    }
    let negative_a = a >= SIGN_BIT;
    let negative_b = b >= SIGN_BIT;
    let magnitude_a = a & MAGNITUDE_MASK;
    let magnitude_b = b & MAGNITUDE_MASK;
    if negative_a && negative_b {
        magnitude_b < magnitude_a
    } else if negative_a {
        magnitude_a != 0 || magnitude_b != 0
    } else if negative_b {
        false
    } else {
        magnitude_a < magnitude_b
    }
}

/// Clamps a scalar into `[0.0, 1.0]`, deciding on bit patterns; a NaN
/// pattern passes through unchanged, as clamping leaves it.
pub fn clamp_unit(x: u64) -> (r: u64)
    ensures
        r == clamp_unit_spec(x),
{
    if lt_bits(x, BITS_ZERO) {
        BITS_ZERO
    } else if lt_bits(BITS_ONE, x) {
        BITS_ONE
    } else {
        x
    }
}

/// The clamped value lies in `[0.0, 1.0]` for every non-NaN input,
/// however extreme: the symbol-mutation probability fed to the
/// automaton is therefore always a genuine probability.
pub proof fn lemma_clamp_unit_in_range(x: u64)
    requires
        !is_nan_bits(x),
    ensures
        in_unit_interval(clamp_unit_spec(x)),
{
    assert(!is_nan_bits(BITS_ZERO)) by (bit_vector);
    assert(!is_nan_bits(BITS_ONE)) by (bit_vector);
    assert(magnitude_bits(BITS_ZERO) == 0) by (bit_vector);
    assert(magnitude_bits(BITS_ONE) == BITS_ONE) by (bit_vector);
    assert(!sign_bit_set(BITS_ZERO)) by (bit_vector);
    assert(!sign_bit_set(BITS_ONE)) by (bit_vector);
}

} // verus!
