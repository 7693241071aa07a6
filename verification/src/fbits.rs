use vstd::prelude::*;

verus! {

// The plotting pipeline stores every sample coordinate as the 64-bit
// IEEE-754 bit pattern of the value, held in a `u64`.  All decisions the
// library makes about a coordinate (is it missing, is it positive, which of
// two values is smaller) are functions of the bit pattern alone, so they can
// be written and verified here as plain integer logic.  Only arithmetic on
// the encoded values (logarithms, sums, the scaling formula) lives outside
// the library, in the unverified shell around it.

/// Bit pattern of positive zero.
pub const ZERO_BITS: u64 = 0;

/// Bit pattern of negative zero: only the sign bit set.
pub const NEG_ZERO_BITS: u64 = 0x8000_0000_0000_0000;

/// True when the bit pattern encodes "not a number": exponent bits all set
/// and a non-zero mantissa.
pub open spec fn is_nan_bits(b: u64) -> bool {
    (b >> 52) & 0x7ff == 0x7ff && (b & 0xf_ffff_ffff_ffff) != 0
}

/// Negative zero reads as positive zero, every other pattern as itself.
/// After this step, distinct patterns encode distinct values.
pub open spec fn canon_bits(b: u64) -> u64 {
    if b == NEG_ZERO_BITS {
        ZERO_BITS
    } else {
        b
    }
}

/// Order-preserving key of a (non-"not a number") bit pattern: two encoded
/// values compare exactly as their keys do.  Patterns with the sign bit clear
/// encode non-negative values in increasing pattern order; patterns with the
/// sign bit set encode negative values in decreasing pattern order.
pub open spec fn float_key(b: u64) -> u64 {
    let c = canon_bits(b);
    if c < NEG_ZERO_BITS {
        (c + NEG_ZERO_BITS) as u64
    } else {
        (0xffff_ffff_ffff_ffffu64 - c) as u64
    }
}

/// The encoded values are equal.
pub open spec fn float_eq(a: u64, b: u64) -> bool {
    !is_nan_bits(a) && !is_nan_bits(b) && canon_bits(a) == canon_bits(b)
}

/// The encoded value of `a` is strictly below the encoded value of `b`.
pub open spec fn float_lt(a: u64, b: u64) -> bool {
    !is_nan_bits(a) && !is_nan_bits(b) && float_key(a) < float_key(b)
}

/// The encoded value of `a` is at or below the encoded value of `b`.
pub open spec fn float_le(a: u64, b: u64) -> bool {
    !is_nan_bits(a) && !is_nan_bits(b) && float_key(a) <= float_key(b)
}

/// The encoded value is at or below zero.
pub open spec fn is_nonpositive_bits(b: u64) -> bool {
    !is_nan_bits(b) && float_key(b) <= float_key(ZERO_BITS)
}

pub fn bits_is_nan(b: u64) -> (r: bool)
    ensures
        r == is_nan_bits(b),
{
    (b >> 52) & 0x7ff == 0x7ff && (b & 0xf_ffff_ffff_ffff) != 0
}

pub fn bits_key(b: u64) -> (r: u64)
    ensures
        r == float_key(b),
{
    let c = if b == NEG_ZERO_BITS {
        ZERO_BITS
    } else {
        b
    };
    if c < NEG_ZERO_BITS {
        c + NEG_ZERO_BITS
    } else {
        0xffff_ffff_ffff_ffffu64 - c
    }
}

pub fn bits_eq(a: u64, b: u64) -> (r: bool)
    requires
        !is_nan_bits(a),
        !is_nan_bits(b),
    ensures
        r == float_eq(a, b),
{
    let ca = if a == NEG_ZERO_BITS {
        ZERO_BITS
    } else {
        a
    };
    let cb = if b == NEG_ZERO_BITS {
        ZERO_BITS
    } else {
        b
    };
    ca == cb
}

pub fn bits_lt(a: u64, b: u64) -> (r: bool)
    requires
        !is_nan_bits(a),
        !is_nan_bits(b),
    ensures
        r == float_lt(a, b),
{
    bits_key(a) < bits_key(b)
}

pub fn bits_le(a: u64, b: u64) -> (r: bool)
    requires
        !is_nan_bits(a),
        !is_nan_bits(b),
    ensures
        r == float_le(a, b),
{
    bits_key(a) <= bits_key(b)
}

pub fn bits_is_nonpositive(b: u64) -> (r: bool)
    requires
        !is_nan_bits(b),
    ensures
        r == is_nonpositive_bits(b),
{
    bits_key(b) <= bits_key(ZERO_BITS)
}

/// The two zero patterns encode numbers, not "not a number".
pub proof fn lemma_zero_not_nan()
    ensures
        !is_nan_bits(ZERO_BITS),
        !is_nan_bits(NEG_ZERO_BITS),
{
    assert((0u64 >> 52) & 0x7ff != 0x7ff) by (bit_vector);
    assert((0x8000_0000_0000_0000u64 >> 52) & 0x7ff != 0x7ff) by (bit_vector);
}

/// Patterns with equal keys have equal canonical patterns, so the order on
/// keys is a total order on the encoded values.
pub proof fn lemma_float_key_injective(a: u64, b: u64)
    ensures
        float_key(a) == float_key(b) ==> canon_bits(a) == canon_bits(b),
{
}

} // verus!
