//! IEEE-754 bit patterns and the order they stand for.
//!
//! A binary64 value is held as the `u64` that `to_bits` gives, a binary32
//! value as the `u32`. On patterns that are not NaN, numeric order is the
//! order of `order_key`: the magnitude bits read as an integer, negated when
//! the sign bit is set, so that both zeros share the key 0.

use vstd::prelude::*;

verus! {

/// Mask of the exponent and fraction bits of a binary64 pattern.
pub const MAGNITUDE_MASK: u64 = 0x7FFF_FFFF_FFFF_FFFF;

/// The sign bit of a binary64 pattern.
pub const SIGN_BIT: u64 = 0x8000_0000_0000_0000;

/// Pattern of positive infinity; every larger magnitude is a NaN.
pub const INFINITY_BITS: u64 = 0x7FF0_0000_0000_0000;

/// Pattern of positive zero.
pub const ZERO_BITS: u64 = 0;

/// Pattern of one.
pub const ONE_BITS: u64 = 0x3FF0_0000_0000_0000;

/// Exponent field of a binary32 pattern; all ones means infinite or NaN.
pub const EXPONENT_MASK_32: u32 = 0x7F80_0000;

pub open spec fn magnitude(bits: u64) -> u64 {
    bits & MAGNITUDE_MASK
}

pub open spec fn is_negative(bits: u64) -> bool {
    bits & SIGN_BIT != 0
}

pub open spec fn is_nan(bits: u64) -> bool {
    magnitude(bits) > INFINITY_BITS
}

pub open spec fn is_infinite(bits: u64) -> bool {
    magnitude(bits) == INFINITY_BITS
}

/// Integer whose order is the numeric order of the values that are not NaN.
pub open spec fn order_key(bits: u64) -> int {
    if is_negative(bits) {
        -(magnitude(bits) as int)
    } else {
        magnitude(bits) as int
    }
}

/// `a < b` as IEEE-754 compares them: false whenever one side is NaN.
pub open spec fn float_lt(a: u64, b: u64) -> bool {
    !is_nan(a) && !is_nan(b) && order_key(a) < order_key(b)
}

/// `a <= b` as IEEE-754 compares them.
pub open spec fn float_le(a: u64, b: u64) -> bool {
    !is_nan(a) && !is_nan(b) && order_key(a) <= order_key(b)
}

/// `a == b` as IEEE-754 compares them: the two zeros are equal, NaN equals nothing.
pub open spec fn float_eq(a: u64, b: u64) -> bool {
    !is_nan(a) && !is_nan(b) && order_key(a) == order_key(b)
}

/// A binary32 pattern that is neither infinite nor NaN.
pub open spec fn is_finite_32(bits: u32) -> bool {
    bits & EXPONENT_MASK_32 != EXPONENT_MASK_32
}

pub fn nan(bits: u64) -> (r: bool)
    ensures
        r == is_nan(bits),
{
    (bits & MAGNITUDE_MASK) > INFINITY_BITS
}

pub fn infinite(bits: u64) -> (r: bool)
    ensures
        r == is_infinite(bits),
{
    (bits & MAGNITUDE_MASK) == INFINITY_BITS
}

pub fn finite_32(bits: u32) -> (r: bool)
    ensures
        r == is_finite_32(bits),
{
    (bits & EXPONENT_MASK_32) != EXPONENT_MASK_32
}

/// Numeric `<` on two binary64 patterns.
pub fn lt(a: u64, b: u64) -> (r: bool)
    ensures
        r == float_lt(a, b),
{
    if nan(a) || nan(b) {
        return false;
    }
    let ma: u64 = a & MAGNITUDE_MASK;
    let mb: u64 = b & MAGNITUDE_MASK;
    let na: bool = (a & SIGN_BIT) != 0;
    let nb: bool = (b & SIGN_BIT) != 0;
    if na {
        if nb {
            ma > mb
        } else {
            ma != 0 || mb != 0
        }
    } else {
        if nb {
            false
        } else {
            ma < mb
        }
    }
}

/// Numeric `<=` on two binary64 patterns.
pub fn le(a: u64, b: u64) -> (r: bool)
    ensures
        r == float_le(a, b),
{
    if nan(a) || nan(b) {
        return false;
    }
    !lt(b, a)
}

/// On values that are not NaN, `<=` is total and transitive, and `<` is its strict part.
pub proof fn lemma_order_is_total(a: u64, b: u64, c: u64)
    requires
        !is_nan(a),
        !is_nan(b),
        !is_nan(c),
    ensures
        float_le(a, b) || float_le(b, a),
        float_le(a, b) && float_le(b, c) ==> float_le(a, c),
        float_lt(a, b) <==> !float_le(b, a),
        float_le(a, b) && float_le(b, a) <==> float_eq(a, b),
{
}

} // verus!
