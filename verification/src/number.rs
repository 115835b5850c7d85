//! Double-precision numbers, held as their IEEE-754 binary64 bit patterns.
//!
//! A pattern is a sign bit, eleven exponent bits and fifty-two fraction bits.
//! Everything here that can be decided on the pattern alone (sign, ordering,
//! equality, negation) is decided on it with integer arithmetic.
use vstd::prelude::*;

verus! {

/// The sign bit of a pattern.
pub const SIGN_BIT: u64 = 0x8000_0000_0000_0000;

/// The pattern of positive infinity: every exponent bit set, no fraction bit.
pub const INFINITY_BITS: u64 = 0x7ff0_0000_0000_0000;

/// Whether the sign bit of `bits` is set.
pub open spec fn is_negative(bits: u64) -> bool {
    bits >= SIGN_BIT
}

/// The pattern with its sign bit cleared.
pub open spec fn magnitude(bits: u64) -> u64 {
    if bits >= SIGN_BIT {
        (bits - SIGN_BIT) as u64
    } else {
        bits
    }
}

/// Whether `bits` is a NaN: all exponent bits set and some fraction bit set.
pub open spec fn is_nan(bits: u64) -> bool {
    magnitude(bits) > INFINITY_BITS
}

/// The place of a non-NaN pattern on the number line, as an integer that
/// grows with the number it stands for. Both zeros have rank 0.
pub open spec fn rank(bits: u64) -> int {
    if is_negative(bits) {
        -(magnitude(bits) as int)
    } else {
        magnitude(bits) as int
    }
}

/// Numeric equality: false if either side is a NaN, and the two zeros are equal.
pub open spec fn number_eq(a: u64, b: u64) -> bool {
    !is_nan(a) && !is_nan(b) && rank(a) == rank(b)
}

/// Numeric `<`: false if either side is a NaN.
pub open spec fn number_lt(a: u64, b: u64) -> bool {
    !is_nan(a) && !is_nan(b) && rank(a) < rank(b)
}

/// Numeric `>`: false if either side is a NaN.
pub open spec fn number_gt(a: u64, b: u64) -> bool {
    number_lt(b, a)
}

/// The pattern with its sign bit flipped.
pub open spec fn negated(bits: u64) -> u64 {
    if bits >= SIGN_BIT {
        (bits - SIGN_BIT) as u64
    } else {
        (bits + SIGN_BIT) as u64
    }
}

/// Clears the sign bit.
pub fn abs_bits(bits: u64) -> (r: u64)
    ensures
        r == magnitude(bits),
        r < SIGN_BIT,
{
    if bits >= SIGN_BIT {
        bits - SIGN_BIT
    } else {
        bits
    }
}

/// Tells whether a pattern is a NaN.
pub fn bits_are_nan(bits: u64) -> (r: bool)
    ensures
        r == is_nan(bits),
{
    abs_bits(bits) > INFINITY_BITS
}

/// Numeric equality of two patterns.
pub fn bits_equal(a: u64, b: u64) -> (r: bool)
    ensures
        r == number_eq(a, b),
{
    if bits_are_nan(a) || bits_are_nan(b) {
        false
    } else if a == b {
        true
    } else {
        abs_bits(a) == 0 && abs_bits(b) == 0
    }
}

/// Numeric `<` of two patterns.
pub fn bits_less(a: u64, b: u64) -> (r: bool)
    ensures
        r == number_lt(a, b),
{
    if bits_are_nan(a) || bits_are_nan(b) {
        false
    } else {
        let a_mag: u64 = abs_bits(a);
        let b_mag: u64 = abs_bits(b);
        if a >= SIGN_BIT {
            if b >= SIGN_BIT {
                a_mag > b_mag
            } else {
                a_mag != 0 || b_mag != 0
            }
        } else {
            if b >= SIGN_BIT {
                false
            } else {
                a_mag < b_mag
            }
        }
    }
}

/// Numeric `>` of two patterns.
pub fn bits_greater(a: u64, b: u64) -> (r: bool)
    ensures
        r == number_gt(a, b),
{
    bits_less(b, a)
}

/// Flips the sign bit, which negates every number, the zeros, the infinities
/// and the NaNs included.
pub fn negate_bits(bits: u64) -> (r: u64)
    ensures
        r == negated(bits),
{
    if bits >= SIGN_BIT {
        bits - SIGN_BIT
    } else {
        bits + SIGN_BIT
    }
}

/// Negating twice gives the pattern back.
pub proof fn lemma_negated_twice(bits: u64)
    ensures
        negated(negated(bits)) == bits,
{
}

} // verus!
