//! Bit patterns of IEEE 754 binary64 numbers, and the real numbers that they
//! stand for.
//!
//! A pattern holds, from the top, one sign bit, eleven bits of exponent and
//! fifty-two bits of fraction. Where the exponent field is not all ones the
//! pattern stands for a real number, [`value`]; where it is, the pattern is
//! an infinity or not a number. The tests of this module compare whole
//! patterns, and are proved to decide what the comparison of the numbers
//! decides.

use vstd::arithmetic::power2::{
    lemma2_to64, lemma2_to64_rest, lemma_pow2_adds, lemma_pow2_pos, lemma_pow2_strictly_increases,
    pow2,
};
use vstd::prelude::*;

verus! {

/// The pattern of the number one.
pub const ONE: u64 = 0x3FF0_0000_0000_0000;

/// The pattern of positive infinity.
pub const INFINITY: u64 = 0x7FF0_0000_0000_0000;

/// The pattern that holds the sign bit alone: the negative zero.
pub const SIGN: u64 = 0x8000_0000_0000_0000;

/// The sign bit is set.
pub open spec fn negative(bits: u64) -> bool {
    bits >= 0x8000_0000_0000_0000
}

/// The eleven bits below the sign bit.
pub open spec fn exponent_field(bits: u64) -> nat {
    ((bits / 0x10_0000_0000_0000) % 0x800) as nat
}

/// The lowest fifty-two bits.
pub open spec fn fraction_field(bits: u64) -> nat {
    (bits % 0x10_0000_0000_0000) as nat
}

/// The pattern is not a number.
pub open spec fn is_nan(bits: u64) -> bool {
    exponent_field(bits) == 0x7FF && fraction_field(bits) != 0
}

/// The pattern is an infinity, of either sign.
pub open spec fn is_infinite(bits: u64) -> bool {
    exponent_field(bits) == 0x7FF && fraction_field(bits) == 0
}

/// The pattern stands for a real number.
pub open spec fn is_finite(bits: u64) -> bool {
    exponent_field(bits) < 0x7FF
}

/// The fraction, with the leading one that a normal number implies.
pub open spec fn significand(bits: u64) -> nat {
    if exponent_field(bits) == 0 {
        fraction_field(bits)
    } else {
        0x10_0000_0000_0000 + fraction_field(bits)
    }
}

/// The power of two by which the significand is multiplied, counted from
/// that of the smallest subnormal numbers.
pub open spec fn scale(bits: u64) -> nat {
    if exponent_field(bits) == 0 {
        0
    } else {
        (exponent_field(bits) - 1) as nat
    }
}

/// The absolute value of the number that a finite pattern stands for: the
/// significand times two to the power `scale(bits) - 1074`.
pub open spec fn magnitude(bits: u64) -> real {
    (significand(bits) * pow2(scale(bits))) as real / (pow2(1074) as real)
}

/// The number that a finite pattern stands for.
pub open spec fn value(bits: u64) -> real {
    if negative(bits) {
        -magnitude(bits)
    } else {
        magnitude(bits)
    }
}

/// The pattern is greater than one: positive infinity, or a number greater
/// than one. What is not a number is not greater than anything.
pub open spec fn greater_than_one(bits: u64) -> bool {
    if is_nan(bits) {
        false
    } else if is_infinite(bits) {
        !negative(bits)
    } else {
        value(bits) > 1real
    }
}

/// The pattern stands for zero, of either sign.
pub open spec fn is_zero(bits: u64) -> bool {
    is_finite(bits) && value(bits) == 0real
}

/// The pattern stands for a number that is at least zero and at most one.
pub open spec fn in_unit_interval(bits: u64) -> bool {
    is_finite(bits) && 0real <= value(bits) <= 1real
}

proof fn lemma_ratio(a: real, b: real)
    by (nonlinear_arith)
    requires
        b > 0real,
    ensures
        a / b > 1real <==> a > b,
        a >= 0real ==> a / b >= 0real,
        a / b == 0real <==> a == 0real,
{
}

proof fn lemma_product_order(a: nat, b: nat, p: nat)
    by (nonlinear_arith)
    requires
        p > 0,
    ensures
        a < b <==> a * p < b * p,
        a == b <==> a * p == b * p,
{
}

/// A pattern is the sum of its three fields, each at its place.
proof fn lemma_fields(bits: u64)
    ensures
        bits == (if negative(bits) {
            0x8000_0000_0000_0000int
        } else {
            0int
        }) + exponent_field(bits) * 0x10_0000_0000_0000 + fraction_field(bits),
        exponent_field(bits) <= 0x7FF,
        fraction_field(bits) < 0x10_0000_0000_0000,
{
}

/// The magnitude of a pattern is not negative.
pub proof fn lemma_magnitude_not_negative(bits: u64)
    ensures
        magnitude(bits) >= 0real,
{
    lemma_pow2_pos(1074);
    lemma_pow2_pos(scale(bits));
    lemma_ratio((significand(bits) * pow2(scale(bits))) as real, pow2(1074) as real);
    assert(significand(bits) * pow2(scale(bits)) >= 0);
}

/// The patterns that are greater than one are those above the pattern of
/// one, up to that of positive infinity.
pub proof fn lemma_greater_than_one(bits: u64)
    ensures
        greater_than_one(bits) <==> 0x3FF0_0000_0000_0000 < bits <= 0x7FF0_0000_0000_0000,
{
    let e = exponent_field(bits);
    let f = fraction_field(bits);
    let m = significand(bits);
    let k = scale(bits);
    let unit: nat = 0x10_0000_0000_0000;
    lemma_fields(bits);
    lemma2_to64();
    lemma2_to64_rest();
    lemma_pow2_pos(1074);
    lemma_pow2_pos(k);
    lemma_ratio((m * pow2(k)) as real, pow2(1074) as real);
    if e < 0x7FF {
        if negative(bits) {
            assert(m * pow2(k) >= 0);
        } else if e == 0 {
            assert(m * pow2(k) == f) by (nonlinear_arith)
                requires
                    m == f,
                    pow2(k) == 1,
            ;
            lemma_pow2_strictly_increases(52, 1074);
        } else {
            lemma_pow2_adds(52, k);
            lemma_pow2_adds(53, k);
            lemma_product_order(m, 2 * unit, pow2(k));
            lemma_product_order(unit, m, pow2(k));
            if e < 1023 {
                if 53 + k < 1074 {
                    lemma_pow2_strictly_increases(53 + k, 1074);
                }
            } else if e > 1023 {
                lemma_pow2_strictly_increases(1074, 52 + k);
            }
        }
    }
}

/// The patterns of zero are the pattern without any bit and the pattern
/// with the sign bit alone.
pub proof fn lemma_is_zero(bits: u64)
    ensures
        is_zero(bits) <==> bits == 0 || bits == 0x8000_0000_0000_0000,
{
    let m = significand(bits);
    let k = scale(bits);
    lemma_fields(bits);
    lemma_pow2_pos(1074);
    lemma_pow2_pos(k);
    lemma_ratio((m * pow2(k)) as real, pow2(1074) as real);
    lemma_product_order(0, m, pow2(k));
}

/// The patterns of the numbers from zero to one are those up to the pattern
/// of one, and the negative zero.
pub proof fn lemma_in_unit_interval(bits: u64)
    ensures
        in_unit_interval(bits) <==> bits <= 0x3FF0_0000_0000_0000 || bits
            == 0x8000_0000_0000_0000,
{
    let m = significand(bits);
    let k = scale(bits);
    lemma_fields(bits);
    lemma_greater_than_one(bits);
    lemma_is_zero(bits);
    lemma_pow2_pos(1074);
    lemma_pow2_pos(k);
    lemma_ratio((m * pow2(k)) as real, pow2(1074) as real);
    assert(m * pow2(k) >= 0);
}

/// Whether `bits` is greater than one, as the comparison of binary64
/// numbers decides it.
pub fn exceeds_one(bits: u64) -> (r: bool)
    ensures
        r == greater_than_one(bits),
{
    proof {
        lemma_greater_than_one(bits);
    }
    bits > ONE && bits <= INFINITY
}

/// Whether `bits` equals zero, as the comparison of binary64 numbers
/// decides it.
pub fn equals_zero(bits: u64) -> (r: bool)
    ensures
        r == is_zero(bits),
{
    proof {
        lemma_is_zero(bits);
    }
    bits == 0 || bits == SIGN
}

} // verus!
