//! Ordering and classification of IEEE 754 values by their bit patterns.
//!
//! A similarity score is carried as the `u64` bit pattern of a
//! double-precision value. The functions here give those patterns the
//! standard total order of the values they encode: negative values below
//! positive ones, magnitudes ordered within each sign, the two zeros
//! identified, and a NaN above (below) every number when its sign bit is
//! clear (set). On every score the engine actually produces, which is never
//! a NaN, this order agrees with the ordinary `<=` of the encoded values.

use vstd::prelude::*;

verus! {

/// The sign bit of a double-precision pattern.
pub const F64_SIGN_BIT: u64 = 0x8000_0000_0000_0000;

/// The sign bit of a single-precision pattern.
pub const F32_SIGN_BIT: u32 = 0x8000_0000;

/// The magnitude (exponent and mantissa) encoded by a double-precision
/// bit pattern.
pub open spec fn f64_magnitude(bits: u64) -> int {
    (bits % F64_SIGN_BIT) as int
}

/// Whether a double-precision bit pattern has its sign bit set.
pub open spec fn f64_sign_set(bits: u64) -> bool {
    bits >= F64_SIGN_BIT
}

/// The integer key that orders double-precision bit patterns as the values
/// they encode: magnitudes below zero for negative patterns, above it for
/// positive ones. Both zeros map to key 0.
pub open spec fn f64_order_key(bits: u64) -> int {
    if f64_sign_set(bits) {
        -f64_magnitude(bits)
    } else {
        f64_magnitude(bits)
    }
}

/// Whether a single-precision bit pattern encodes a zero (of either sign).
pub open spec fn f32_is_zero(bits: u32) -> bool {
    bits % F32_SIGN_BIT == 0
}

/// Compares two double-precision bit patterns in the value order.
pub fn f64_le_bits(a: u64, b: u64) -> (r: bool)
    ensures
        r == (f64_order_key(a) <= f64_order_key(b)),
{
    let a_sign = a >= F64_SIGN_BIT;
    let b_sign = b >= F64_SIGN_BIT;
    let a_mag = a % F64_SIGN_BIT;
    let b_mag = b % F64_SIGN_BIT;
    if a_sign {
        if b_sign {
            b_mag <= a_mag
        } else {
            true
        }
    } else {
        if b_sign {
            a_mag == 0 && b_mag == 0
        } else {
            a_mag <= b_mag
        }
    }
}

/// Decides whether a single-precision bit pattern encodes a zero.
pub fn f32_is_zero_bits(bits: u32) -> (r: bool)
    ensures
        r == f32_is_zero(bits),
{
    bits % F32_SIGN_BIT == 0
}

} // verus!
