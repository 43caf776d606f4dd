//! Binary32 numbers as bit patterns.
//!
//! A cell of a table is an IEEE 754 binary32 number, stored as the `u32` that
//! holds its bits. A NaN marks a value that is unknown. Ordering and the NaN
//! test need no arithmetic and are decided here, on the bits.

use vstd::prelude::*;

verus! {

/// The bit that holds the sign.
pub const SIGN_BIT: u32 = 0x8000_0000;

/// Positive zero.
pub const ZERO: u32 = 0x0000_0000;

/// The number one.
pub const ONE: u32 = 0x3f80_0000;

/// The number two.
pub const TWO: u32 = 0x4000_0000;

/// Positive infinity.
pub const INFINITY: u32 = 0x7f80_0000;

/// Negative infinity.
pub const NEG_INFINITY: u32 = 0xff80_0000;

/// The quiet NaN that stands for an unknown value.
pub const NAN: u32 = 0x7fc0_0000;

/// The bits below the sign bit: exponent and fraction.
pub open spec fn magnitude(bits: u32) -> int {
    if bits >= 0x8000_0000 {
        bits - 0x8000_0000
    } else {
        bits as int
    }
}

/// Whether the sign bit is set.
pub open spec fn negative(bits: u32) -> bool {
    bits >= 0x8000_0000
}

/// Whether `bits` encodes a NaN: all exponent bits set and a fraction that is
/// not zero.
pub open spec fn nan(bits: u32) -> bool {
    magnitude(bits) > 0x7f80_0000
}

/// The place of a number that is not a NaN among all such numbers. Numbers
/// of one sign are ordered as their magnitudes are, and both zeros share the
/// place 0.
pub open spec fn rank(bits: u32) -> int {
    if negative(bits) {
        -magnitude(bits)
    } else {
        magnitude(bits)
    }
}

/// `a < b` as binary32 numbers: false as soon as either is a NaN.
pub open spec fn less(a: u32, b: u32) -> bool {
    !nan(a) && !nan(b) && rank(a) < rank(b)
}

/// `a <= b` as binary32 numbers: false as soon as either is a NaN.
pub open spec fn at_most(a: u32, b: u32) -> bool {
    !nan(a) && !nan(b) && rank(a) <= rank(b)
}

/// The truth value that a number stands for: none for a NaN, else whether
/// the number is above zero.
pub open spec fn truth(bits: u32) -> Option<bool> {
    if nan(bits) {
        None
    } else {
        Some(rank(bits) > 0)
    }
}

/// The number that stands for a truth value: one for true, zero for false.
pub open spec fn indicator(value: bool) -> u32 {
    if value {
        ONE
    } else {
        ZERO
    }
}

fn signed_rank(bits: u32) -> (r: i64)
    ensures
        r == rank(bits),
{
    if bits >= SIGN_BIT {
        let m: u32 = bits - SIGN_BIT;
        -(m as i64)
    } else {
        bits as i64
    }
}

/// Tells whether `bits` encodes a NaN.
#[verifier::when_used_as_spec(nan)]
pub fn is_nan(bits: u32) -> (r: bool)
    ensures
        r == nan(bits),
{
    let m: u32 = if bits >= SIGN_BIT {
        bits - SIGN_BIT
    } else {
        bits
    };
    m > INFINITY
}

/// `a < b` as binary32 numbers.
#[verifier::when_used_as_spec(less)]
pub fn lt(a: u32, b: u32) -> (r: bool)
    ensures
        r == less(a, b),
{
    !is_nan(a) && !is_nan(b) && signed_rank(a) < signed_rank(b)
}

/// `a <= b` as binary32 numbers.
#[verifier::when_used_as_spec(at_most)]
pub fn le(a: u32, b: u32) -> (r: bool)
    ensures
        r == at_most(a, b),
{
    !is_nan(a) && !is_nan(b) && signed_rank(a) <= signed_rank(b)
}

/// `a > b` as binary32 numbers.
pub fn gt(a: u32, b: u32) -> (r: bool)
    ensures
        r == less(b, a),
{
    lt(b, a)
}

/// `a >= b` as binary32 numbers.
pub fn ge(a: u32, b: u32) -> (r: bool)
    ensures
        r == at_most(b, a),
{
    le(b, a)
}

/// One for true, zero for false.
#[verifier::when_used_as_spec(indicator)]
pub fn bool_to_f32(value: bool) -> (r: u32)
    ensures
        r == indicator(value),
{
    if value {
        ONE
    } else {
        ZERO
    }
}

/// Reads a number as a truth value: none for a NaN, else whether it is above
/// zero.
#[verifier::when_used_as_spec(truth)]
pub fn f32_to_bool(value: u32) -> (r: Option<bool>)
    ensures
        r == truth(value),
{
    if is_nan(value) {
        None
    } else {
        Some(gt(value, ZERO))
    }
}

} // verus!
