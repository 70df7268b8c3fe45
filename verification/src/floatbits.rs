//! Predicates on single-precision floats held as their IEEE-754 bit
//! patterns (sign bit, 8 exponent bits, 23 fraction bits).
//!
//! Every predicate here is the IEEE-754 comparison it is named after:
//! among non-NaN values, a larger magnitude has a larger pattern once the
//! sign bit is cleared, and every NaN pattern lies above the infinity
//! pattern, so each comparison reduces to one on integers.

use vstd::prelude::*;
use crate::layout::Vec3Bits;

verus! {

/// Sign bit of an `f32`.
pub const F32_SIGN_BIT: u32 = 0x8000_0000;
/// Bit pattern of positive infinity.
pub const F32_INFINITY: u32 = 0x7f80_0000;
/// Bit pattern of `1.0`.
pub const F32_ONE: u32 = 0x3f80_0000;
/// Bit pattern of `32768.0`: no coordinate in a Quake III map reaches it.
pub const F32_MAP_LIMIT: u32 = 0x4700_0000;

/// The pattern with its sign bit cleared (the magnitude).
pub open spec fn magnitude(bits: u32) -> u32 {
    if bits >= F32_SIGN_BIT {
        (bits - F32_SIGN_BIT) as u32
    } else {
        bits
    }
}

/// The value is neither infinite nor NaN.
pub open spec fn is_finite(bits: u32) -> bool {
    magnitude(bits) < F32_INFINITY
}

/// The value is NaN.
pub open spec fn is_nan(bits: u32) -> bool {
    magnitude(bits) > F32_INFINITY
}

/// `|x| < limit`, where `limit` is the pattern of a finite non-negative float.
pub open spec fn abs_lt(bits: u32, limit: u32) -> bool {
    magnitude(bits) < limit
}

/// `|x| >= limit`, where `limit` is the pattern of a finite non-negative
/// float (false for NaN, as every comparison with NaN is).
pub open spec fn abs_ge(bits: u32, limit: u32) -> bool {
    !is_nan(bits) && magnitude(bits) >= limit
}

/// `x == 0.0` (true for both signed zeros).
pub open spec fn is_zero(bits: u32) -> bool {
    magnitude(bits) == 0
}

/// All three components equal `0.0`.
pub open spec fn vec3_is_zero(v: Vec3Bits) -> bool {
    is_zero(v.x) && is_zero(v.y) && is_zero(v.z)
}

/// A coordinate that can occur in a map: finite and below 32768 in magnitude.
pub open spec fn reasonable(bits: u32) -> bool {
    is_finite(bits) && abs_lt(bits, F32_MAP_LIMIT)
}

/// All three components are [`reasonable`].
pub open spec fn reasonable_coord(v: Vec3Bits) -> bool {
    reasonable(v.x) && reasonable(v.y) && reasonable(v.z)
}

/// The pattern with its sign bit cleared.
pub fn f32_magnitude(bits: u32) -> (r: u32)
    ensures
        r == magnitude(bits),
{
    if bits >= F32_SIGN_BIT {
        bits - F32_SIGN_BIT
    } else {
        bits
    }
}

/// `x.is_finite()`.
pub fn f32_is_finite(bits: u32) -> (r: bool)
    ensures
        r == is_finite(bits),
{
    f32_magnitude(bits) < F32_INFINITY
}

/// `x.abs() < limit`.
pub fn f32_abs_lt(bits: u32, limit: u32) -> (r: bool)
    ensures
        r == abs_lt(bits, limit),
{
    f32_magnitude(bits) < limit
}

/// `x.abs() >= limit`.
pub fn f32_abs_ge(bits: u32, limit: u32) -> (r: bool)
    ensures
        r == abs_ge(bits, limit),
{
    let m = f32_magnitude(bits);
    m <= F32_INFINITY && m >= limit
}

/// `x == 0.0`.
pub fn f32_is_zero(bits: u32) -> (r: bool)
    ensures
        r == is_zero(bits),
{
    f32_magnitude(bits) == 0
}

/// All three components equal `0.0`.
pub fn f32_vec3_is_zero(v: &Vec3Bits) -> (r: bool)
    ensures
        r == vec3_is_zero(*v),
{
    f32_is_zero(v.x) && f32_is_zero(v.y) && f32_is_zero(v.z)
}

/// Finite and below 32768 in magnitude.
pub fn f32_reasonable(bits: u32) -> (r: bool)
    ensures
        r == reasonable(bits),
{
    f32_is_finite(bits) && f32_abs_lt(bits, F32_MAP_LIMIT)
}

/// Quake III maps are bounded: no coordinate legitimately reaches 32768.
pub fn f32_reasonable_coord(v: &Vec3Bits) -> (r: bool)
    ensures
        r == reasonable_coord(*v),
{
    f32_reasonable(v.x) && f32_reasonable(v.y) && f32_reasonable(v.z)
}

} // verus!
