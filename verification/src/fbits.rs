//! Scalar IEEE 754 single-precision operations, carried as `u32` bit
//! patterns so that the surrounding logic can be verified. Each operation is
//! a deterministic function of its operands' bits, so the result of each is
//! given a name that contracts can speak of.

use vstd::prelude::*;

verus! {

/// Bit pattern of 0.0.
pub const F_ZERO: u32 = 0x0000_0000;
/// Bit pattern of 1.0.
pub const F_ONE: u32 = 0x3F80_0000;

/// Bit pattern of 2.0.
pub const F_TWO: u32 = 0x4000_0000;

/// Bit pattern of 3.0.
pub const F_THREE: u32 = 0x4040_0000;

/// Bit pattern of 0.001.
pub const F_MILLI: u32 = 0x3A83_126F;

/// Bit pattern of one quarter pi.
pub const F_QUARTER_PI: u32 = 0x3F49_0FDB;

/// Bit pattern of positive infinity.
pub const F_INF: u32 = 0x7F80_0000;

/// Bit pattern of negative infinity.
pub const F_NEG_INF: u32 = 0xFF80_0000;

/// The bit pattern of a negated single-precision value: IEEE 754 negation
/// flips the sign bit and nothing else.
pub fn f_neg(a: u32) -> (r: u32)
    ensures
        r == a ^ 0x8000_0000u32,
{
    a ^ 0x8000_0000
}

pub uninterp spec fn add_bits(a: u32, b: u32) -> u32;

pub uninterp spec fn sub_bits(a: u32, b: u32) -> u32;

pub uninterp spec fn mul_bits(a: u32, b: u32) -> u32;

pub uninterp spec fn div_bits(a: u32, b: u32) -> u32;

pub uninterp spec fn rem_bits(a: u32, b: u32) -> u32;

pub uninterp spec fn le_bits(a: u32, b: u32) -> bool;

pub uninterp spec fn lt_bits(a: u32, b: u32) -> bool;

/// Relies on the single-precision addition operator.
#[verifier::external_body]
pub fn f_add(a: u32, b: u32) -> (r: u32)
    ensures
        r == add_bits(a, b),
{
    let v = glam::Vec2::from_array(bytemuck::cast([a, b]));
    bytemuck::cast(v.x + v.y)
}

/// Relies on the single-precision subtraction operator.
#[verifier::external_body]
pub fn f_sub(a: u32, b: u32) -> (r: u32)
    ensures
        r == sub_bits(a, b),
{
    let v = glam::Vec2::from_array(bytemuck::cast([a, b]));
    bytemuck::cast(v.x - v.y)
}

/// Relies on the single-precision multiplication operator.
#[verifier::external_body]
pub fn f_mul(a: u32, b: u32) -> (r: u32)
    ensures
        r == mul_bits(a, b),
{
    let v = glam::Vec2::from_array(bytemuck::cast([a, b]));
    bytemuck::cast(v.x * v.y)
}

/// Relies on the single-precision division operator.
#[verifier::external_body]
pub fn f_div(a: u32, b: u32) -> (r: u32)
    ensures
        r == div_bits(a, b),
{
    let v = glam::Vec2::from_array(bytemuck::cast([a, b]));
    bytemuck::cast(v.x / v.y)
}

/// Relies on the single-precision remainder operator (sign follows the
/// dividend).
#[verifier::external_body]
pub fn f_rem(a: u32, b: u32) -> (r: u32)
    ensures
        r == rem_bits(a, b),
{
    let v = glam::Vec2::from_array(bytemuck::cast([a, b]));
    bytemuck::cast(v.x % v.y)
}

/// Relies on f32::cos. Its rounding may differ between platforms and math
/// libraries, so nothing is assumed of the result.
#[verifier::external_body]
pub fn f_cos(a: u32) -> u32 {
    let v = glam::Vec2::from_array(bytemuck::cast([a, a]));
    bytemuck::cast(v.x.cos())
}

pub uninterp spec fn min_bits(a: u32, b: u32) -> u32;

pub uninterp spec fn max_bits(a: u32, b: u32) -> u32;

/// Relies on f32::min, which returns the other operand when one is a NaN.
#[verifier::external_body]
pub fn f_min(a: u32, b: u32) -> (r: u32)
    ensures
        r == min_bits(a, b),
{
    let v = glam::Vec2::from_array(bytemuck::cast([a, b]));
    bytemuck::cast(v.x.min(v.y))
}

/// Relies on f32::max, which returns the other operand when one is a NaN.
#[verifier::external_body]
pub fn f_max(a: u32, b: u32) -> (r: u32)
    ensures
        r == max_bits(a, b),
{
    let v = glam::Vec2::from_array(bytemuck::cast([a, b]));
    bytemuck::cast(v.x.max(v.y))
}

/// Relies on the single-precision `<=` comparison (false when either operand
/// is a NaN).
#[verifier::external_body]
pub fn f_le(a: u32, b: u32) -> (r: bool)
    ensures
        r == le_bits(a, b),
{
    let v = glam::Vec2::from_array(bytemuck::cast([a, b]));
    v.x <= v.y
}

/// Relies on the single-precision `<` comparison (false when either operand
/// is a NaN).
#[verifier::external_body]
pub fn f_lt(a: u32, b: u32) -> (r: bool)
    ensures
        r == lt_bits(a, b),
{
    let v = glam::Vec2::from_array(bytemuck::cast([a, b]));
    v.x < v.y
}

} // verus!
