//! Scalar arithmetic on IEEE-754 binary64 values.
//!
//! Verified code cannot hold a floating-point number, so every scalar of the
//! engine is carried as the 64-bit pattern of an IEEE-754 binary64 value.
//! The four arithmetic operations, the hyperbolic tangent and the conversion
//! from an integer are performed by outside soft-float code behind trusted
//! wrappers; each result is pinned to an uninterpreted name, so that every
//! matrix and network contract can state exactly which scalar computation
//! produced each cell.  Predicates that are plain bit logic (is a value NaN,
//! is it zero, is it positive) are defined and verified here directly.

use vstd::prelude::*;
use rustc_apfloat::Float;

verus! {

/// Bit pattern of +0.0.
pub const ZERO_BITS: u64 = 0;

/// Bit pattern of 1.0.
pub const ONE_BITS: u64 = 0x3FF0_0000_0000_0000;

/// Bit pattern of 0.5.
pub const HALF_BITS: u64 = 0x3FE0_0000_0000_0000;

/// Bit pattern of -1.0.
pub const NEG_ONE_BITS: u64 = 0xBFF0_0000_0000_0000;

/// Bit pattern of 2^-53, the scale of a 53-bit uniform random draw.
pub const UNIT_SCALE_BITS: u64 = 0x3CA0_0000_0000_0000;

/// The binary64 sum of the values encoded by `a` and `b`, rounded to
/// nearest, ties to even.
pub uninterp spec fn sum_bits(a: u64, b: u64) -> u64;

/// The binary64 difference `a - b`, rounded to nearest, ties to even.
pub uninterp spec fn diff_bits(a: u64, b: u64) -> u64;

/// The binary64 product `a * b`, rounded to nearest, ties to even.
pub uninterp spec fn prod_bits(a: u64, b: u64) -> u64;

/// The binary64 quotient `a / b`, rounded to nearest, ties to even.
pub uninterp spec fn quot_bits(a: u64, b: u64) -> u64;

/// The hyperbolic tangent of the value encoded by `x`, as the soft math
/// library computes it: a function of the bit pattern alone.
pub uninterp spec fn tanh_bits(x: u64) -> u64;

/// The binary64 value nearest to the integer `n`.
pub uninterp spec fn int_bits(n: u64) -> u64;

/// Relies on `rustc_apfloat::ieee::Double`'s `Add` impl: IEEE-754 binary64
/// addition, round to nearest, ties to even.
#[verifier::external_body]
pub fn scalar_add(a: u64, b: u64) -> (r: u64)
    ensures
        r == sum_bits(a, b),
{
    let x = rustc_apfloat::ieee::Double::from_bits(a as u128);
    let y = rustc_apfloat::ieee::Double::from_bits(b as u128);
    (x + y).value.to_bits() as u64
}

/// Relies on `rustc_apfloat::ieee::Double`'s `Sub` impl: IEEE-754 binary64
/// subtraction, round to nearest, ties to even.
#[verifier::external_body]
pub fn scalar_sub(a: u64, b: u64) -> (r: u64)
    ensures
        r == diff_bits(a, b),
{
    let x = rustc_apfloat::ieee::Double::from_bits(a as u128);
    let y = rustc_apfloat::ieee::Double::from_bits(b as u128);
    (x - y).value.to_bits() as u64
}

/// Relies on `rustc_apfloat::ieee::Double`'s `Mul` impl: IEEE-754 binary64
/// multiplication, round to nearest, ties to even.
#[verifier::external_body]
pub fn scalar_mul(a: u64, b: u64) -> (r: u64)
    ensures
        r == prod_bits(a, b),
{
    let x = rustc_apfloat::ieee::Double::from_bits(a as u128);
    let y = rustc_apfloat::ieee::Double::from_bits(b as u128);
    (x * y).value.to_bits() as u64
}

/// Relies on `rustc_apfloat::ieee::Double`'s `Div` impl: IEEE-754 binary64
/// division, round to nearest, ties to even.
#[verifier::external_body]
pub fn scalar_div(a: u64, b: u64) -> (r: u64)
    ensures
        r == quot_bits(a, b),
{
    let x = rustc_apfloat::ieee::Double::from_bits(a as u128);
    let y = rustc_apfloat::ieee::Double::from_bits(b as u128);
    (x / y).value.to_bits() as u64
}

/// Relies on `libm::tanh`: the hyperbolic tangent, a function of its
/// argument alone.  `bytemuck::cast` reinterprets the bit pattern on the way
/// in and out.
#[verifier::external_body]
pub fn scalar_tanh(x: u64) -> (r: u64)
    ensures
        r == tanh_bits(x),
{
    bytemuck::cast(libm::tanh(bytemuck::cast(x)))
}

/// Relies on `rustc_apfloat::Float::from_u128`: conversion of an unsigned
/// integer to the nearest binary64 value.
#[verifier::external_body]
pub fn scalar_from_int(n: u64) -> (r: u64)
    ensures
        r == int_bits(n),
{
    rustc_apfloat::ieee::Double::from_u128(n as u128).value.to_bits() as u64
}

/// A supplier of raw random machine words.  Callers that need
/// reproducibility inject their own seeded implementation; nothing is
/// promised of the drawn words.
pub trait RandomSource {
    fn next_u64(&mut self) -> u64;
}

/// Relies on `rand::random`: one uniformly distributed machine word from
/// the thread-local generator.  Nothing can be promised of a random value.
#[verifier::external_body]
fn draw_u64() -> u64 {
    rand::random()
}

/// The default source: the process's thread-local generator.
pub struct ThreadSource;

impl RandomSource for ThreadSource {
    fn next_u64(&mut self) -> u64 {
        draw_u64()
    }
}

/// Whether the bit pattern encodes a NaN: maximal exponent and a non-zero
/// fraction field.
pub open spec fn is_nan_bits(x: u64) -> bool {
    (x >> 52) & 0x7FF == 0x7FF && x & 0x000F_FFFF_FFFF_FFFF != 0
}

/// Whether the bit pattern encodes a zero of either sign.
pub open spec fn is_zero_bits(x: u64) -> bool {
    x & 0x7FFF_FFFF_FFFF_FFFF == 0
}

/// IEEE-754 equality of the encoded values: NaN equals nothing, the two
/// zeros equal each other, and every other value equals exactly its own bit
/// pattern.
pub open spec fn val_eq(a: u64, b: u64) -> bool {
    if is_nan_bits(a) || is_nan_bits(b) {
        false
    } else if is_zero_bits(a) && is_zero_bits(b) {
        true
    } else {
        a == b
    }
}

/// Whether the encoded value is strictly greater than zero: the sign bit is
/// clear and the value is neither a zero nor a NaN.
pub open spec fn gt_zero_bits(x: u64) -> bool {
    x >> 63 == 0 && !is_zero_bits(x) && !is_nan_bits(x)
}

/// IEEE-754 equality, computed on the bit patterns.
pub fn scalar_eq(a: u64, b: u64) -> (r: bool)
    ensures
        r == val_eq(a, b),
{
    let a_nan = (a >> 52) & 0x7FF == 0x7FF && a & 0x000F_FFFF_FFFF_FFFF != 0;
    let b_nan = (b >> 52) & 0x7FF == 0x7FF && b & 0x000F_FFFF_FFFF_FFFF != 0;
    if a_nan || b_nan {
        false
    } else if a & 0x7FFF_FFFF_FFFF_FFFF == 0 && b & 0x7FFF_FFFF_FFFF_FFFF == 0 {
        true
    } else {
        a == b
    }
}

/// Whether the encoded value is strictly greater than zero, computed on the
/// bit pattern.
pub fn scalar_gt_zero(x: u64) -> (r: bool)
    ensures
        r == gt_zero_bits(x),
{
    x >> 63 == 0 && x & 0x7FFF_FFFF_FFFF_FFFF != 0
        && !((x >> 52) & 0x7FF == 0x7FF && x & 0x000F_FFFF_FFFF_FFFF != 0)
}

} // verus!
