//! Sine, cosine and square root of s32.32 numbers, computed by the `cordic`
//! crate. Their results are named, not stated: they are functions of the
//! argument alone.
use vstd::prelude::*;
use ::fixed::types::I32F32;
use crate::fp::Fp;

verus! {

/// Raw bits of `cordic::sin` applied to the number with raw bits `x`.
pub uninterp spec fn cordic_sin(x: i64) -> i64;

/// Raw bits of `cordic::cos` applied to the number with raw bits `x`.
pub uninterp spec fn cordic_cos(x: i64) -> i64;

/// Raw bits of `cordic::sqrt` applied to the number with raw bits `x`.
pub uninterp spec fn cordic_sqrt(x: i64) -> i64;

/// Largest raw value that `sqrt` accepts, exclusive: 2^30 as an s32.32 number.
/// Up to it the crate's squarings of its trial roots stay within range.
pub const SQRT_BOUND_BITS: i64 = 0x4000_0000_0000_0000;

/// `cordic::sin`: CORDIC rotation after reducing the angle into `[-π/2, π/2]`.
/// Only its naming is claimed; it terminates and does not overflow for every angle.
#[verifier::external_body]
pub(crate) fn sin(angle: Fp) -> (r: Fp)
    ensures
        r.bits == cordic_sin(angle.bits),
{
    Fp { bits: cordic::sin(I32F32::from_bits(angle.bits)).to_bits() }
}

/// `cordic::cos`: the cosine half of the same rotation as `sin`.
#[verifier::external_body]
pub(crate) fn cos(angle: Fp) -> (r: Fp)
    ensures
        r.bits == cordic_cos(angle.bits),
{
    Fp { bits: cordic::cos(I32F32::from_bits(angle.bits)).to_bits() }
}

/// `cordic::sqrt`: a bit-by-bit square root. It returns zero and one
/// unchanged; for a positive input it starts from a positive power of two and
/// only adds to it, so its result is positive. A negative input makes its
/// search loop forever and an input of 2^30 or more overflows its squarings,
/// which `requires` leaves out.
#[verifier::external_body]
pub(crate) fn sqrt(x: Fp) -> (r: Fp)
    requires
        0 <= x.bits < SQRT_BOUND_BITS,
    ensures
        r.bits == cordic_sqrt(x.bits),
        x.bits == 0 ==> r.bits == 0,
        x.bits > 0 ==> r.bits > 0,
{
    Fp { bits: cordic::sqrt(I32F32::from_bits(x.bits)).to_bits() }
}

} // verus!
