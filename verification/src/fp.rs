//! Signed s32.32 fixed-point numbers, the arithmetic of the game.
//!
//! A value is held by its 64 raw bits (`bits / 2^32`). The arithmetic is the
//! `fixed` crate's `I32F32`, called through the small wrappers below; each
//! states the operation's result on the raw bits. The game is shipped as a
//! release build, where the crate's operators wrap on overflow, so the wrapping
//! forms are the ones called.
use vstd::prelude::*;
use ::fixed::types::I32F32;

verus! {

/// The raw bits of one: 2^32.
pub const ONE_BITS: i64 = 0x1_0000_0000;

/// An s32.32 fixed-point number, `bits / 2^32`.
#[derive(Clone, Copy, Debug, PartialEq, Eq, Structural)]
pub struct Fp {
    pub bits: i64,
}

/// The integer `v` as a fixed-point number (for `v` within the `i32` range).
pub open spec fn fp_int(v: int) -> Fp {
    Fp { bits: (v * ONE_BITS) as i64 }
}

/// A fixed-point number given by its raw bits.
pub open spec fn fp_bits(b: int) -> Fp {
    Fp { bits: b as i64 }
}

/// Division rounding towards zero, as Rust's integer `/` does.
pub open spec fn div_toward_zero(x: int, y: int) -> int {
    let ax = if x < 0 { -x } else { x };
    let ay = if y < 0 { -y } else { y };
    if (x >= 0) == (y > 0) {
        ax / ay
    } else {
        -(ax / ay)
    }
}

/// Sum, keeping the low 64 bits.
pub open spec fn fp_add(a: Fp, b: Fp) -> Fp {
    Fp { bits: (a.bits + b.bits) as i64 }
}

/// Difference, keeping the low 64 bits.
pub open spec fn fp_sub(a: Fp, b: Fp) -> Fp {
    Fp { bits: (a.bits - b.bits) as i64 }
}

/// Negation, keeping the low 64 bits.
pub open spec fn fp_neg(a: Fp) -> Fp {
    Fp { bits: (-a.bits) as i64 }
}

/// Absolute value, keeping the low 64 bits.
pub open spec fn fp_abs(a: Fp) -> Fp {
    if a.bits < 0 {
        fp_neg(a)
    } else {
        a
    }
}

/// Product: the raw product times 2^32, kept to 128 bits, then shifted right
/// by 64 bits and kept to 64 bits. Within range it is `a · b / 2^32` rounded down.
pub open spec fn fp_mul(a: Fp, b: Fp) -> Fp {
    let wide: i128 = (a.bits * b.bits * ONE_BITS) as i128;
    Fp { bits: (wide as int / 0x1_0000_0000_0000_0000) as i64 }
}

/// Quotient: `a · 2^32 / b` rounded towards zero, kept to 64 bits.
pub open spec fn fp_div(a: Fp, b: Fp) -> Fp {
    Fp { bits: div_toward_zero(a.bits * ONE_BITS, b.bits as int) as i64 }
}

/// The smaller of two numbers, the first on a tie.
pub open spec fn fp_min(a: Fp, b: Fp) -> Fp {
    if b.bits < a.bits {
        b
    } else {
        a
    }
}

/// `a` brought into `[lo, hi]`.
pub open spec fn fp_clamp(a: Fp, lo: Fp, hi: Fp) -> Fp {
    if a.bits < lo.bits {
        lo
    } else if a.bits > hi.bits {
        hi
    } else {
        a
    }
}


/// Integers in the `i32` range.
pub open spec fn small(v: int) -> bool {
    -0x8000_0000 <= v < 0x8000_0000
}

/// Sums of small integers are exact.
pub proof fn lemma_int_add(a: int, b: int)
    requires
        small(a),
        small(b),
        small(a + b),
    ensures
        fp_add(fp_int(a), fp_int(b)) == fp_int(a + b),
{
}

/// Differences of small integers are exact.
pub proof fn lemma_int_sub(a: int, b: int)
    requires
        small(a),
        small(b),
        small(a - b),
    ensures
        fp_sub(fp_int(a), fp_int(b)) == fp_int(a - b),
{
}

/// Products of small integers are exact.
pub proof fn lemma_int_mul(a: int, b: int)
    requires
        small(a),
        small(b),
        small(a * b),
    ensures
        fp_mul(fp_int(a), fp_int(b)) == fp_int(a * b),
{
    let p = (a * ONE_BITS) * (b * ONE_BITS) * ONE_BITS;
    assert(p == (a * b) * ONE_BITS * 0x1_0000_0000_0000_0000) by (nonlinear_arith)
        requires p == (a * ONE_BITS) * (b * ONE_BITS) * ONE_BITS;
    assert(-0x8000_0000 * ONE_BITS * 0x1_0000_0000_0000_0000 <= p < 0x8000_0000 * ONE_BITS * 0x1_0000_0000_0000_0000)
        by (nonlinear_arith)
        requires
            p == (a * b) * ONE_BITS * 0x1_0000_0000_0000_0000,
            small(a * b),
    ;
    vstd::arithmetic::div_mod::lemma_div_multiples_vanish(
        (a * b) * ONE_BITS,
        0x1_0000_0000_0000_0000,
    );
    assert((a * b) * ONE_BITS * 0x1_0000_0000_0000_0000 == 0x1_0000_0000_0000_0000 * ((a * b) * ONE_BITS))
        by (nonlinear_arith);
}

/// Quotients of small integers that divide exactly are exact.
pub proof fn lemma_int_div(a: int, b: int, q: int)
    requires
        small(a),
        0 < b,
        small(b),
        a >= 0,
        a == q * b,
    ensures
        fp_div(fp_int(a), fp_int(b)) == fp_int(q),
{
    let n = a * ONE_BITS * ONE_BITS;
    let d = b * ONE_BITS;
    assert(n == (q * ONE_BITS) * d) by (nonlinear_arith)
        requires n == a * ONE_BITS * ONE_BITS, d == b * ONE_BITS, a == q * b;
    assert(q >= 0) by (nonlinear_arith) requires a == q * b, a >= 0, b > 0;
    assert(small(q)) by (nonlinear_arith) requires a == q * b, a >= 0, b > 0, small(a);
    vstd::arithmetic::div_mod::lemma_div_by_multiple(q * ONE_BITS, d);
    assert(n >= 0) by (nonlinear_arith) requires n == (q * ONE_BITS) * d, q >= 0, d > 0;
}

impl Fp {
    /// `I32F32::from_num` on an `i32`: the integer itself, exactly.
    #[verifier::external_body]
    pub(crate) fn from_int(v: i32) -> (r: Fp)
        ensures
            r == fp_int(v as int),
    {
        Fp { bits: I32F32::from_num(v).to_bits() }
    }

    /// `I32F32::wrapping_add`: the sum of the raw bits, wrapping.
    #[verifier::external_body]
    pub(crate) fn wrapping_add(self, rhs: Fp) -> (r: Fp)
        ensures
            r == fp_add(self, rhs),
    {
        Fp { bits: I32F32::from_bits(self.bits).wrapping_add(I32F32::from_bits(rhs.bits)).to_bits() }
    }

    /// `I32F32::wrapping_sub`: the difference of the raw bits, wrapping.
    #[verifier::external_body]
    pub(crate) fn wrapping_sub(self, rhs: Fp) -> (r: Fp)
        ensures
            r == fp_sub(self, rhs),
    {
        Fp { bits: I32F32::from_bits(self.bits).wrapping_sub(I32F32::from_bits(rhs.bits)).to_bits() }
    }

    /// `I32F32::wrapping_neg`: the negated raw bits, wrapping.
    #[verifier::external_body]
    pub(crate) fn wrapping_neg(self) -> (r: Fp)
        ensures
            r == fp_neg(self),
    {
        Fp { bits: I32F32::from_bits(self.bits).wrapping_neg().to_bits() }
    }

    /// `I32F32::wrapping_abs`: the absolute value of the raw bits, wrapping.
    #[verifier::external_body]
    pub(crate) fn wrapping_abs(self) -> (r: Fp)
        ensures
            r == fp_abs(self),
    {
        Fp { bits: I32F32::from_bits(self.bits).wrapping_abs().to_bits() }
    }

    /// `I32F32::wrapping_mul`: the 128-bit product of the raw bits with the
    /// right operand shifted left by 32, shifted right by 64, wrapping.
    #[verifier::external_body]
    pub(crate) fn wrapping_mul(self, rhs: Fp) -> (r: Fp)
        ensures
            r == fp_mul(self, rhs),
    {
        Fp { bits: I32F32::from_bits(self.bits).wrapping_mul(I32F32::from_bits(rhs.bits)).to_bits() }
    }

    /// `I32F32::wrapping_div`: the left raw bits shifted left by 32, divided by
    /// the right raw bits rounding towards zero, wrapping. It panics on a zero
    /// divisor, which `requires` leaves out.
    #[verifier::external_body]
    pub(crate) fn wrapping_div(self, rhs: Fp) -> (r: Fp)
        requires
            rhs.bits != 0,
        ensures
            r == fp_div(self, rhs),
    {
        Fp { bits: I32F32::from_bits(self.bits).wrapping_div(I32F32::from_bits(rhs.bits)).to_bits() }
    }

    /// The smaller of two numbers, as `Ord::min` picks it.
    pub fn min(self, other: Fp) -> (r: Fp)
        ensures
            r == fp_min(self, other),
    {
        if other.bits < self.bits {
            other
        } else {
            self
        }
    }

    /// `self` brought into `[lo, hi]`, as `Ord::clamp` does; that panics when
    /// `lo > hi`, which `requires` leaves out.
    pub fn clamp(self, lo: Fp, hi: Fp) -> (r: Fp)
        requires
            lo.bits <= hi.bits,
        ensures
            r == fp_clamp(self, lo, hi),
            lo.bits <= r.bits <= hi.bits,
    {
        if self.bits < lo.bits {
            lo
        } else if self.bits > hi.bits {
            hi
        } else {
            self
        }
    }
}

} // verus!
