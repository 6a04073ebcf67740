//! The game's dimensions, speeds and angles, as s32.32 numbers.
//!
//! Constants written with a fractional part are given by their raw bits: the
//! `f64` value times 2^32, rounded to the nearest (ties to even), as
//! `I32F32::from_num` converts it.
use vstd::prelude::*;
use crate::fp::{Fp, fp_int, fp_bits, ONE_BITS};

verus! {

pub const BALL_TRAIL_LENGTH: usize = 12;
pub const BRICK_ROWS: usize = 6;
pub const BRICK_COLS: usize = 12;
pub const MAX_LIVES: u32 = 3;
pub const MAX_PARTICLES: usize = 500;

/// Raw bits of 0.5.
pub const HALF_BITS: i64 = 0x8000_0000;
/// Raw bits of 0.7.
pub const POINT_SEVEN_BITS: i64 = 3006477107;
/// Raw bits of 0.6.
pub const POINT_SIX_BITS: i64 = 2576980378;
/// Raw bits of 2.5.
pub const TWO_AND_HALF_BITS: i64 = 10737418240;
/// Raw bits of τ = 2π.
pub const TAU_BITS: i64 = 26986075409;
/// Raw bits of π/2.
pub const FRAC_PI_2_BITS: i64 = 6746518852;
/// Raw bits of π/3.
pub const FRAC_PI_3_BITS: i64 = 4497679235;
/// Raw bits of π/4.
pub const FRAC_PI_4_BITS: i64 = 3373259426;

pub fn canvas_width() -> (r: Fp)
    ensures
        r == fp_int(800),
{
    Fp::from_int(800)
}

pub fn canvas_height() -> (r: Fp)
    ensures
        r == fp_int(600),
{
    Fp::from_int(600)
}

pub fn paddle_width() -> (r: Fp)
    ensures
        r == fp_int(120),
{
    Fp::from_int(120)
}

pub fn paddle_height() -> (r: Fp)
    ensures
        r == fp_int(14),
{
    Fp::from_int(14)
}

/// The paddle's top edge: 40 above the bottom of the canvas.
pub fn paddle_y() -> (r: Fp)
    ensures
        r == fp_int(560),
{
    canvas_height().wrapping_sub(Fp::from_int(40))
}

pub fn paddle_speed() -> (r: Fp)
    ensures
        r == fp_int(600),
{
    Fp::from_int(600)
}

pub fn ball_radius() -> (r: Fp)
    ensures
        r == fp_int(8),
{
    Fp::from_int(8)
}

pub fn ball_initial_speed() -> (r: Fp)
    ensures
        r == fp_int(350),
{
    Fp::from_int(350)
}

pub fn ball_speed_increment() -> (r: Fp)
    ensures
        r == fp_int(8),
{
    Fp::from_int(8)
}

pub fn ball_max_speed() -> (r: Fp)
    ensures
        r == fp_int(700),
{
    Fp::from_int(700)
}

pub fn brick_width() -> (r: Fp)
    ensures
        r == fp_int(58),
{
    Fp::from_int(58)
}

pub fn brick_height() -> (r: Fp)
    ensures
        r == fp_int(22),
{
    Fp::from_int(22)
}

pub fn brick_padding() -> (r: Fp)
    ensures
        r == fp_int(6),
{
    Fp::from_int(6)
}

pub fn brick_offset_top() -> (r: Fp)
    ensures
        r == fp_int(60),
{
    Fp::from_int(60)
}

/// Left margin that centres the columns of bricks: `(800 - (12 · 64 - 6)) / 2 = 19`.
pub fn brick_offset_left() -> (r: Fp)
    ensures
        r == fp_int(19),
{
    let step = brick_width().wrapping_add(brick_padding());
    assert(step == fp_int(64));
    let span = Fp::from_int(BRICK_COLS as i32).wrapping_mul(step);
    assert(12 * ONE_BITS * (64 * ONE_BITS) * ONE_BITS == 768 * ONE_BITS * 0x1_0000_0000_0000_0000);
    assert(span == fp_int(768));
    let total = span.wrapping_sub(brick_padding());
    let free = canvas_width().wrapping_sub(total);
    assert(free == fp_int(38));
    let r = free.wrapping_div(Fp::from_int(2));
    assert((38 * ONE_BITS * ONE_BITS) / (2 * ONE_BITS) == 19 * ONE_BITS);
    r
}

pub fn fp_zero() -> (r: Fp)
    ensures
        r == fp_int(0),
{
    Fp::from_int(0)
}

pub fn fp_one() -> (r: Fp)
    ensures
        r == fp_int(1),
{
    Fp::from_int(1)
}

pub fn fp_two() -> (r: Fp)
    ensures
        r == fp_int(2),
{
    Fp::from_int(2)
}

pub fn fp_half() -> (r: Fp)
    ensures
        r == fp_bits(HALF_BITS as int),
{
    Fp { bits: HALF_BITS }
}

pub fn fp_tau() -> (r: Fp)
    ensures
        r == fp_bits(TAU_BITS as int),
{
    Fp { bits: TAU_BITS }
}

pub fn fp_frac_pi_2() -> (r: Fp)
    ensures
        r == fp_bits(FRAC_PI_2_BITS as int),
{
    Fp { bits: FRAC_PI_2_BITS }
}

pub fn fp_frac_pi_3() -> (r: Fp)
    ensures
        r == fp_bits(FRAC_PI_3_BITS as int),
{
    Fp { bits: FRAC_PI_3_BITS }
}

pub fn fp_frac_pi_4() -> (r: Fp)
    ensures
        r == fp_bits(FRAC_PI_4_BITS as int),
{
    Fp { bits: FRAC_PI_4_BITS }
}

} // verus!
