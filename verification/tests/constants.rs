use fixed::types::I32F32;
use rust_breakout::consts::{
    brick_offset_left, canvas_height, canvas_width, fp_frac_pi_2, fp_frac_pi_3, fp_frac_pi_4,
    fp_half, fp_tau, paddle_y, FRAC_PI_2_BITS, FRAC_PI_3_BITS, FRAC_PI_4_BITS, HALF_BITS,
    POINT_SEVEN_BITS, POINT_SIX_BITS, TAU_BITS, TWO_AND_HALF_BITS,
};

fn bits(v: f64) -> i64 {
    I32F32::from_num(v).to_bits()
}

#[test]
fn fractional_constants_are_rounded_floats() {
    assert_eq!(HALF_BITS, bits(0.5));
    assert_eq!(POINT_SEVEN_BITS, bits(0.7));
    assert_eq!(POINT_SIX_BITS, bits(0.6));
    assert_eq!(TWO_AND_HALF_BITS, bits(2.5));
    assert_eq!(TAU_BITS, bits(std::f64::consts::TAU));
    assert_eq!(FRAC_PI_2_BITS, bits(std::f64::consts::FRAC_PI_2));
    assert_eq!(FRAC_PI_3_BITS, bits(std::f64::consts::FRAC_PI_3));
    assert_eq!(FRAC_PI_4_BITS, bits(std::f64::consts::FRAC_PI_4));
    assert_eq!(fp_half().bits, HALF_BITS);
    assert_eq!(fp_tau().bits, TAU_BITS);
    assert_eq!(fp_frac_pi_2().bits, FRAC_PI_2_BITS);
    assert_eq!(fp_frac_pi_3().bits, FRAC_PI_3_BITS);
    assert_eq!(fp_frac_pi_4().bits, FRAC_PI_4_BITS);
}

#[test]
fn derived_dimensions() {
    assert_eq!(canvas_width().bits, 800 << 32);
    assert_eq!(canvas_height().bits, 600 << 32);
    assert_eq!(paddle_y().bits, 560 << 32);
    assert_eq!(brick_offset_left().bits, 19 << 32);
}
