use rust_breakout::fixed::{fixed_cos, fixed_sin, Fixed, FRAC_SCALE, HALF_PI_RAW, SIN_LUT, TWO_PI_RAW};

#[test]
fn from_i32_scales_by_two_to_the_sixteen() {
    assert_eq!(Fixed::from_i32(3).raw, 3 * 65536);
    assert_eq!(Fixed::from_i32(-2).raw, -131072);
    assert_eq!(Fixed::from_raw(12345).raw, 12345);
    assert_eq!(FRAC_SCALE, 65536);
}

#[test]
fn named_constants() {
    assert_eq!(Fixed::zero().raw, 0);
    assert_eq!(Fixed::one().raw, 65536);
    assert_eq!(Fixed::two().raw, 131072);
    assert_eq!(Fixed::half().raw, 32768);
}

#[test]
fn abs_min_max_clamp() {
    assert_eq!(Fixed::from_i32(-5).abs(), Fixed::from_i32(5));
    assert_eq!(Fixed::from_i32(5).abs(), Fixed::from_i32(5));
    let a = Fixed::from_i32(1);
    let b = Fixed::from_i32(2);
    assert_eq!(a.min(b), a);
    assert_eq!(a.max(b), b);
    assert_eq!(Fixed::from_i32(7).clamp(a, b), b);
    assert_eq!(Fixed::from_i32(-7).clamp(a, b), a);
    assert_eq!(Fixed::from_raw(70000).clamp(a, b).raw, 70000);
}

#[test]
fn add_sub_neg() {
    let a = Fixed::from_i32(3);
    let b = Fixed::from_raw(32768);
    assert_eq!(a.add(b).raw, 3 * 65536 + 32768);
    assert_eq!(a.sub(b).raw, 3 * 65536 - 32768);
    assert_eq!(a.neg().raw, -3 * 65536);
    let mut c = a;
    c.add_assign(b);
    assert_eq!(c.raw, 229376);
    c.sub_assign(b);
    assert_eq!(c, a);
}

#[test]
fn mul_rounds_down() {
    let three = Fixed::from_i32(3);
    let one_and_half = Fixed::from_raw(98304);
    assert_eq!(three.mul(one_and_half).raw, 4 * 65536 + 32768);
    // -1/65536 times 1/65536 is a tiny negative number: rounded down to -1/65536.
    assert_eq!(Fixed::from_raw(-1).mul(Fixed::from_raw(1)).raw, -1);
    assert_eq!(Fixed::from_raw(1).mul(Fixed::from_raw(1)).raw, 0);
    let mut m = three;
    m.mul_assign(Fixed::from_i32(-2));
    assert_eq!(m.raw, -6 * 65536);
    assert_eq!(three.mul(Fixed::one()), three);
}

#[test]
fn div_rounds_toward_zero() {
    assert_eq!(Fixed::from_i32(-7).div(Fixed::from_i32(2)).raw, -229376);
    assert_eq!(Fixed::from_raw(-1).div(Fixed::from_i32(2)).raw, 0);
    assert_eq!(Fixed::from_raw(3).div(Fixed::from_i32(-2)).raw, -1);
    assert_eq!(Fixed::from_i32(1).div(Fixed::from_i32(3)).raw, 21845);
    assert_eq!(Fixed::from_i32(9).div(Fixed::one()), Fixed::from_i32(9));
}

#[test]
fn sqrt_is_rounded_down_root() {
    assert_eq!(Fixed::from_i32(4).sqrt(), Fixed::from_i32(2));
    assert_eq!(Fixed::from_i32(81).sqrt(), Fixed::from_i32(9));
    // sqrt(2) · 65536 = 92681.9...
    assert_eq!(Fixed::from_i32(2).sqrt().raw, 92681);
    assert_eq!(Fixed::from_raw(1).sqrt().raw, 256);
    assert_eq!(Fixed::zero().sqrt().raw, 0);
    assert_eq!(Fixed::from_i32(-9).sqrt().raw, 0);
    let big = Fixed::from_raw(i64::MAX).sqrt().raw as i128;
    let val = (i64::MAX as i128) * 65536;
    assert!(big * big <= val && (big + 1) * (big + 1) > val);
}

#[test]
fn sine_table_matches_float_sine() {
    for i in 0..256usize {
        let angle = 2.0 * std::f64::consts::PI * (i as f64) / 256.0;
        assert_eq!(SIN_LUT[i], (angle.sin() * 65536.0) as i64, "entry {}", i);
    }
    assert_eq!(TWO_PI_RAW, (std::f64::consts::TAU * 65536.0) as i64);
    assert_eq!(HALF_PI_RAW, (std::f64::consts::FRAC_PI_2 * 65536.0) as i64);
}

#[test]
fn sine_reads_the_table() {
    assert_eq!(fixed_sin(Fixed::zero()).raw, 0);
    // a quarter turn falls just short of entry 64
    assert_eq!(fixed_sin(Fixed::from_raw(HALF_PI_RAW)).raw, SIN_LUT[63]);
    assert_eq!(fixed_sin(Fixed::from_raw(HALF_PI_RAW)).raw, 65516);
    // a tiny negative angle wraps to the end of the period
    assert_eq!(fixed_sin(Fixed::from_raw(-1)).raw, -1608);
    // one full turn further reads the same entry
    let a = Fixed::from_raw(123456);
    assert_eq!(fixed_sin(a), fixed_sin(Fixed::from_raw(123456 + TWO_PI_RAW)));
}

#[test]
fn cosine_is_shifted_sine() {
    assert_eq!(fixed_cos(Fixed::zero()).raw, 65516);
    let a = Fixed::from_raw(50000);
    assert_eq!(fixed_cos(a), fixed_sin(Fixed::from_raw(50000 + HALF_PI_RAW)));
}
