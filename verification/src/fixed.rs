//! Q48.16 fixed-point numbers: a signed 64-bit integer `raw` standing for
//! `raw / 65536`.
use vstd::prelude::*;
use vstd::arithmetic::div_mod::*;

verus! {

/// Number of fractional bits of a `Fixed`.
pub const FRAC_BITS: u32 = 16;

/// The raw value that stands for one: 2^16.
pub const FRAC_SCALE: i64 = 65536;

/// Entries of the sine table, one full period.
pub const TRIG_TABLE_SIZE: usize = 256;

/// Raw value of 2π: the `f64` constant τ times 2^16, truncated towards zero.
pub const TWO_PI_RAW: i64 = 411774;

/// Raw value of π/2: the `f64` constant π/2 times 2^16, truncated towards zero.
pub const HALF_PI_RAW: i64 = 102943;

/// A Q48.16 fixed-point number.
#[derive(Clone, Copy, Debug, PartialEq, Eq, PartialOrd, Ord, Structural)]
pub struct Fixed {
    pub raw: i64,
}

/// Absolute value of an integer.
pub open spec fn abs_int(x: int) -> int {
    if x < 0 { -x } else { x }
}

/// Division rounding towards zero, as Rust's integer `/` does.
pub open spec fn trunc_div(x: int, y: int) -> int {
    if (x >= 0) == (y > 0) {
        abs_int(x) / abs_int(y)
    } else {
        -(abs_int(x) / abs_int(y))
    }
}

/// `r` is the integer square root of `n`: the largest integer whose square is at most `n`.
pub open spec fn is_isqrt(r: int, n: int) -> bool {
    &&& 0 <= r
    &&& r * r <= n
    &&& n < (r + 1) * (r + 1)
}


/// Euclidean division by a negative divisor of a non-negative dividend
/// is the negated quotient by the divisor's magnitude.
proof fn lemma_ediv_neg_divisor(x: int, y: int)
    requires
        x >= 0,
        y < 0,
    ensures
        x / y == -(x / (-y)),
{
    let f = x / (-y);
    let r = x % (-y);
    lemma_fundamental_div_mod(x, -y);
    lemma_mod_bound(x, -y);
    let q = x / y;
    let s = x % y;
    lemma_fundamental_div_mod(x, y);
    assert(0 <= s < -y);
    assert(x == y * q + s);
    assert(x == y * (-f) + r) by (nonlinear_arith) requires x == (-y) * f + r;
    assert(q == -f) by (nonlinear_arith)
        requires
            x == y * q + s,
            x == y * (-f) + r,
            0 <= s < -y,
            0 <= r < -y,
            y < 0,
    {
        assert(y * (q + f) == r - s);
        if q + f >= 1 {
            assert(y * (q + f) <= y);
        } else if q + f <= -1 {
            assert(y * (q + f) >= -y);
        }
    }
}

/// One Newton step towards the square root of `n` from a positive guess never
/// falls below the integer square root: `m = (g + n / g) / 2` has `(m + 1)² > n`.
proof fn lemma_newton_step_stays_above(n: int, g: int)
    requires
        n >= 0,
        g >= 1,
    ensures
        ((g + n / g) / 2 + 1) * ((g + n / g) / 2 + 1) > n,
{
    let q = n / g;
    let m = (g + q) / 2;
    lemma_fundamental_div_mod(n, g);
    lemma_mod_bound(n, g);
    assert(n < g * (q + 1)) by (nonlinear_arith)
        requires
            n == g * q + n % g,
            n % g < g,
    ;
    assert(q >= 0) by {
        lemma_div_pos_is_pos(n, g);
    }
    assert(2 * (m + 1) >= g + q + 1);
    assert(4 * (m + 1) * (m + 1) >= 4 * g * (q + 1)) by (nonlinear_arith)
        requires
            2 * (m + 1) >= g + q + 1,
            g >= 1,
            q >= 0,
    {
        assert((g + q + 1) * (g + q + 1) - 4 * g * (q + 1) == (g - q - 1) * (g - q - 1));
        assert((g - q - 1) * (g - q - 1) >= 0);
        assert(2 * (m + 1) * (2 * (m + 1)) >= (g + q + 1) * (g + q + 1));
    }
    assert((m + 1) * (m + 1) > n) by (nonlinear_arith)
        requires
            4 * (m + 1) * (m + 1) >= 4 * g * (q + 1),
            n < g * (q + 1),
    ;
}

/// A Newton step from a guess whose square exceeds `n` strictly decreases the guess.
proof fn lemma_newton_step_decreases(n: int, g: int)
    requires
        n >= 0,
        g >= 1,
        g * g > n,
    ensures
        (g + n / g) / 2 < g,
{
    let q = n / g;
    lemma_fundamental_div_mod(n, g);
    lemma_mod_bound(n, g);
    assert(q < g) by (nonlinear_arith)
        requires
            n == g * q + n % g,
            n % g >= 0,
            g * g > n,
            g >= 1,
    {
        if q >= g {
            assert(g * q >= g * g);
        }
    }
}

impl Fixed {
    pub fn zero() -> (r: Self)
        ensures
            r.raw == 0,
    {
        Self { raw: 0 }
    }

    pub fn one() -> (r: Self)
        ensures
            r.raw == FRAC_SCALE,
    {
        Self { raw: FRAC_SCALE }
    }

    pub fn two() -> (r: Self)
        ensures
            r.raw == 2 * FRAC_SCALE,
    {
        Self { raw: 2 * FRAC_SCALE }
    }

    pub fn half() -> (r: Self)
        ensures
            r.raw == FRAC_SCALE / 2,
    {
        Self { raw: FRAC_SCALE / 2 }
    }

    pub fn from_raw(raw: i64) -> (r: Self)
        ensures
            r.raw == raw,
    {
        Self { raw }
    }

    /// The integer `v` as a fixed-point number.
    pub fn from_i32(v: i32) -> (r: Self)
        ensures
            r.raw == v * FRAC_SCALE,
    {
        Self { raw: (v as i64) * FRAC_SCALE }
    }

    /// Absolute value; `i64::MIN` has none.
    pub fn abs(self) -> (r: Self)
        requires
            self.raw != i64::MIN,
        ensures
            r.raw == abs_int(self.raw as int),
    {
        Self { raw: if self.raw < 0 { -self.raw } else { self.raw } }
    }


    /// Square root by Newton's method on `raw · 2^16`: the integer square root of
    /// that product, which is the square root rounded down; zero for `raw <= 0`.
    pub fn sqrt(self) -> (r: Self)
        ensures
            self.raw <= 0 ==> r.raw == 0,
            self.raw > 0 ==> is_isqrt(r.raw as int, self.raw * FRAC_SCALE),
    {
        if self.raw <= 0 {
            return Self::zero();
        }
        let val: i128 = (self.raw as i128) * (FRAC_SCALE as i128);
        let mut guess: i128 = val;
        let mut prev: i128 = val;
        assert((val + 1) * (val + 1) > val) by (nonlinear_arith)
            requires val >= 1;
        loop
            invariant_except_break
                val == self.raw * FRAC_SCALE,
                1 <= guess <= val,
                (guess + 1) * (guess + 1) > val,
            ensures
                prev * prev <= val,
                (prev + 1) * (prev + 1) > val,
                1 <= prev <= val,
                val == self.raw * FRAC_SCALE,
            decreases guess,
        {
            if guess == 0 {
                return Self::zero();
            }
            prev = guess;
            proof {
                lemma_newton_step_stays_above(val as int, guess as int);
                lemma_div_pos_is_pos(val as int, guess as int);
                lemma_div_is_ordered_by_denominator(val as int, 1, guess as int);
            }
            guess = (guess + val / guess) / 2;
            if guess >= prev {
                proof {
                    if prev * prev > val {
                        lemma_newton_step_decreases(val as int, prev as int);
                    }
                }
                break;
            }
            proof {
                assert((guess + 1) * (guess + 1) > val);
                if guess < 1 {
                    assert((guess + 1) * (guess + 1) <= 1) by (nonlinear_arith)
                        requires guess < 1, guess >= 0;
                }
            }
        }
        proof {
            assert(val < 0x8000_0000_0000_0000_0000);
            assert(prev < 0x100_0000_0000) by (nonlinear_arith)
                requires
                    prev * prev <= val,
                    val < 0x8000_0000_0000_0000_0000,
                    prev >= 1,
            {
                if prev >= 0x100_0000_0000 {
                    assert(prev * prev >= 0x100_0000_0000 * 0x100_0000_0000);
                }
            }
        }
        Self { raw: prev as i64 }
    }

    pub fn min(self, other: Self) -> (r: Self)
        ensures
            r == (if self.raw < other.raw { self } else { other }),
            r.raw <= self.raw && r.raw <= other.raw,
    {
        if self.raw < other.raw {
            self
        } else {
            other
        }
    }

    pub fn max(self, other: Self) -> (r: Self)
        ensures
            r == (if self.raw > other.raw { self } else { other }),
            r.raw >= self.raw && r.raw >= other.raw,
    {
        if self.raw > other.raw {
            self
        } else {
            other
        }
    }

    /// `self` raised to at least `lo`, then lowered to at most `hi`.
    pub fn clamp(self, lo: Self, hi: Self) -> (r: Self)
        ensures
            r.raw == vstd::math::min(vstd::math::max(self.raw as int, lo.raw as int), hi.raw as int),
            lo.raw <= hi.raw ==> lo.raw <= r.raw <= hi.raw,
            lo.raw <= self.raw <= hi.raw ==> r == self,
    {
        self.max(lo).min(hi)
    }
}

impl Fixed {
    pub fn add(self, rhs: Self) -> (r: Self)
        requires
            i64::MIN <= self.raw + rhs.raw <= i64::MAX,
        ensures
            r.raw == self.raw + rhs.raw,
    {
        Self { raw: self.raw + rhs.raw }
    }

    pub fn add_assign(&mut self, rhs: Self)
        requires
            i64::MIN <= old(self).raw + rhs.raw <= i64::MAX,
        ensures
            final(self).raw == old(self).raw + rhs.raw,
    {
        self.raw += rhs.raw;
    }

    pub fn sub(self, rhs: Self) -> (r: Self)
        requires
            i64::MIN <= self.raw - rhs.raw <= i64::MAX,
        ensures
            r.raw == self.raw - rhs.raw,
    {
        Self { raw: self.raw - rhs.raw }
    }

    pub fn sub_assign(&mut self, rhs: Self)
        requires
            i64::MIN <= old(self).raw - rhs.raw <= i64::MAX,
        ensures
            final(self).raw == old(self).raw - rhs.raw,
    {
        self.raw -= rhs.raw;
    }

    /// Product, rounded towards minus infinity; a product beyond the range of
    /// `i64` keeps its low 64 bits.
    pub fn mul(self, rhs: Self) -> (r: Self)
        ensures
            r.raw == ((self.raw * rhs.raw) / FRAC_SCALE as int) as i64,
    {
        Self { raw: Self::mul_raw(self.raw, rhs.raw) }
    }

    pub fn mul_assign(&mut self, rhs: Self)
        ensures
            final(self).raw == ((old(self).raw * rhs.raw) / FRAC_SCALE as int) as i64,
    {
        self.raw = Self::mul_raw(self.raw, rhs.raw);
    }

    fn mul_raw(a: i64, b: i64) -> (r: i64)
        ensures
            r == ((a * b) / FRAC_SCALE as int) as i64,
    {
        assert(-0x4000_0000_0000_0000_0000_0000_0000_0000 <= a * b <= 0x4000_0000_0000_0000_0000_0000_0000_0000)
            by (nonlinear_arith)
            requires
                -0x8000_0000_0000_0000 <= a < 0x8000_0000_0000_0000,
                -0x8000_0000_0000_0000 <= b < 0x8000_0000_0000_0000,
        {
            assert(vstd::math::abs(a as int) <= 0x8000_0000_0000_0000);
            assert(vstd::math::abs(b as int) <= 0x8000_0000_0000_0000);
            assert(vstd::math::abs(a as int) * vstd::math::abs(b as int) <= 0x8000_0000_0000_0000 * 0x8000_0000_0000_0000);
            if a >= 0 && b >= 0 {} else if a < 0 && b < 0 {} else {}
        }
        let p: i128 = a as i128 * b as i128;
        let shifted: i128 = p >> FRAC_BITS;
        assert(shifted == p / 65536) by (bit_vector)
            requires
                shifted == p >> 16u32,
        ;
        shifted as i64
    }

    /// Quotient, rounded towards zero; a quotient beyond the range of `i64`
    /// keeps its low 64 bits.
    pub fn div(self, rhs: Self) -> (r: Self)
        requires
            rhs.raw != 0,
        ensures
            r.raw == trunc_div(self.raw * FRAC_SCALE, rhs.raw as int) as i64,
    {
        let a: i64 = self.raw;
        let n: i128 = (a as i128) << FRAC_BITS;
        assert(n == a * 65536) by (bit_vector)
            requires
                n == (a as i128) << 16u32,
        ;
        let d: i128 = rhs.raw as i128;
        let q: i128 = n / d;
        proof {
            if n >= 0 {
                if d < 0 {
                    lemma_ediv_neg_divisor(n as int, d as int);
                }
            } else if d < 0 {
                lemma_ediv_neg_divisor(-n, d as int);
            }
            assert(q == trunc_div(n as int, d as int));
        }
        Self { raw: q as i64 }
    }

    /// Negation; `i64::MIN` has none.
    pub fn neg(self) -> (r: Self)
        requires
            self.raw != i64::MIN,
        ensures
            r.raw == -self.raw,
    {
        Self { raw: -self.raw }
    }
}

/// `sin(2πi/256)` scaled by 2^16 and truncated towards zero, for `i` in `0..256`.
pub const SIN_LUT: [i64; 256] = [
    0, 1608, 3215, 4821, 6423, 8022, 9616, 11204,
    12785, 14359, 15923, 17479, 19024, 20557, 22078, 23586,
    25079, 26557, 28020, 29465, 30893, 32302, 33692, 35061,
    36409, 37736, 39039, 40319, 41575, 42806, 44011, 45189,
    46340, 47464, 48558, 49624, 50660, 51665, 52639, 53581,
    54491, 55368, 56212, 57022, 57797, 58538, 59243, 59913,
    60547, 61144, 61705, 62228, 62714, 63162, 63571, 63943,
    64276, 64571, 64826, 65043, 65220, 65358, 65457, 65516,
    65536, 65516, 65457, 65358, 65220, 65043, 64826, 64571,
    64276, 63943, 63571, 63162, 62714, 62228, 61705, 61144,
    60547, 59913, 59243, 58538, 57797, 57022, 56212, 55368,
    54491, 53581, 52639, 51665, 50660, 49624, 48558, 47464,
    46340, 45189, 44011, 42806, 41575, 40319, 39039, 37736,
    36409, 35061, 33692, 32302, 30893, 29465, 28020, 26557,
    25079, 23586, 22078, 20557, 19024, 17479, 15923, 14359,
    12785, 11204, 9616, 8022, 6423, 4821, 3215, 1608,
    0, -1608, -3215, -4821, -6423, -8022, -9616, -11204,
    -12785, -14359, -15923, -17479, -19024, -20557, -22078, -23586,
    -25079, -26557, -28020, -29465, -30893, -32302, -33692, -35061,
    -36409, -37736, -39039, -40319, -41575, -42806, -44011, -45189,
    -46340, -47464, -48558, -49624, -50660, -51665, -52639, -53581,
    -54491, -55368, -56212, -57022, -57797, -58538, -59243, -59913,
    -60547, -61144, -61705, -62228, -62714, -63162, -63571, -63943,
    -64276, -64571, -64826, -65043, -65220, -65358, -65457, -65516,
    -65536, -65516, -65457, -65358, -65220, -65043, -64826, -64571,
    -64276, -63943, -63571, -63162, -62714, -62228, -61705, -61144,
    -60547, -59913, -59243, -58538, -57797, -57022, -56212, -55368,
    -54491, -53581, -52639, -51665, -50660, -49624, -48558, -47464,
    -46340, -45189, -44011, -42806, -41575, -40319, -39039, -37736,
    -36409, -35061, -33692, -32302, -30893, -29465, -28020, -26557,
    -25079, -23586, -22078, -20557, -19024, -17479, -15923, -14359,
    -12785, -11204, -9616, -8022, -6423, -4821, -3215, -1608,
];

/// Index into `SIN_LUT` of a raw angle: the angle reduced into `[0, 2π)`, in 256ths
/// of a turn, rounded down.
pub open spec fn sin_index(raw: int) -> int {
    (raw % (TWO_PI_RAW as int)) * (TRIG_TABLE_SIZE as int) / (TWO_PI_RAW as int)
}

/// Sine of a fixed-point angle in radians, read from the table at the angle's
/// position within the period.
pub fn fixed_sin(angle: Fixed) -> (r: Fixed)
    ensures
        0 <= sin_index(angle.raw as int) < 256,
        r.raw == SIN_LUT@[sin_index(angle.raw as int)],
{
    let two_pi_raw: i64 = TWO_PI_RAW;
    let mut a: i64 = angle.raw % two_pi_raw;
    if a < 0 {
        a += two_pi_raw;
    }
    proof {
        let x = angle.raw as int;
        let m = two_pi_raw as int;
        if x >= 0 {
            assert(a == x % m);
        } else {
            let f = (-x) / m;
            let rm = (-x) % m;
            lemma_fundamental_div_mod(-x, m);
            lemma_mod_bound(-x, m);
            if rm > 0 {
                assert(x == (-f - 1) * m + (m - rm)) by (nonlinear_arith)
                    requires -x == m * f + rm;
                lemma_fundamental_div_mod_converse(x, m, -f - 1, m - rm);
            } else {
                assert(x == (-f) * m + 0) by (nonlinear_arith)
                    requires -x == m * f + rm, rm == 0;
                lemma_fundamental_div_mod_converse(x, m, -f, 0);
            }
        }
        assert(0 <= a < m);
        lemma_div_is_ordered(a * 256, m * 256, m);
        lemma_div_by_multiple(256, m);
        lemma_div_pos_is_pos(a * 256, m);
    }
    let index: usize = ((a as i128 * TRIG_TABLE_SIZE as i128) / two_pi_raw as i128) as usize
        % TRIG_TABLE_SIZE;
    Fixed::from_raw(SIN_LUT[index])
}

/// Cosine as the sine a quarter turn further on.
pub fn fixed_cos(angle: Fixed) -> (r: Fixed)
    requires
        angle.raw + HALF_PI_RAW <= i64::MAX,
    ensures
        0 <= sin_index(angle.raw + HALF_PI_RAW) < 256,
        r.raw == SIN_LUT@[sin_index(angle.raw + HALF_PI_RAW)],
{
    fixed_sin(angle.add(Fixed::from_raw(HALF_PI_RAW)))
}

} // verus!

verus! {

/// The integer square root is unique: of a perfect square `s²` it is `s`.
pub proof fn lemma_isqrt_of_square(r: int, s: int)
    requires
        s >= 0,
        is_isqrt(r, s * s),
    ensures
        r == s,
{
    if r < s {
        assert((r + 1) * (r + 1) <= s * s) by (nonlinear_arith)
            requires 0 <= r, r + 1 <= s;
    } else if r > s {
        assert(r * r > s * s) by (nonlinear_arith)
            requires r >= s + 1, s >= 0;
    }
}

/// The square root of a whole square is exact: `sqrt(m²) = m` for whole `m`.
pub proof fn lemma_sqrt_whole_square(m: int, r: int)
    requires
        0 <= m,
        is_isqrt(r, (m * m * FRAC_SCALE) * FRAC_SCALE),
    ensures
        r == m * FRAC_SCALE,
{
    assert((m * m * FRAC_SCALE) * FRAC_SCALE == (m * FRAC_SCALE) * (m * FRAC_SCALE)) by (nonlinear_arith);
    lemma_isqrt_of_square(r, m * FRAC_SCALE);
}

/// Multiplying by one leaves a number unchanged.
pub proof fn lemma_mul_one(x: i64)
    ensures
        ((x * FRAC_SCALE) / FRAC_SCALE as int) as i64 == x,
{
    lemma_div_by_multiple_neg_or_pos(x as int);
}

proof fn lemma_div_by_multiple_neg_or_pos(x: int)
    ensures
        (x * 65536) / 65536 == x,
{
    lemma_fundamental_div_mod_converse(x * 65536, 65536, x, 0);
}

/// Dividing by one leaves a number unchanged.
pub proof fn lemma_div_one(x: i64)
    ensures
        trunc_div(x * FRAC_SCALE, FRAC_SCALE as int) as i64 == x,
{
    if x >= 0 {
        lemma_div_by_multiple_neg_or_pos(x as int);
    } else {
        lemma_div_by_multiple_neg_or_pos(-x);
    }
}

/// Sine is periodic: an angle a full turn further reads the same table entry.
pub proof fn lemma_sin_periodic(raw: int)
    ensures
        sin_index(raw + TWO_PI_RAW) == sin_index(raw),
{
    lemma_mod_add_multiples_vanish(raw, TWO_PI_RAW as int);
}

} // verus!
