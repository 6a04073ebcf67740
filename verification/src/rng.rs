//! The game's pseudo-random numbers: a hash of a seed, as a fraction in `[0, 1)`.
use vstd::prelude::*;
use vstd::arithmetic::div_mod::*;
use crate::fp::{Fp, fp_div, fp_int, ONE_BITS};

verus! {

/// The seed scrambled by one linear-congruential step and three xor-shifts.
pub open spec fn prand_mix(seed: u64) -> u64 {
    let v0 = vstd::wrapping::u64_specs::wrapping_add(
        vstd::wrapping::u64_specs::wrapping_mul(seed, 6364136223846793005),
        1442695040888963407,
    );
    let v1 = v0 ^ (v0 >> 22u64);
    let v2 = v1 ^ (v1 << 13u64);
    v2 ^ (v2 >> 8u64)
}

/// `(mix(seed) mod 10000) / 10000` in fixed point.
pub open spec fn prand_spec(seed: u64) -> Fp {
    fp_div(fp_int((prand_mix(seed) % 10000) as int), fp_int(10000))
}

/// A pseudo-random number in `[0, 1)` determined by `seed`.
pub fn prand(seed: u64) -> (r: Fp)
    ensures
        r == prand_spec(seed),
        0 <= r.bits < ONE_BITS,
{
    let mut v: u64 = seed.wrapping_mul(6364136223846793005).wrapping_add(1442695040888963407);
    v ^= v >> 22;
    v ^= v << 13;
    v ^= v >> 8;
    let k: u64 = v % 10000;
    let numerator = Fp::from_int(k as i32);
    let denominator = Fp::from_int(10000);
    let r = numerator.wrapping_div(denominator);
    proof {
        lemma_prand_fraction(k as int);
    }
    r
}

/// `k / 10000` for `k` in `0..10000` lies in `[0, 1)`.
proof fn lemma_prand_fraction(k: int)
    requires
        0 <= k < 10000,
    ensures
        0 <= fp_div(fp_int(k), fp_int(10000)).bits < ONE_BITS,
{
    let x = k * ONE_BITS * ONE_BITS;
    let z = 10000 * ONE_BITS;
    assert(x < ONE_BITS * z) by (nonlinear_arith)
        requires x == k * ONE_BITS * ONE_BITS, z == 10000 * ONE_BITS, k < 10000;
    assert(x >= 0) by (nonlinear_arith)
        requires x == k * ONE_BITS * ONE_BITS, k >= 0;
    lemma_div_by_multiple_is_strongly_ordered(x, ONE_BITS * z, ONE_BITS as int, z);
    lemma_div_by_multiple(ONE_BITS as int, z);
    lemma_div_pos_is_pos(x, z);
    assert(fp_int(k).bits == k * ONE_BITS);
}

} // verus!

verus! {

/// Every pseudo-random number lies in `[0, 1)`.
pub proof fn lemma_prand_range(seed: u64)
    ensures
        0 <= prand_spec(seed).bits < ONE_BITS,
{
    lemma_prand_fraction((prand_mix(seed) % 10000) as int);
}

} // verus!
