//! Unbiased reduction of raw 64-bit draws to a bounded range.
//!
//! A raw draw `x` and a range size `s` give the 128-bit product `x * s`. Its
//! high half lies in `[0, s)`; the draw is rejected, and another one taken,
//! when the low half is below `2^64 mod s`. What is left maps exactly
//! `floor(2^64 / s)` raw values onto each result, so no result is favoured.
use vstd::prelude::*;

use crate::generator::GeneratorCore;
use crate::wyrand::two_pow_64;

verus! {

/// The number of raw values that are rejected for range size `s`: `2^64 mod s`.
pub open spec fn threshold(s: int) -> int
    recommends
        s > 0,
{
    two_pow_64() % s
}

/// The low half of the product `x * s`.
pub open spec fn low_half(x: u64, s: int) -> int {
    (x as int * s) % two_pow_64()
}

/// The high half of the product `x * s`: the candidate result in `[0, s)`.
pub open spec fn scaled(x: u64, s: int) -> int {
    (x as int * s) / two_pow_64()
}

/// Whether the raw draw `x` is kept for range size `s`.
pub open spec fn accepts(x: u64, s: int) -> bool {
    low_half(x, s) >= threshold(s)
}

/// Draw from `g` until a draw is kept for range size `s`, trying at most `fuel`
/// draws; the result is the generator after the last draw and `min` plus the
/// kept candidate, or `min` when all `fuel` draws were rejected.
pub open spec fn reduce_run<R: GeneratorCore>(g: R, min: u64, s: u64, fuel: nat) -> (R, u64)
    decreases fuel,
{
    if fuel == 0 {
        (g, min)
    } else if accepts(g.spec_output(), s as int) {
        (g.spec_next(), (min + scaled(g.spec_output(), s as int)) as u64)
    } else {
        reduce_run(g.spec_next(), min, s, (fuel - 1) as nat)
    }
}

/// The generator and the result after a bounded draw in `[min, max)` from `g`.
///
/// At most `2^64` draws are tried. For a generator whose state repeats with
/// that period (such as WyRand), a longer run would only repeat rejected draws
/// forever, so the bound turns a hang into the fixed result `min`.
pub open spec fn reduced<R: GeneratorCore>(g: R, min: u64, max: u64) -> (R, u64) {
    if max <= min {
        (g, min)
    } else {
        reduce_run(g, min, (max - min) as u64, two_pow_64() as nat)
    }
}

proof fn lemma_scaled_below(x: u64, s: int)
    requires
        s > 0,
    ensures
        0 <= scaled(x, s) < s,
        0 <= low_half(x, s) < two_pow_64(),
{
    assert(0 <= x as int * s < two_pow_64() * s) by (nonlinear_arith)
        requires
            s > 0,
            0 <= x < two_pow_64(),
    ;
    assert(scaled(x, s) < s) by (nonlinear_arith)
        requires
            0 <= x as int * s < two_pow_64() * s,
            scaled(x, s) == (x as int * s) / two_pow_64(),
            two_pow_64() > 0,
    ;
}

proof fn lemma_reduce_run_in_range<R: GeneratorCore>(g: R, min: u64, s: u64, fuel: nat)
    requires
        s > 0,
        min + s <= u64::MAX + 1,
    ensures
        min <= reduce_run(g, min, s, fuel).1 < min + s,
    decreases fuel,
{
    if fuel > 0 {
        lemma_scaled_below(g.spec_output(), s as int);
        if !accepts(g.spec_output(), s as int) {
            lemma_reduce_run_in_range(g.spec_next(), min, s, (fuel - 1) as nat);
        }
    }
}

/// Draw a value uniformly from `[min, max)` by widening multiplication and
/// rejection. When `max <= min` (which includes `max == 0`) the result is `min`
/// and the generator is left as it was.
pub fn reduce_range<R: GeneratorCore>(rng: &mut R, min: u64, max: u64) -> (r: u64)
    ensures
        (*final(rng), r) == reduced(*old(rng), min, max),
        min < max ==> min <= r < max,
        max <= min ==> r == min && *final(rng) == *old(rng),
{
    if max <= min {
        return min;
    }
    let s = max - min;
    let t = 0u64.wrapping_sub(s) % s;
    proof {
        assert(t == threshold(s as int)) by (nonlinear_arith)
            requires
                t == (two_pow_64() - s) % (s as int),
                0 < s < two_pow_64(),
        {
            vstd::arithmetic::div_mod::lemma_mod_sub_multiples_vanish(two_pow_64(), s as int);
        }
        lemma_reduce_run_in_range(*rng, min, s, two_pow_64() as nat);
    }
    let ghost goal = reduced(*old(rng), min, max);
    let mut left: u64 = u64::MAX;
    loop
        invariant
            s == max - min,
            0 < s,
            t == threshold(s as int),
            reduce_run(*rng, min, s, (left + 1) as nat) == goal,
            goal == reduced(*old(rng), min, max),
            min < max,
        decreases left,
    {
        let ghost g = *rng;
        let x = rng.rand();
        proof {
            lemma_scaled_below(x, s as int);
            assert(x as int * s as int <= 0xFFFF_FFFF_FFFF_FFFF * 0xFFFF_FFFF_FFFF_FFFF) by (nonlinear_arith)
                requires x <= 0xFFFF_FFFF_FFFF_FFFFu64, s <= 0xFFFF_FFFF_FFFF_FFFFu64;
        }
        let m: u128 = (x as u128) * (s as u128);
        let lo = #[verifier::truncate] (m as u64);
        let hi = #[verifier::truncate] ((m >> 64u32) as u64);
        proof {
            assert((m >> 64u32) as u64 == m / 0x1_0000_0000_0000_0000u128) by (bit_vector);
            assert(m as u64 == m % 0x1_0000_0000_0000_0000u128) by (bit_vector);
            lemma_reduce_run_in_range(g, min, s, (left + 1) as nat);
            assert(lo == low_half(x, s as int));
            assert(hi == scaled(x, s as int));
            assert(accepts(x, s as int) == (lo >= t));
        }
        if lo >= t {
            return min + hi;
        }
        if left == 0 {
            assert(reduce_run(*rng, min, s, 0) == (*rng, min));
            return min;
        }
        left = left - 1;
    }
}

/// The first raw value that is kept with candidate `y` for range size `s`:
/// the least `x` with `x * s >= y * 2^64 + (2^64 mod s)`.
pub open spec fn first_kept(y: int, s: int) -> int {
    (y * two_pow_64() + threshold(s) + s - 1) / s
}

proof fn lemma_ceil_div(a: int, s: int, z: int)
    requires
        s > 0,
        a >= 0,
    ensures
        z * s >= a <==> z >= (a + s - 1) / s,
{
    let b = (a + s - 1) / s;
    vstd::arithmetic::div_mod::lemma_fundamental_div_mod(a + s - 1, s);
    let r = (a + s - 1) % s;
    assert(0 <= r < s);
    assert((b - 1) * s < a <= b * s) by (nonlinear_arith)
        requires
            a + s - 1 == s * b + r,
            0 <= r < s,
    ;
    if z >= b {
        assert(z * s >= b * s) by (nonlinear_arith)
            requires
                z >= b,
                s > 0,
        ;
    } else {
        assert(z * s <= (b - 1) * s) by (nonlinear_arith)
            requires
                z <= b - 1,
                s > 0,
        ;
    }
}

/// The reduction is unbiased: for range size `s`, the raw draws that are kept
/// and give candidate `y` form one run of exactly `2^64 / s` consecutive values,
/// the same count for every `y` in `[0, s)`.
pub proof fn lemma_uniform_preimages(s: int, y: int, x: u64)
    requires
        0 < s < two_pow_64(),
        0 <= y < s,
    ensures
        accepts(x, s) && scaled(x, s) == y <==> first_kept(y, s) <= x < first_kept(y, s) + two_pow_64()
            / s,
{
    let m = two_pow_64();
    let t = threshold(s);
    let q = m / s;
    let p = x as int * s;
    vstd::arithmetic::div_mod::lemma_fundamental_div_mod(m, s);
    vstd::arithmetic::div_mod::lemma_fundamental_div_mod(p, m);
    assert(p >= 0) by (nonlinear_arith)
        requires
            p == x as int * s,
            x >= 0,
            s > 0,
    ;
    let a = y * m + t;
    assert(a >= 0) by (nonlinear_arith)
        requires
            a == y * m + t,
            y >= 0,
            m > 0,
            t >= 0,
    ;
    // Kept with candidate y exactly when y * 2^64 + t <= p < (y + 1) * 2^64.
    assert(accepts(x, s) && scaled(x, s) == y <==> a <= p < (y + 1) * m) by (nonlinear_arith)
        requires
            p == m * (p / m) + p % m,
            0 <= p % m < m,
            scaled(x, s) == p / m,
            low_half(x, s) == p % m,
            a == y * m + t,
            0 <= t < m,
            accepts(x, s) == (p % m >= t),
    ;
    assert((y + 1) * m == a + q * s) by (nonlinear_arith)
        requires
            m == s * q + t,
            a == y * m + t,
    ;
    lemma_ceil_div(a, s, x as int);
    lemma_ceil_div(a, s, x as int - q);
    assert((x as int - q) * s == p - q * s) by (nonlinear_arith)
        requires
            p == x as int * s,
    ;
}

/// Termination at the extreme range sizes: with a single value, or any power
/// of two below 2^64, no draw is ever rejected; with the largest range,
/// `2^64 - 1` values, only the raw value 0 is rejected.
pub proof fn lemma_rejection_at_extremes(x: u64, e: nat)
    requires
        e < 64,
    ensures
        accepts(x, 1),
        accepts(x, vstd::arithmetic::power2::pow2(e) as int),
        accepts(x, two_pow_64() - 1) <==> x != 0,
{
    let m = two_pow_64();
    let p2 = vstd::arithmetic::power2::pow2(e) as int;
    vstd::arithmetic::power2::lemma_pow2_adds(e, (64 - e) as nat);
    vstd::arithmetic::power2::lemma_pow2_pos(e);
    vstd::arithmetic::power2::lemma_pow2_pos((64 - e) as nat);
    vstd::arithmetic::power2::lemma2_to64_rest();
    vstd::arithmetic::div_mod::lemma_mod_multiples_basic(
        vstd::arithmetic::power2::pow2((64 - e) as nat) as int,
        p2,
    );
    assert(threshold(p2) == 0);
    assert(threshold(1) == 0);
    assert(threshold(m - 1) == 1) by {
        vstd::arithmetic::div_mod::lemma_mod_multiples_vanish(1, 1, m - 1);
        vstd::arithmetic::div_mod::lemma_small_mod(1, (m - 1) as nat);
    }
    assert(low_half(x, m - 1) == (m - x) % m) by {
        vstd::arithmetic::div_mod::lemma_fundamental_div_mod(x as int * (m - 1), m);
        assert(x as int * (m - 1) == m * (x as int - 1) + (m - x)) by (nonlinear_arith);
        vstd::arithmetic::div_mod::lemma_mod_multiples_vanish(x as int - 1, m - x, m);
    }
    if x != 0 {
        vstd::arithmetic::div_mod::lemma_small_mod((m - x) as nat, m as nat);
    }
    assert(low_half(x, p2) >= 0) by {
        vstd::arithmetic::div_mod::lemma_mod_bound(x as int * p2, m);
    }
    assert(low_half(x, 1) >= 0) by {
        vstd::arithmetic::div_mod::lemma_mod_bound(x as int, m);
    }
}

} // verus!
