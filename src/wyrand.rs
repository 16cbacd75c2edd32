//! The WyRand generator: a 64-bit counter stepped by an odd constant, with a
//! multiplicative mix that folds a 128-bit product into 64 bits.
//!
//! WyRand is NOT cryptographically secure: every output follows from the seed.
use vstd::prelude::*;

use crate::generator::{draws, nth_state, GeneratorCore, PicoRandRNG};
use crate::reduce::reduce_range;

verus! {

/// The odd constant added to the counter on every draw.
pub const WYRAND_INCREMENT: u64 = 0xE7037ED1A0B428DB;

/// 2^64, the size of the raw domain.
pub open spec fn two_pow_64() -> int {
    0x1_0000_0000_0000_0000
}

/// The counter after one step: `c + WYRAND_INCREMENT`, modulo 2^64.
pub open spec fn wy_step(c: u64) -> u64 {
    ((c as int + WYRAND_INCREMENT as int) % two_pow_64()) as u64
}

/// The full 128-bit product that the mix folds.
pub open spec fn wy_product(c: u64) -> int {
    c as int * (c ^ WYRAND_INCREMENT) as int
}

/// The output for counter value `c`: the high half of the product xor its low half.
pub open spec fn wy_mix(c: u64) -> u64 {
    ((wy_product(c) / two_pow_64()) as u64) ^ ((wy_product(c) % two_pow_64()) as u64)
}

/// The counter after `k` steps from `seed`: `seed + k * WYRAND_INCREMENT`, modulo 2^64.
pub open spec fn counter_after(seed: u64, k: nat) -> u64 {
    ((seed as int + k * WYRAND_INCREMENT as int) % two_pow_64()) as u64
}

/// A WyRand PRNG instance. Note: This PRNG is NOT cryptographically secure.
pub struct WyRand {
    seed: u64,
}

impl WyRand {
    /// The counter that the generator holds.
    pub closed spec fn counter(&self) -> u64 {
        self.seed
    }

    /// What the generator model says of WyRand, in terms of its counter: a seed
    /// becomes the counter, a draw steps it, and the draw returns the mix of the
    /// stepped counter. Two generators with equal counters are equal.
    pub proof fn lemma_model()
        ensures
            forall|seed: u64| #[trigger] Self::spec_seeded(seed).counter() == seed,
            forall|g: Self| #[trigger] g.spec_next().counter() == wy_step(g.counter()),
            forall|g: Self| #[trigger] g.spec_output() == wy_mix(wy_step(g.counter())),
            forall|g: Self, h: Self|
                #![trigger g.counter(), h.counter()]
                g.counter() == h.counter() ==> g == h,
    {
    }
}

impl GeneratorCore for WyRand {
    closed spec fn spec_next(self) -> Self {
        WyRand { seed: wy_step(self.seed) }
    }

    closed spec fn spec_output(self) -> u64 {
        wy_mix(wy_step(self.seed))
    }

    /// Generate a new number using the [`WyRand`] PRNG.
    fn rand(&mut self) -> (r: u64) {
        self.seed = self.seed.wrapping_add(WYRAND_INCREMENT);
        let c = self.seed;
        let d = c ^ WYRAND_INCREMENT;
        proof {
            assert(c as int * d as int <= 0xFFFF_FFFF_FFFF_FFFF * 0xFFFF_FFFF_FFFF_FFFF)
                by (nonlinear_arith)
                requires
                    c <= 0xFFFF_FFFF_FFFF_FFFFu64,
                    d <= 0xFFFF_FFFF_FFFF_FFFFu64,
            ;
        }
        let p: u128 = (c as u128) * (d as u128);
        let hi = #[verifier::truncate] ((p >> 64u32) as u64);
        let lo = #[verifier::truncate] (p as u64);
        proof {
            assert((p >> 64u32) as u64 == p / 0x1_0000_0000_0000_0000u128) by (bit_vector);
            assert(p as u64 == p % 0x1_0000_0000_0000_0000u128) by (bit_vector);
        }
        hi ^ lo
    }
}

impl PicoRandRNG for WyRand {
    closed spec fn spec_seeded(seed: u64) -> Self {
        WyRand { seed }
    }

    /// Create a new [`WyRand`] instance using a specific seed.
    fn new(seed: u64) -> (r: Self) {
        WyRand { seed }
    }

    /// Constrain a randomly generated number to a fixed range.
    fn rand_range(&mut self, min: usize, max: usize) -> (r: u64) {
        reduce_range(self, min as u64, max as u64)
    }
}

proof fn lemma_nth_counter(seed: u64, k: nat)
    ensures
        nth_state(WyRand::spec_seeded(seed), k).counter() == counter_after(seed, k),
    decreases k,
{
    if k == 0 {
        vstd::arithmetic::div_mod::lemma_small_mod(seed as nat, two_pow_64() as nat);
    } else {
        lemma_nth_counter(seed, (k - 1) as nat);
        let a = seed as int + (k - 1) * WYRAND_INCREMENT as int;
        vstd::arithmetic::div_mod::lemma_add_mod_noop(a, WYRAND_INCREMENT as int, two_pow_64());
        vstd::arithmetic::div_mod::lemma_small_mod(WYRAND_INCREMENT as nat, two_pow_64() as nat);
        vstd::arithmetic::div_mod::lemma_mod_twice(a, two_pow_64());
        assert(a + WYRAND_INCREMENT as int == seed as int + k * WYRAND_INCREMENT as int) by (nonlinear_arith)
            requires
                a == seed as int + (k - 1) * WYRAND_INCREMENT as int,
        ;
    }
}

/// Draws depend on the seed alone. The `k`-th draw (from 0) of a generator
/// built from `seed` is the mix of `seed + (k + 1) * WYRAND_INCREMENT` modulo
/// 2^64, so two generators built from the same seed give the same draws, for
/// sequences of any length.
pub proof fn lemma_draws_from_seed(seed: u64, n: nat)
    ensures
        draws(WyRand::spec_seeded(seed), n) == Seq::new(
            n,
            |k: int| wy_mix(counter_after(seed, (k + 1) as nat)),
        ),
        forall|other: u64|
            other == seed ==> draws(WyRand::spec_seeded(other), n) == draws(
                WyRand::spec_seeded(seed),
                n,
            ),
{
    assert forall|k: int| 0 <= k < n implies draws(WyRand::spec_seeded(seed), n)[k] == wy_mix(
        counter_after(seed, (k + 1) as nat),
    ) by {
        lemma_nth_counter(seed, k as nat);
        lemma_nth_counter(seed, (k + 1) as nat);
    }
    assert(draws(WyRand::spec_seeded(seed), n) =~= Seq::new(
        n,
        |k: int| wy_mix(counter_after(seed, (k + 1) as nat)),
    ));
}

/// The counter returns to the seed after `2^64` draws, and not before: the
/// generator's state, and so its draws, repeat with period exactly `2^64`.
pub proof fn lemma_period(seed: u64, k: nat)
    requires
        0 < k < two_pow_64(),
    ensures
        counter_after(seed, two_pow_64() as nat) == seed,
        nth_state(WyRand::spec_seeded(seed), two_pow_64() as nat) == WyRand::spec_seeded(seed),
        counter_after(seed, k) != seed,
{
    let m = two_pow_64();
    let c = WYRAND_INCREMENT as int;
    lemma_nth_counter(seed, m as nat);
    vstd::arithmetic::div_mod::lemma_mod_multiples_vanish(c, seed as int, m);
    vstd::arithmetic::div_mod::lemma_small_mod(seed as nat, m as nat);
    assert(seed as int + m * c == m * c + seed as int);
    if counter_after(seed, k) == seed {
        // Then k * c is a multiple of 2^64. The increment is odd, so it has an
        // inverse modulo 2^64, and k itself would be a multiple of 2^64.
        vstd::arithmetic::div_mod::lemma_fundamental_div_mod(seed as int + k * c, m);
        let q = (seed as int + k * c) / m;
        assert(k * c == m * q) by (nonlinear_arith)
            requires
                seed as int + k * c == m * q + seed as int,
        {
        }
        let inv: int = 0x2e1b9953f3b39353;
        let j: int = 0x299b8884e3d4171f;
        assert(c * inv == 1 + m * j);
        let z = q * inv - k * j;
        assert(k == m * z) by (nonlinear_arith)
            requires
                k * c == m * q,
                c * inv == 1 + m * j,
                z == q * inv - k * j,
        ;
        assert(false) by (nonlinear_arith)
            requires
                k == m * z,
                0 < k < m,
        ;
    }
}

} // verus!
