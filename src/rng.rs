//! A generator bound to an output width.
use vstd::prelude::*;

use core::marker::PhantomData;
use vstd::arithmetic::power2::pow2;

use crate::generator::{GeneratorCore, PicoRandRNG};
use crate::reduce::{lemma_rejection_at_extremes, reduce_run, reduced, scaled};
use crate::width::{narrowed, UnsignedWidth};
use crate::wyrand::{two_pow_64, WyRand};

verus! {

/// Requirement for implicitly bounded RNG: a draw over the whole range of the
/// output width `T`, `[0, 2^bits)`, made from one raw draw of the generator.
pub trait PicoRandGenerate<R: PicoRandRNG, T: UnsignedWidth>: Sized {
    /// The generator that draws are taken from.
    spec fn spec_generator(&self) -> R;

    /// Generate a new implicitly bound number using the PRNG: the high `bits`
    /// bits of one raw draw, which is the range reduction of that draw to
    /// `[0, 2^bits)` (no draw is ever rejected for a power of two).
    fn generate(&mut self) -> (r: T)
        ensures
            final(self).spec_generator() == old(self).spec_generator().spec_next(),
            r.spec_value() == scaled(old(self).spec_generator().spec_output(), pow2(T::spec_bits()) as int),
            r.spec_value() < pow2(T::spec_bits()),
    ;
}

/// An abstraction over a PRNG with a specific seed, producing values of width `T`.
pub struct RNG<R: PicoRandRNG = WyRand, T = u64> {
    rng: R,
    _marker: PhantomData<T>,
}

impl<R: PicoRandRNG, T: UnsignedWidth> RNG<R, T> {
    /// The generator that draws are taken from.
    pub closed spec fn generator(&self) -> R {
        self.rng
    }

    /// Create a new [`RNG`] instance using a specific PRNG and a specific seed.
    pub fn new(seed: u64) -> (r: Self)
        ensures
            r.generator() == R::spec_seeded(seed),
    {
        RNG { rng: R::new(seed), _marker: PhantomData }
    }

    /// Generate a number in the range `[min, max)`, narrowed to `T`.
    ///
    /// When `max <= min` the result is `min` and no draw is made. A result that
    /// does not fit in `T` (possible only when `max` exceeds `2^bits`) gives 0.
    pub fn generate_range(&mut self, min: usize, max: usize) -> (r: T)
        ensures
            final(self).generator() == reduced(old(self).generator(), min as u64, max as u64).0,
            r.spec_value() == narrowed(
                reduced(old(self).generator(), min as u64, max as u64).1,
                T::spec_bits(),
            ),
            min < max <= pow2(T::spec_bits()) ==> min <= r.spec_value() < max,
            max <= min ==> final(self).generator() == old(self).generator(),
            max <= min < pow2(T::spec_bits()) ==> r.spec_value() == min,
    {
        let v = self.rng.rand_range(min, max);
        T::narrow(v)
    }
}

impl<R: PicoRandRNG, T: UnsignedWidth> PicoRandGenerate<R, T> for RNG<R, T> {
    open spec fn spec_generator(&self) -> R {
        self.generator()
    }

    /// Generate a number in the implicit range of the type of the given [`RNG`].
    fn generate(&mut self) -> (r: T) {
        let x = self.rng.rand();
        let bits = T::bits();
        let shift = 64 - bits;
        let v = x >> shift;
        proof {
            let b = bits as nat;
            let k = shift as nat;
            vstd::bits::lemma_u64_shr_is_div(x, shift as u64);
            vstd::arithmetic::power2::lemma_pow2_adds(b, k);
            vstd::arithmetic::power2::lemma_pow2_pos(b);
            vstd::arithmetic::power2::lemma_pow2_pos(k);
            vstd::arithmetic::power2::lemma2_to64_rest();
            assert(pow2(b) * pow2(k) == two_pow_64());
            vstd::arithmetic::div_mod::lemma_div_multiples_vanish_quotient(pow2(b) as int, x as int, pow2(k) as int);
            assert(x as int * pow2(b) == pow2(b) * x as int) by (nonlinear_arith);
            assert(v == scaled(x, pow2(b) as int));
            assert(v < pow2(b)) by (nonlinear_arith)
                requires
                    v as int == x as int / pow2(k) as int,
                    x < pow2(b) * pow2(k),
                    pow2(k) > 0,
            ;
        }
        let r = T::narrow(v);
        proof {
            T::lemma_value_bound(r);
        }
        r
    }
}

/// A full-width draw is the range reduction to `[0, 2^bits)`: for widths below
/// 64 bits, `generate` and `generate_range(0, 2^bits)` take the same single
/// draw and return the same value.
pub proof fn lemma_generate_is_full_range<R: PicoRandRNG>(g: R, bits: nat)
    requires
        1 <= bits < 64,
    ensures
        pow2(bits) < two_pow_64(),
        reduced(g, 0, pow2(bits) as u64) == (
            g.spec_next(),
            scaled(g.spec_output(), pow2(bits) as int) as u64,
        ),
{
    vstd::arithmetic::power2::lemma2_to64_rest();
    vstd::arithmetic::power2::lemma_pow2_strictly_increases(bits, 64);
    vstd::arithmetic::power2::lemma_pow2_pos(bits);
    lemma_rejection_at_extremes(g.spec_output(), bits);
    let s = pow2(bits) as u64;
    assert(reduced(g, 0, s) == reduce_run(g, 0, s, two_pow_64() as nat));
}

} // verus!
