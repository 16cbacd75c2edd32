//! The interfaces every generator implements.
//!
//! A generator is modelled as a deterministic state machine: a seed picks the
//! first state, and each raw draw returns a value that depends on the current
//! state alone and moves to the next one.
use vstd::prelude::*;

use crate::reduce::reduced;

verus! {

/// A stateful producer of raw 64-bit draws.
pub trait GeneratorCore: Sized {
    /// The generator after one raw draw from `self`.
    spec fn spec_next(self) -> Self;

    /// The raw value that one draw from `self` returns.
    spec fn spec_output(self) -> u64;

    /// Generate a new number using the PRNG.
    fn rand(&mut self) -> (r: u64)
        ensures
            *final(self) == old(self).spec_next(),
            r == old(self).spec_output(),
    ;
}

/// Requirements for compatible PRNG: construction from a seed, raw draws, and
/// unbiased bounded draws.
pub trait PicoRandRNG: GeneratorCore {
    /// The generator that `new(seed)` builds.
    spec fn spec_seeded(seed: u64) -> Self;

    /// Create a new PRNG instance using a specific seed.
    fn new(seed: u64) -> (r: Self)
        ensures
            r == Self::spec_seeded(seed),
    ;

    /// Constrain a randomly generated number to the half-open range `[min, max)`,
    /// without modulo bias. When `max <= min` the result is `min` and no draw is
    /// made. The generic reducer `reduce_range` meets this contract.
    fn rand_range(&mut self, min: usize, max: usize) -> (r: u64)
        ensures
            (*final(self), r) == reduced(*old(self), min as u64, max as u64),
            min < max ==> min <= r < max,
            max <= min ==> r == min && *final(self) == *old(self),
    ;
}

/// The generator after `k` raw draws from `g`.
pub open spec fn nth_state<R: GeneratorCore>(g: R, k: nat) -> R
    decreases k,
{
    if k == 0 {
        g
    } else {
        nth_state(g, (k - 1) as nat).spec_next()
    }
}

/// The first `n` raw draws from `g`, in order.
pub open spec fn draws<R: GeneratorCore>(g: R, n: nat) -> Seq<u64> {
    Seq::new(n, |k: int| nth_state(g, k as nat).spec_output())
}

} // verus!
