//! Deterministic, allocation-free pseudo-random integers from a 64-bit seed.
//!
//! A generator core turns a seed into a stream of raw 64-bit draws; an
//! unbiased range reducer maps raw draws into `[min, max)` by widening
//! multiplication and rejection; [`RNG`] binds a generator to an output width.
//!
//! The default generator, [`WyRand`], is NOT cryptographically secure: every
//! output follows from the seed, so it must not be used where an adversary
//! could profit from predicting values.
pub mod generator;
pub mod reduce;
pub mod rng;
pub mod width;
pub mod wyrand;

pub use generator::{GeneratorCore, PicoRandRNG};
pub use rng::{PicoRandGenerate, RNG};
pub use width::UnsignedWidth;
pub use wyrand::WyRand;
