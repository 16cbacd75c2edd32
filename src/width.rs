//! Unsigned integer widths that a generator's output can be narrowed to.
use vstd::prelude::*;

use vstd::arithmetic::power2::{lemma2_to64, pow2};

verus! {

/// An unsigned integer type of a fixed number of bits, with a narrowing
/// conversion from 64-bit values.
pub trait UnsignedWidth: Sized {
    /// The number of bits of the type.
    spec fn spec_bits() -> nat;

    /// The value as a natural number.
    spec fn spec_value(self) -> nat;

    /// Every value of the type lies below `2^bits`.
    proof fn lemma_value_bound(v: Self)
        ensures
            v.spec_value() < pow2(Self::spec_bits()),
    ;

    /// The number of bits of the type.
    fn bits() -> (r: u32)
        ensures
            r == Self::spec_bits(),
            1 <= r <= 64,
    ;

    /// Narrow a 64-bit value to the type. A value that does not fit gives 0.
    fn narrow(v: u64) -> (r: Self)
        ensures
            r.spec_value() == narrowed(v, Self::spec_bits()),
    ;
}

/// The result of narrowing `v` to `bits` bits: `v` itself when it fits, else 0.
pub open spec fn narrowed(v: u64, bits: nat) -> nat {
    if v < pow2(bits) {
        v as nat
    } else {
        0
    }
}

impl UnsignedWidth for u8 {
    open spec fn spec_bits() -> nat {
        8
    }

    open spec fn spec_value(self) -> nat {
        self as nat
    }

    proof fn lemma_value_bound(v: Self) {
        lemma2_to64();
    }

    fn bits() -> (r: u32) {
        8
    }

    fn narrow(v: u64) -> (r: Self) {
        proof {
            lemma2_to64();
        }
        if v <= u8::MAX as u64 {
            v as u8
        } else {
            0
        }
    }
}

impl UnsignedWidth for u16 {
    open spec fn spec_bits() -> nat {
        16
    }

    open spec fn spec_value(self) -> nat {
        self as nat
    }

    proof fn lemma_value_bound(v: Self) {
        lemma2_to64();
    }

    fn bits() -> (r: u32) {
        16
    }

    fn narrow(v: u64) -> (r: Self) {
        proof {
            lemma2_to64();
        }
        if v <= u16::MAX as u64 {
            v as u16
        } else {
            0
        }
    }
}

impl UnsignedWidth for u32 {
    open spec fn spec_bits() -> nat {
        32
    }

    open spec fn spec_value(self) -> nat {
        self as nat
    }

    proof fn lemma_value_bound(v: Self) {
        lemma2_to64();
    }

    fn bits() -> (r: u32) {
        32
    }

    fn narrow(v: u64) -> (r: Self) {
        proof {
            lemma2_to64();
        }
        if v <= u32::MAX as u64 {
            v as u32
        } else {
            0
        }
    }
}

impl UnsignedWidth for u64 {
    open spec fn spec_bits() -> nat {
        64
    }

    open spec fn spec_value(self) -> nat {
        self as nat
    }

    proof fn lemma_value_bound(v: Self) {
        vstd::arithmetic::power2::lemma2_to64_rest();
    }

    fn bits() -> (r: u32) {
        64
    }

    fn narrow(v: u64) -> (r: Self) {
        proof {
            vstd::arithmetic::power2::lemma2_to64_rest();
        }
        v
    }
}

} // verus!
