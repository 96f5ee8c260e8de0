//! Unsigned integer types that a fixed-width field can be read into or
//! written from.
use vstd::arithmetic::power2::{lemma2_to64, pow2};
use vstd::prelude::*;

verus! {

/// An unsigned integer type of at most 64 bits.
pub trait BitInt: Sized {
    /// The width of the type in bits.
    spec fn spec_width() -> nat;

    /// The value as a natural number.
    spec fn spec_value(&self) -> nat;

    fn width() -> (r: usize)
        ensures
            r as nat == Self::spec_width(),
            0 < r <= 64,
    ;

    fn from_u64(v: u64) -> (r: Self)
        requires
            (v as nat) < pow2(Self::spec_width()),
        ensures
            r.spec_value() == v as nat,
    ;

    fn to_u64(&self) -> (r: u64)
        ensures
            r as nat == self.spec_value(),
    ;
}

impl BitInt for u8 {
    open spec fn spec_width() -> nat {
        8
    }

    open spec fn spec_value(&self) -> nat {
        *self as nat
    }

    fn width() -> (r: usize) {
        8
    }

    fn from_u64(v: u64) -> (r: u8) {
        proof {
            lemma2_to64();
        }
        v as u8
    }

    fn to_u64(&self) -> (r: u64) {
        *self as u64
    }
}

impl BitInt for u16 {
    open spec fn spec_width() -> nat {
        16
    }

    open spec fn spec_value(&self) -> nat {
        *self as nat
    }

    fn width() -> (r: usize) {
        16
    }

    fn from_u64(v: u64) -> (r: u16) {
        proof {
            lemma2_to64();
        }
        v as u16
    }

    fn to_u64(&self) -> (r: u64) {
        *self as u64
    }
}

impl BitInt for u32 {
    open spec fn spec_width() -> nat {
        32
    }

    open spec fn spec_value(&self) -> nat {
        *self as nat
    }

    fn width() -> (r: usize) {
        32
    }

    fn from_u64(v: u64) -> (r: u32) {
        proof {
            lemma2_to64();
        }
        v as u32
    }

    fn to_u64(&self) -> (r: u64) {
        *self as u64
    }
}

impl BitInt for u64 {
    open spec fn spec_width() -> nat {
        64
    }

    open spec fn spec_value(&self) -> nat {
        *self as nat
    }

    fn width() -> (r: usize) {
        64
    }

    fn from_u64(v: u64) -> (r: u64) {
        v
    }

    fn to_u64(&self) -> (r: u64) {
        *self
    }
}

} // verus!
