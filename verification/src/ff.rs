//! Finite fields: the values that are secret-shared and computed on.

pub mod galois_field;
pub mod modular;
pub mod prime_field;

pub use galois_field::{Gf2, Gf32Bit};
pub use prime_field::{Fp31, Fp32BitPrime, PrimeField};

use core::ops::{Add, Mul, Neg, Sub};
use vstd::prelude::*;
use vstd::std_specs::ops::{AddSpec, MulSpec, NegSpec, SubSpec};

verus! {

/// A value with a serialised form of fixed width.
pub trait Serializable: Sized {
    /// Number of bytes of the serialised form.
    spec fn size_spec() -> nat;

    /// The serialised form.
    spec fn to_bytes(self) -> Seq<u8>;

    /// The value that a serialised form stands for.
    spec fn from_bytes(bytes: Seq<u8>) -> Self;

    /// The values that deserialisation can produce. These are the values
    /// that survive a round trip through their serialised form.
    spec fn restorable(self) -> bool;

    /// Number of bytes of the serialised form.
    fn size() -> (r: usize)
        ensures
            r == Self::size_spec(),
    ;

    /// Writes the serialised form into `buf`, which has exactly its width.
    fn serialize(&self, buf: &mut [u8])
        requires
            old(buf)@.len() == Self::size_spec(),
        ensures
            final(buf)@ == self.to_bytes(),
    ;

    /// Reads a value from `buf`, which has exactly the width of the type.
    fn deserialize(buf: &[u8]) -> (r: Self)
        requires
            buf@.len() == Self::size_spec(),
        ensures
            r == Self::from_bytes(buf@),
            r.restorable(),
    ;

    /// The serialised form has the width of the type, and reading it gives
    /// the value back.
    proof fn lemma_round_trip(v: Self)
        ensures
            v.to_bytes().len() == Self::size_spec(),
            v.restorable() ==> Self::from_bytes(v.to_bytes()) == v,
    ;
}

/// A finite field. The operators `+`, `-`, unary `-` and `*` are the field's
/// operations; what they compute is given by their specifications
/// (`add_spec`, `sub_spec`, `neg_spec`, `mul_spec`), of which the laws below
/// speak.
pub trait Field: Copy + core::fmt::Debug + PartialEq + Add<Output = Self> + Sub<
    Output = Self,
> + Neg<Output = Self> + Mul<Output = Self> + Serializable {
    /// The value is the one representative of its field element. Every value
    /// that running code holds is canonical.
    spec fn canonical(self) -> bool;

    /// The additive identity.
    spec fn zero_spec() -> Self;

    /// The multiplicative identity.
    spec fn one_spec() -> Self;

    /// The element as an integer.
    spec fn spec_as_u128(self) -> u128;

    /// The element that an integer is cut down to.
    spec fn truncated(v: u128) -> Self;

    /// The additive identity.
    fn zero() -> (r: Self)
        ensures
            r == Self::zero_spec(),
            r.canonical(),
    ;

    /// The multiplicative identity.
    fn one() -> (r: Self)
        ensures
            r == Self::one_spec(),
            r.canonical(),
    ;

    /// The element as an integer.
    fn as_u128(&self) -> (r: u128)
        ensures
            r == self.spec_as_u128(),
            self.canonical(),
    ;

    /// The element that `v` is cut down to.
    fn truncate_from(v: u128) -> (r: Self)
        ensures
            r == Self::truncated(v),
            r.canonical(),
    ;

    /// The operators are defined on all values, compute what their
    /// specifications say, and give canonical results.
    proof fn lemma_operators(a: Self, b: Self)
        ensures
            <Self as AddSpec>::obeys_add_spec(),
            <Self as SubSpec>::obeys_sub_spec(),
            <Self as MulSpec>::obeys_mul_spec(),
            <Self as NegSpec>::obeys_neg_spec(),
            a.add_req(b),
            a.sub_req(b),
            a.mul_req(b),
            a.neg_req(),
            a.add_spec(b).canonical(),
            a.sub_spec(b).canonical(),
            a.mul_spec(b).canonical(),
            a.neg_spec().canonical(),
    ;

    /// An element takes at most sixteen bytes.
    proof fn lemma_width()
        ensures
            0 < Self::size_spec() <= 16,
    ;

    /// Canonical values are told apart by their integers.
    proof fn lemma_representation(a: Self, b: Self)
        requires
            a.canonical(),
            b.canonical(),
            a.spec_as_u128() == b.spec_as_u128(),
        ensures
            a == b,
    ;

    /// Sums of sums can be regrouped: `(a + b) + (c + d) = (a + c) + (b + d)`.
    proof fn lemma_add_interchange(a: Self, b: Self, c: Self, d: Self)
        ensures
            a.add_spec(b).add_spec(c.add_spec(d)) == a.add_spec(c).add_spec(b.add_spec(d)),
    ;

    /// Subtracting is adding the negation: `a - b = a + (-b)`.
    proof fn lemma_sub_is_add_neg(a: Self, b: Self)
        ensures
            a.sub_spec(b) == a.add_spec(b.neg_spec()),
    ;

    /// Negation goes through sums: `-(a + b) = (-a) + (-b)`.
    proof fn lemma_neg_add(a: Self, b: Self)
        ensures
            a.add_spec(b).neg_spec() == a.neg_spec().add_spec(b.neg_spec()),
    ;

    /// Negating twice gives the element back: `-(-a) = a`.
    proof fn lemma_neg_neg(a: Self)
        requires
            a.canonical(),
        ensures
            a.neg_spec().neg_spec() == a,
    ;

    /// Multiplication distributes over sums: `(a + b) * s = a * s + b * s`.
    proof fn lemma_mul_distributes(a: Self, b: Self, s: Self)
        ensures
            a.add_spec(b).mul_spec(s) == a.mul_spec(s).add_spec(b.mul_spec(s)),
    ;

    /// What is taken away can be put back: `a + (v - a) = v`.
    proof fn lemma_sub_cancel(a: Self, v: Self)
        requires
            v.canonical(),
        ensures
            a.add_spec(v.sub_spec(a)) == v,
    ;
}

} // verus!
