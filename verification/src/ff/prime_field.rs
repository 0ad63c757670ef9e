//! Fields of integers modulo a prime.

use crate::ff::modular::{add_mod, mul_mod, neg_mod, sub_mod};
use crate::ff::{modular, Field, Serializable};
use core::ops::{Add, Mul, Neg, Sub};
use vstd::arithmetic::div_mod::{lemma_mod_add_multiples_vanish, lemma_small_mod};
use vstd::bytes::{
    lemma_auto_spec_u32_to_from_le_bytes, spec_u32_from_le_bytes, spec_u32_to_le_bytes,
    u32_from_le_bytes, u32_to_le_bytes,
};
use vstd::prelude::*;
use vstd::std_specs::convert::FromSpecImpl;
use vstd::std_specs::ops::{AddSpec, MulSpec, NegSpec, SubSpec};

verus! {

/// A field of integers modulo a prime. Its multiplication is associative
/// and distributes over sums from both sides, which the laws below state in
/// the forms in which values with a check value need them.
pub trait PrimeField: Field {
    /// `r * a + r * b = r * (a + b)`.
    proof fn lemma_scaled_add(r: Self, a: Self, b: Self)
        ensures
            r.mul_spec(a).add_spec(r.mul_spec(b)) == r.mul_spec(a.add_spec(b)),
    ;

    /// `-(r * a) = r * (-a)`.
    proof fn lemma_scaled_neg(r: Self, a: Self)
        ensures
            r.mul_spec(a).neg_spec() == r.mul_spec(a.neg_spec()),
    ;

    /// `(r * a) * s = r * (a * s)`.
    proof fn lemma_scaled_mul(r: Self, a: Self, s: Self)
        ensures
            r.mul_spec(a).mul_spec(s) == r.mul_spec(a.mul_spec(s)),
    ;
}

/// The field of integers modulo 31.
#[derive(Clone, Copy, Debug, PartialEq, Eq, Hash, Structural)]
pub struct Fp31(u8);

impl Fp31 {
    /// The modulus.
    pub const PRIME: u8 = 31;

    /// Number of bits that hold an element.
    pub const BITS: u32 = 5;

    #[verifier::type_invariant]
    spec fn reduced(self) -> bool {
        self.0 < 31
    }

    /// The element with the residue `v`, whatever its range.
    pub closed spec fn with_residue(v: int) -> Fp31 {
        Fp31(v as u8)
    }

    /// The integer that stands for the element.
    pub closed spec fn residue(self) -> int {
        self.0 as int
    }

    /// What the operations compute, in integers: the residue of a sum, a
    /// difference, a product and a negation is that of the residues, taken
    /// modulo the prime.
    pub proof fn lemma_arithmetic(a: Fp31, b: Fp31)
        ensures
            0 <= a.residue() < 256,
            a.canonical() <==> a.residue() < 31,
            a.spec_as_u128() == a.residue(),
            a.add_spec(b).residue() == add_mod(a.residue(), b.residue(), 31),
            a.sub_spec(b).residue() == sub_mod(a.residue(), b.residue(), 31),
            a.mul_spec(b).residue() == mul_mod(a.residue(), b.residue(), 31),
            a.neg_spec().residue() == neg_mod(a.residue(), 31),
            Fp31::zero_spec().residue() == 0,
            Fp31::one_spec().residue() == 1,
    {
        modular::lemma_residues_bounded(a.residue(), b.residue(), 31);
    }

    /// Cutting an integer down gives its remainder modulo the prime, and so
    /// does converting it.
    pub proof fn lemma_truncated(v: u128)
        ensures
            Fp31::truncated(v).residue() == v % 31,
            Fp31::truncated(v).canonical(),
            <Fp31 as vstd::std_specs::convert::FromSpec<u128>>::from_spec(v) == Fp31::truncated(v),
    {
    }

    /// An element is its residue: two elements with the same residue are the
    /// same, and `with_residue` builds the element of a residue.
    pub proof fn lemma_residue_determines(a: Fp31, b: Fp31)
        ensures
            a.residue() == b.residue() ==> a == b,
            Fp31::with_residue(a.residue()) == a,
    {
    }
}

impl Add for Fp31 {
    type Output = Fp31;

    fn add(self, rhs: Fp31) -> (r: Fp31) {
        proof {
            use_type_invariant(self);
            use_type_invariant(rhs);
        }
        Fp31((self.0 + rhs.0) % 31)
    }
}

impl vstd::std_specs::ops::AddSpecImpl for Fp31 {
    open spec fn obeys_add_spec() -> bool {
        true
    }

    open spec fn add_req(self, rhs: Fp31) -> bool {
        true
    }

    closed spec fn add_spec(self, rhs: Fp31) -> Fp31 {
        Fp31(add_mod(self.0 as int, rhs.0 as int, 31) as u8)
    }
}

impl Sub for Fp31 {
    type Output = Fp31;

    fn sub(self, rhs: Fp31) -> (r: Fp31) {
        proof {
            use_type_invariant(self);
            use_type_invariant(rhs);
            lemma_mod_add_multiples_vanish(self.0 as int - rhs.0 as int, 31);
        }
        Fp31((self.0 + 31 - rhs.0) % 31)
    }
}

impl vstd::std_specs::ops::SubSpecImpl for Fp31 {
    open spec fn obeys_sub_spec() -> bool {
        true
    }

    open spec fn sub_req(self, rhs: Fp31) -> bool {
        true
    }

    closed spec fn sub_spec(self, rhs: Fp31) -> Fp31 {
        Fp31(sub_mod(self.0 as int, rhs.0 as int, 31) as u8)
    }
}

impl Neg for Fp31 {
    type Output = Fp31;

    fn neg(self) -> (r: Fp31) {
        proof {
            use_type_invariant(self);
            lemma_mod_add_multiples_vanish(-(self.0 as int), 31);
        }
        Fp31((31 - self.0) % 31)
    }
}

impl vstd::std_specs::ops::NegSpecImpl for Fp31 {
    open spec fn obeys_neg_spec() -> bool {
        true
    }

    open spec fn neg_req(self) -> bool {
        true
    }

    closed spec fn neg_spec(self) -> Fp31 {
        Fp31(neg_mod(self.0 as int, 31) as u8)
    }
}

impl Mul for Fp31 {
    type Output = Fp31;

    fn mul(self, rhs: Fp31) -> (r: Fp31) {
        proof {
            use_type_invariant(self);
            use_type_invariant(rhs);
            assert(self.0 * rhs.0 <= 30 * 30) by (nonlinear_arith)
                requires
                    self.0 <= 30,
                    rhs.0 <= 30,
            ;
        }
        let product: u16 = self.0 as u16 * rhs.0 as u16;
        Fp31((product % 31) as u8)
    }
}

impl vstd::std_specs::ops::MulSpecImpl for Fp31 {
    open spec fn obeys_mul_spec() -> bool {
        true
    }

    open spec fn mul_req(self, rhs: Fp31) -> bool {
        true
    }

    closed spec fn mul_spec(self, rhs: Fp31) -> Fp31 {
        Fp31(mul_mod(self.0 as int, rhs.0 as int, 31) as u8)
    }
}

impl From<u128> for Fp31 {
    fn from(v: u128) -> (r: Fp31) {
        Fp31((v % 31) as u8)
    }
}

impl FromSpecImpl<u128> for Fp31 {
    open spec fn obeys_from_spec() -> bool {
        true
    }

    closed spec fn from_spec(v: u128) -> Fp31 {
        Fp31((v % 31) as u8)
    }
}

impl Serializable for Fp31 {
    open spec fn size_spec() -> nat {
        1
    }

    closed spec fn to_bytes(self) -> Seq<u8> {
        seq![self.0]
    }

    closed spec fn from_bytes(bytes: Seq<u8>) -> Fp31 {
        Fp31(bytes[0] % 31)
    }

    closed spec fn restorable(self) -> bool {
        self.0 < 31
    }

    fn size() -> (r: usize) {
        1
    }

    fn serialize(&self, buf: &mut [u8]) {
        buf[0] = self.0;
        assert(buf@ =~= seq![self.0]);
    }

    fn deserialize(buf: &[u8]) -> (r: Fp31) {
        Fp31(buf[0] % 31)
    }

    proof fn lemma_round_trip(v: Fp31) {
    }
}

impl Field for Fp31 {
    closed spec fn canonical(self) -> bool {
        self.0 < 31
    }

    closed spec fn zero_spec() -> Fp31 {
        Fp31(0)
    }

    closed spec fn one_spec() -> Fp31 {
        Fp31(1)
    }

    closed spec fn spec_as_u128(self) -> u128 {
        self.0 as u128
    }

    closed spec fn truncated(v: u128) -> Fp31 {
        Fp31((v % 31) as u8)
    }

    fn zero() -> (r: Fp31) {
        Fp31(0)
    }

    fn one() -> (r: Fp31) {
        Fp31(1)
    }

    fn as_u128(&self) -> (r: u128) {
        proof {
            use_type_invariant(self);
        }
        self.0 as u128
    }

    fn truncate_from(v: u128) -> (r: Fp31) {
        Fp31((v % 31) as u8)
    }

    proof fn lemma_operators(a: Fp31, b: Fp31) {
        modular::lemma_residues_bounded(a.0 as int, b.0 as int, 31);
    }

    proof fn lemma_width() {
    }

    proof fn lemma_representation(a: Fp31, b: Fp31) {
    }

    proof fn lemma_add_interchange(a: Fp31, b: Fp31, c: Fp31, d: Fp31) {
        modular::lemma_residues_bounded(a.0 as int, b.0 as int, 31);
        modular::lemma_residues_bounded(c.0 as int, d.0 as int, 31);
        modular::lemma_residues_bounded(a.0 as int, c.0 as int, 31);
        modular::lemma_residues_bounded(b.0 as int, d.0 as int, 31);
        modular::lemma_add_interchange(a.0 as int, b.0 as int, c.0 as int, d.0 as int, 31);
    }

    proof fn lemma_sub_is_add_neg(a: Fp31, b: Fp31) {
        modular::lemma_residues_bounded(a.0 as int, b.0 as int, 31);
        modular::lemma_residues_bounded(b.0 as int, b.0 as int, 31);
        modular::lemma_sub_is_add_neg(a.0 as int, b.0 as int, 31);
    }

    proof fn lemma_neg_add(a: Fp31, b: Fp31) {
        modular::lemma_residues_bounded(a.0 as int, b.0 as int, 31);
        modular::lemma_residues_bounded(b.0 as int, a.0 as int, 31);
        modular::lemma_neg_add(a.0 as int, b.0 as int, 31);
    }

    proof fn lemma_neg_neg(a: Fp31) {
        modular::lemma_residues_bounded(a.0 as int, a.0 as int, 31);
        modular::lemma_neg_neg(a.0 as int, 31);
    }

    proof fn lemma_mul_distributes(a: Fp31, b: Fp31, s: Fp31) {
        modular::lemma_residues_bounded(a.0 as int, b.0 as int, 31);
        modular::lemma_residues_bounded(a.0 as int, s.0 as int, 31);
        modular::lemma_residues_bounded(b.0 as int, s.0 as int, 31);
        modular::lemma_mul_distributes(a.0 as int, b.0 as int, s.0 as int, 31);
    }

    proof fn lemma_sub_cancel(a: Fp31, v: Fp31) {
        modular::lemma_residues_bounded(v.0 as int, a.0 as int, 31);
        modular::lemma_sub_cancel(a.0 as int, v.0 as int, 31);
    }
}

/// The field of integers modulo 2^32 - 5, the largest prime below 2^32.
#[derive(Clone, Copy, Debug, PartialEq, Eq, Hash, Structural)]
pub struct Fp32BitPrime(u32);

impl Fp32BitPrime {
    /// The modulus.
    pub const PRIME: u32 = 4_294_967_291;

    /// Number of bits that hold an element.
    pub const BITS: u32 = 32;

    #[verifier::type_invariant]
    spec fn reduced(self) -> bool {
        self.0 < 4_294_967_291
    }

    /// The element with the residue `v`, whatever its range.
    pub closed spec fn with_residue(v: int) -> Fp32BitPrime {
        Fp32BitPrime(v as u32)
    }

    /// The integer that stands for the element.
    pub closed spec fn residue(self) -> int {
        self.0 as int
    }

    /// What the operations compute, in integers: the residue of a sum, a
    /// difference, a product and a negation is that of the residues, taken
    /// modulo the prime.
    pub proof fn lemma_arithmetic(a: Fp32BitPrime, b: Fp32BitPrime)
        ensures
            0 <= a.residue() < 4_294_967_296,
            a.canonical() <==> a.residue() < 4_294_967_291,
            a.spec_as_u128() == a.residue(),
            a.add_spec(b).residue() == add_mod(a.residue(), b.residue(), 4_294_967_291),
            a.sub_spec(b).residue() == sub_mod(a.residue(), b.residue(), 4_294_967_291),
            a.mul_spec(b).residue() == mul_mod(a.residue(), b.residue(), 4_294_967_291),
            a.neg_spec().residue() == neg_mod(a.residue(), 4_294_967_291),
            Fp32BitPrime::zero_spec().residue() == 0,
            Fp32BitPrime::one_spec().residue() == 1,
    {
        modular::lemma_residues_bounded(a.residue(), b.residue(), 4_294_967_291);
    }

    /// Cutting an integer down gives its remainder modulo the prime, and so
    /// does converting it.
    pub proof fn lemma_truncated(v: u128)
        ensures
            Fp32BitPrime::truncated(v).residue() == v % 4_294_967_291,
            Fp32BitPrime::truncated(v).canonical(),
            <Fp32BitPrime as vstd::std_specs::convert::FromSpec<u128>>::from_spec(v) == Fp32BitPrime::truncated(v),
    {
    }

    /// An element is its residue: two elements with the same residue are the
    /// same, and `with_residue` builds the element of a residue.
    pub proof fn lemma_residue_determines(a: Fp32BitPrime, b: Fp32BitPrime)
        ensures
            a.residue() == b.residue() ==> a == b,
            Fp32BitPrime::with_residue(a.residue()) == a,
    {
    }
}

impl Add for Fp32BitPrime {
    type Output = Fp32BitPrime;

    fn add(self, rhs: Fp32BitPrime) -> (r: Fp32BitPrime) {
        proof {
            use_type_invariant(self);
            use_type_invariant(rhs);
        }
        Fp32BitPrime(((self.0 as u64 + rhs.0 as u64) % 4_294_967_291) as u32)
    }
}

impl vstd::std_specs::ops::AddSpecImpl for Fp32BitPrime {
    open spec fn obeys_add_spec() -> bool {
        true
    }

    open spec fn add_req(self, rhs: Fp32BitPrime) -> bool {
        true
    }

    closed spec fn add_spec(self, rhs: Fp32BitPrime) -> Fp32BitPrime {
        Fp32BitPrime(add_mod(self.0 as int, rhs.0 as int, 4_294_967_291) as u32)
    }
}

impl Sub for Fp32BitPrime {
    type Output = Fp32BitPrime;

    fn sub(self, rhs: Fp32BitPrime) -> (r: Fp32BitPrime) {
        proof {
            use_type_invariant(self);
            use_type_invariant(rhs);
            lemma_mod_add_multiples_vanish(self.0 as int - rhs.0 as int, 4_294_967_291);
        }
        Fp32BitPrime(((self.0 as u64 + 4_294_967_291 - rhs.0 as u64) % 4_294_967_291) as u32)
    }
}

impl vstd::std_specs::ops::SubSpecImpl for Fp32BitPrime {
    open spec fn obeys_sub_spec() -> bool {
        true
    }

    open spec fn sub_req(self, rhs: Fp32BitPrime) -> bool {
        true
    }

    closed spec fn sub_spec(self, rhs: Fp32BitPrime) -> Fp32BitPrime {
        Fp32BitPrime(sub_mod(self.0 as int, rhs.0 as int, 4_294_967_291) as u32)
    }
}

impl Neg for Fp32BitPrime {
    type Output = Fp32BitPrime;

    fn neg(self) -> (r: Fp32BitPrime) {
        proof {
            use_type_invariant(self);
            lemma_mod_add_multiples_vanish(-(self.0 as int), 4_294_967_291);
        }
        Fp32BitPrime((4_294_967_291 - self.0) % 4_294_967_291)
    }
}

impl vstd::std_specs::ops::NegSpecImpl for Fp32BitPrime {
    open spec fn obeys_neg_spec() -> bool {
        true
    }

    open spec fn neg_req(self) -> bool {
        true
    }

    closed spec fn neg_spec(self) -> Fp32BitPrime {
        Fp32BitPrime(neg_mod(self.0 as int, 4_294_967_291) as u32)
    }
}

impl Mul for Fp32BitPrime {
    type Output = Fp32BitPrime;

    fn mul(self, rhs: Fp32BitPrime) -> (r: Fp32BitPrime) {
        proof {
            use_type_invariant(self);
            use_type_invariant(rhs);
            assert(self.0 * rhs.0 <= 4_294_967_290 * 4_294_967_290) by (nonlinear_arith)
                requires
                    self.0 <= 4_294_967_290,
                    rhs.0 <= 4_294_967_290,
            ;
        }
        let product: u64 = self.0 as u64 * rhs.0 as u64;
        Fp32BitPrime((product % 4_294_967_291) as u32)
    }
}

impl vstd::std_specs::ops::MulSpecImpl for Fp32BitPrime {
    open spec fn obeys_mul_spec() -> bool {
        true
    }

    open spec fn mul_req(self, rhs: Fp32BitPrime) -> bool {
        true
    }

    closed spec fn mul_spec(self, rhs: Fp32BitPrime) -> Fp32BitPrime {
        Fp32BitPrime(mul_mod(self.0 as int, rhs.0 as int, 4_294_967_291) as u32)
    }
}

impl From<u128> for Fp32BitPrime {
    fn from(v: u128) -> (r: Fp32BitPrime) {
        Fp32BitPrime((v % 4_294_967_291) as u32)
    }
}

impl FromSpecImpl<u128> for Fp32BitPrime {
    open spec fn obeys_from_spec() -> bool {
        true
    }

    closed spec fn from_spec(v: u128) -> Fp32BitPrime {
        Fp32BitPrime((v % 4_294_967_291) as u32)
    }
}

impl Serializable for Fp32BitPrime {
    open spec fn size_spec() -> nat {
        4
    }

    closed spec fn to_bytes(self) -> Seq<u8> {
        spec_u32_to_le_bytes(self.0)
    }

    closed spec fn from_bytes(bytes: Seq<u8>) -> Fp32BitPrime {
        Fp32BitPrime(spec_u32_from_le_bytes(bytes) % 4_294_967_291)
    }

    closed spec fn restorable(self) -> bool {
        self.0 < 4_294_967_291
    }

    fn size() -> (r: usize) {
        4
    }

    fn serialize(&self, buf: &mut [u8]) {
        let bytes = u32_to_le_bytes(self.0);
        proof {
            lemma_auto_spec_u32_to_from_le_bytes();
        }
        buf[0] = bytes[0];
        buf[1] = bytes[1];
        buf[2] = bytes[2];
        buf[3] = bytes[3];
        assert(buf@ =~= bytes@);
    }

    fn deserialize(buf: &[u8]) -> (r: Fp32BitPrime) {
        Fp32BitPrime(u32_from_le_bytes(buf) % 4_294_967_291)
    }

    proof fn lemma_round_trip(v: Fp32BitPrime) {
        lemma_auto_spec_u32_to_from_le_bytes();
        assert(spec_u32_to_le_bytes(v.0).len() == 4);
        if v.restorable() {
            lemma_small_mod(v.0 as nat, 4_294_967_291);
        }
    }
}

impl Field for Fp32BitPrime {
    closed spec fn canonical(self) -> bool {
        self.0 < 4_294_967_291
    }

    closed spec fn zero_spec() -> Fp32BitPrime {
        Fp32BitPrime(0)
    }

    closed spec fn one_spec() -> Fp32BitPrime {
        Fp32BitPrime(1)
    }

    closed spec fn spec_as_u128(self) -> u128 {
        self.0 as u128
    }

    closed spec fn truncated(v: u128) -> Fp32BitPrime {
        Fp32BitPrime((v % 4_294_967_291) as u32)
    }

    fn zero() -> (r: Fp32BitPrime) {
        Fp32BitPrime(0)
    }

    fn one() -> (r: Fp32BitPrime) {
        Fp32BitPrime(1)
    }

    fn as_u128(&self) -> (r: u128) {
        proof {
            use_type_invariant(self);
        }
        self.0 as u128
    }

    fn truncate_from(v: u128) -> (r: Fp32BitPrime) {
        Fp32BitPrime((v % 4_294_967_291) as u32)
    }

    proof fn lemma_operators(a: Fp32BitPrime, b: Fp32BitPrime) {
        modular::lemma_residues_bounded(a.0 as int, b.0 as int, 4_294_967_291);
    }

    proof fn lemma_width() {
    }

    proof fn lemma_representation(a: Fp32BitPrime, b: Fp32BitPrime) {
    }

    proof fn lemma_add_interchange(a: Fp32BitPrime, b: Fp32BitPrime, c: Fp32BitPrime, d: Fp32BitPrime) {
        modular::lemma_residues_bounded(a.0 as int, b.0 as int, 4_294_967_291);
        modular::lemma_residues_bounded(c.0 as int, d.0 as int, 4_294_967_291);
        modular::lemma_residues_bounded(a.0 as int, c.0 as int, 4_294_967_291);
        modular::lemma_residues_bounded(b.0 as int, d.0 as int, 4_294_967_291);
        modular::lemma_add_interchange(a.0 as int, b.0 as int, c.0 as int, d.0 as int, 4_294_967_291);
    }

    proof fn lemma_sub_is_add_neg(a: Fp32BitPrime, b: Fp32BitPrime) {
        modular::lemma_residues_bounded(a.0 as int, b.0 as int, 4_294_967_291);
        modular::lemma_residues_bounded(b.0 as int, b.0 as int, 4_294_967_291);
        modular::lemma_sub_is_add_neg(a.0 as int, b.0 as int, 4_294_967_291);
    }

    proof fn lemma_neg_add(a: Fp32BitPrime, b: Fp32BitPrime) {
        modular::lemma_residues_bounded(a.0 as int, b.0 as int, 4_294_967_291);
        modular::lemma_residues_bounded(b.0 as int, a.0 as int, 4_294_967_291);
        modular::lemma_neg_add(a.0 as int, b.0 as int, 4_294_967_291);
    }

    proof fn lemma_neg_neg(a: Fp32BitPrime) {
        modular::lemma_residues_bounded(a.0 as int, a.0 as int, 4_294_967_291);
        modular::lemma_neg_neg(a.0 as int, 4_294_967_291);
    }

    proof fn lemma_mul_distributes(a: Fp32BitPrime, b: Fp32BitPrime, s: Fp32BitPrime) {
        modular::lemma_residues_bounded(a.0 as int, b.0 as int, 4_294_967_291);
        modular::lemma_residues_bounded(a.0 as int, s.0 as int, 4_294_967_291);
        modular::lemma_residues_bounded(b.0 as int, s.0 as int, 4_294_967_291);
        modular::lemma_mul_distributes(a.0 as int, b.0 as int, s.0 as int, 4_294_967_291);
    }

    proof fn lemma_sub_cancel(a: Fp32BitPrime, v: Fp32BitPrime) {
        modular::lemma_residues_bounded(v.0 as int, a.0 as int, 4_294_967_291);
        modular::lemma_sub_cancel(a.0 as int, v.0 as int, 4_294_967_291);
    }
}

impl PrimeField for Fp31 {
    proof fn lemma_scaled_add(r: Fp31, a: Fp31, b: Fp31) {
        modular::lemma_residues_bounded(r.0 as int, a.0 as int, 31);
        modular::lemma_residues_bounded(r.0 as int, b.0 as int, 31);
        modular::lemma_residues_bounded(a.0 as int, b.0 as int, 31);
        modular::lemma_scaled_add(r.0 as int, a.0 as int, b.0 as int, 31);
    }

    proof fn lemma_scaled_neg(r: Fp31, a: Fp31) {
        modular::lemma_residues_bounded(r.0 as int, a.0 as int, 31);
        modular::lemma_residues_bounded(a.0 as int, r.0 as int, 31);
        modular::lemma_scaled_neg(r.0 as int, a.0 as int, 31);
    }

    proof fn lemma_scaled_mul(r: Fp31, a: Fp31, s: Fp31) {
        modular::lemma_residues_bounded(r.0 as int, a.0 as int, 31);
        modular::lemma_residues_bounded(a.0 as int, s.0 as int, 31);
        modular::lemma_scaled_mul(r.0 as int, a.0 as int, s.0 as int, 31);
    }
}

impl PrimeField for Fp32BitPrime {
    proof fn lemma_scaled_add(r: Fp32BitPrime, a: Fp32BitPrime, b: Fp32BitPrime) {
        modular::lemma_residues_bounded(r.0 as int, a.0 as int, 4_294_967_291);
        modular::lemma_residues_bounded(r.0 as int, b.0 as int, 4_294_967_291);
        modular::lemma_residues_bounded(a.0 as int, b.0 as int, 4_294_967_291);
        modular::lemma_scaled_add(r.0 as int, a.0 as int, b.0 as int, 4_294_967_291);
    }

    proof fn lemma_scaled_neg(r: Fp32BitPrime, a: Fp32BitPrime) {
        modular::lemma_residues_bounded(r.0 as int, a.0 as int, 4_294_967_291);
        modular::lemma_residues_bounded(a.0 as int, r.0 as int, 4_294_967_291);
        modular::lemma_scaled_neg(r.0 as int, a.0 as int, 4_294_967_291);
    }

    proof fn lemma_scaled_mul(r: Fp32BitPrime, a: Fp32BitPrime, s: Fp32BitPrime) {
        modular::lemma_residues_bounded(r.0 as int, a.0 as int, 4_294_967_291);
        modular::lemma_residues_bounded(a.0 as int, s.0 as int, 4_294_967_291);
        modular::lemma_scaled_mul(r.0 as int, a.0 as int, s.0 as int, 4_294_967_291);
    }
}

} // verus!
