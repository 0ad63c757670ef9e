//! Binary fields: the field of two elements and its extension of degree 32.

use crate::ff::{Field, Serializable};
use core::ops::{Add, Mul, Neg, Sub};
use vstd::bytes::{
    lemma_auto_spec_u32_to_from_le_bytes, spec_u32_from_le_bytes, spec_u32_to_le_bytes,
    u32_from_le_bytes, u32_to_le_bytes,
};
use vstd::prelude::*;
use vstd::std_specs::ops::{AddSpec, MulSpec, NegSpec, SubSpec};

verus! {

/// The field of two elements: a single bit, with "exclusive or" as addition
/// and "and" as multiplication.
#[derive(Clone, Copy, Debug, PartialEq, Eq, Hash, Structural)]
pub struct Gf2(bool);

impl Gf2 {
    /// Number of bits that hold an element.
    pub const BITS: u32 = 1;

    /// The element with the given bit.
    pub closed spec fn with_bit(bit: bool) -> Gf2 {
        Gf2(bit)
    }

    /// The element's bit.
    pub closed spec fn bit(self) -> bool {
        self.0
    }

    /// What the operations compute, bit by bit.
    pub proof fn lemma_arithmetic(a: Gf2, b: Gf2)
        ensures
            a.canonical(),
            a.spec_as_u128() == (if a.bit() { 1u128 } else { 0u128 }),
            a.add_spec(b).bit() == (a.bit() != b.bit()),
            a.sub_spec(b).bit() == (a.bit() != b.bit()),
            a.mul_spec(b).bit() == (a.bit() && b.bit()),
            a.neg_spec().bit() == a.bit(),
            !Gf2::zero_spec().bit(),
            Gf2::one_spec().bit(),
            Gf2::with_bit(a.bit()) == a,
            a.bit() == b.bit() ==> a == b,
    {
    }

    /// Cutting an integer down keeps its lowest bit.
    pub proof fn lemma_truncated(v: u128)
        ensures
            Gf2::truncated(v).bit() == (v % 2 == 1),
    {
    }

    /// The element with the given bit.
    pub fn new(bit: bool) -> (r: Gf2)
        ensures
            r == Gf2::with_bit(bit),
    {
        Gf2(bit)
    }

    /// The element's bit.
    pub fn get(self) -> (r: bool)
        ensures
            r == self.bit(),
    {
        self.0
    }
}

impl Add for Gf2 {
    type Output = Gf2;

    fn add(self, rhs: Gf2) -> (r: Gf2) {
        Gf2(self.0 != rhs.0)
    }
}

impl vstd::std_specs::ops::AddSpecImpl for Gf2 {
    open spec fn obeys_add_spec() -> bool {
        true
    }

    open spec fn add_req(self, rhs: Gf2) -> bool {
        true
    }

    closed spec fn add_spec(self, rhs: Gf2) -> Gf2 {
        Gf2(self.0 != rhs.0)
    }
}

impl Sub for Gf2 {
    type Output = Gf2;

    fn sub(self, rhs: Gf2) -> (r: Gf2) {
        Gf2(self.0 != rhs.0)
    }
}

impl vstd::std_specs::ops::SubSpecImpl for Gf2 {
    open spec fn obeys_sub_spec() -> bool {
        true
    }

    open spec fn sub_req(self, rhs: Gf2) -> bool {
        true
    }

    closed spec fn sub_spec(self, rhs: Gf2) -> Gf2 {
        Gf2(self.0 != rhs.0)
    }
}

impl Neg for Gf2 {
    type Output = Gf2;

    fn neg(self) -> (r: Gf2) {
        self
    }
}

impl vstd::std_specs::ops::NegSpecImpl for Gf2 {
    open spec fn obeys_neg_spec() -> bool {
        true
    }

    open spec fn neg_req(self) -> bool {
        true
    }

    closed spec fn neg_spec(self) -> Gf2 {
        self
    }
}

impl Mul for Gf2 {
    type Output = Gf2;

    fn mul(self, rhs: Gf2) -> (r: Gf2) {
        Gf2(self.0 && rhs.0)
    }
}

impl vstd::std_specs::ops::MulSpecImpl for Gf2 {
    open spec fn obeys_mul_spec() -> bool {
        true
    }

    open spec fn mul_req(self, rhs: Gf2) -> bool {
        true
    }

    closed spec fn mul_spec(self, rhs: Gf2) -> Gf2 {
        Gf2(self.0 && rhs.0)
    }
}

impl Serializable for Gf2 {
    open spec fn size_spec() -> nat {
        1
    }

    closed spec fn to_bytes(self) -> Seq<u8> {
        seq![if self.0 { 1u8 } else { 0u8 }]
    }

    closed spec fn from_bytes(bytes: Seq<u8>) -> Gf2 {
        Gf2(bytes[0] % 2 == 1)
    }

    open spec fn restorable(self) -> bool {
        true
    }

    fn size() -> (r: usize) {
        1
    }

    fn serialize(&self, buf: &mut [u8]) {
        buf[0] = if self.0 { 1 } else { 0 };
        assert(buf@ =~= self.to_bytes());
    }

    fn deserialize(buf: &[u8]) -> (r: Gf2) {
        Gf2(buf[0] % 2 == 1)
    }

    proof fn lemma_round_trip(v: Gf2) {
    }
}

impl Field for Gf2 {
    open spec fn canonical(self) -> bool {
        true
    }

    closed spec fn zero_spec() -> Gf2 {
        Gf2(false)
    }

    closed spec fn one_spec() -> Gf2 {
        Gf2(true)
    }

    closed spec fn spec_as_u128(self) -> u128 {
        if self.0 {
            1
        } else {
            0
        }
    }

    closed spec fn truncated(v: u128) -> Gf2 {
        Gf2(v % 2 == 1)
    }

    fn zero() -> (r: Gf2) {
        Gf2(false)
    }

    fn one() -> (r: Gf2) {
        Gf2(true)
    }

    fn as_u128(&self) -> (r: u128) {
        if self.0 {
            1
        } else {
            0
        }
    }

    fn truncate_from(v: u128) -> (r: Gf2) {
        Gf2(v % 2 == 1)
    }

    proof fn lemma_operators(a: Gf2, b: Gf2) {
    }

    proof fn lemma_width() {
    }

    proof fn lemma_representation(a: Gf2, b: Gf2) {
    }

    proof fn lemma_add_interchange(a: Gf2, b: Gf2, c: Gf2, d: Gf2) {
    }

    proof fn lemma_sub_is_add_neg(a: Gf2, b: Gf2) {
    }

    proof fn lemma_neg_add(a: Gf2, b: Gf2) {
    }

    proof fn lemma_neg_neg(a: Gf2) {
    }

    proof fn lemma_mul_distributes(a: Gf2, b: Gf2, s: Gf2) {
    }

    proof fn lemma_sub_cancel(a: Gf2, v: Gf2) {
    }
}

/// Multiplies a polynomial over the field of two elements, held as 32
/// coefficient bits, by `x`, and reduces the product modulo
/// `x^32 + x^7 + x^3 + x^2 + 1`.
pub open spec fn times_x(a: u32) -> u32 {
    if a & 0x8000_0000 != 0 {
        (a << 1) ^ 0x8d
    } else {
        a << 1
    }
}

/// The product of the polynomials `a` and `b` modulo
/// `x^32 + x^7 + x^3 + x^2 + 1`: the sum of `a * x^i` over the positions `i`
/// of the bits set in `b`.
pub open spec fn polynomial_product(a: u32, b: u32) -> u32
    decreases b,
{
    if b == 0 {
        0
    } else {
        (if b % 2 == 1 {
            a
        } else {
            0
        }) ^ polynomial_product(times_x(a), b / 2)
    }
}

/// Multiplying by `x` goes through sums.
proof fn lemma_times_x_linear(a: u32, c: u32)
    ensures
        times_x(a ^ c) == times_x(a) ^ times_x(c),
{
    assert((if (a ^ c) & 0x8000_0000 != 0 {
        ((a ^ c) << 1) ^ 0x8d
    } else {
        (a ^ c) << 1
    }) == (if a & 0x8000_0000 != 0 {
        (a << 1) ^ 0x8d
    } else {
        a << 1
    }) ^ (if c & 0x8000_0000 != 0 {
        (c << 1) ^ 0x8d
    } else {
        c << 1
    })) by (bit_vector);
}

/// Sums regroup: `(p ^ q) ^ (m ^ n) = (p ^ m) ^ (q ^ n)`.
proof fn lemma_xor_interchange(p: u32, q: u32, m: u32, n: u32)
    ensures
        (p ^ q) ^ (m ^ n) == (p ^ m) ^ (q ^ n),
{
    assert((p ^ q) ^ (m ^ n) == (p ^ m) ^ (q ^ n)) by (bit_vector);
}

/// The product distributes over sums in its first factor.
pub proof fn lemma_product_distributes(a: u32, c: u32, b: u32)
    ensures
        polynomial_product(a ^ c, b) == polynomial_product(a, b) ^ polynomial_product(c, b),
    decreases b,
{
    if b == 0 {
        assert(0u32 ^ 0u32 == 0u32) by (bit_vector);
    } else {
        lemma_times_x_linear(a, c);
        lemma_product_distributes(times_x(a), times_x(c), b / 2);
        let rest_a = polynomial_product(times_x(a), b / 2);
        let rest_c = polynomial_product(times_x(c), b / 2);
        if b % 2 == 1 {
            lemma_xor_interchange(a, c, rest_a, rest_c);
        } else {
            lemma_xor_interchange(0, 0, rest_a, rest_c);
            assert(0u32 ^ 0u32 == 0u32) by (bit_vector);
        }
    }
}

/// Multiplying by the polynomials `0` and `1`.
pub proof fn lemma_product_by_bit(a: u32)
    ensures
        polynomial_product(a, 0) == 0,
        polynomial_product(a, 1) == a,
{
    assert(polynomial_product(times_x(a), 0) == 0);
    assert(polynomial_product(a, 1) == a ^ polynomial_product(times_x(a), 0));
    assert(a ^ 0u32 == a) by (bit_vector);
}

/// The extension of degree 32 of the field of two elements: polynomials of
/// degree below 32 with coefficients in that field, modulo
/// `x^32 + x^7 + x^3 + x^2 + 1`. Bit `i` is the coefficient of `x^i`.
#[derive(Clone, Copy, Debug, PartialEq, Eq, Hash, Structural)]
pub struct Gf32Bit(u32);

impl Gf32Bit {
    /// Number of bits that hold an element.
    pub const BITS: u32 = 32;

    /// The element with the given coefficient bits.
    pub closed spec fn with_bits(bits: u32) -> Gf32Bit {
        Gf32Bit(bits)
    }

    /// The element's coefficient bits.
    pub closed spec fn bits(self) -> u32 {
        self.0
    }

    /// What the operations compute on the coefficient bits.
    pub proof fn lemma_arithmetic(a: Gf32Bit, b: Gf32Bit)
        ensures
            a.canonical(),
            a.spec_as_u128() == a.bits(),
            a.add_spec(b).bits() == a.bits() ^ b.bits(),
            a.sub_spec(b).bits() == a.bits() ^ b.bits(),
            a.mul_spec(b).bits() == polynomial_product(a.bits(), b.bits()),
            a.neg_spec().bits() == a.bits(),
            Gf32Bit::zero_spec().bits() == 0,
            Gf32Bit::one_spec().bits() == 1,
            Gf32Bit::with_bits(a.bits()) == a,
            a.bits() == b.bits() ==> a == b,
    {
    }

    /// The element made of given coefficient bits has those bits.
    pub proof fn lemma_with_bits(bits: u32)
        ensures
            Gf32Bit::with_bits(bits).bits() == bits,
    {
    }

    /// Cutting an integer down keeps its lowest 32 bits.
    pub proof fn lemma_truncated(v: u128)
        ensures
            Gf32Bit::truncated(v).bits() == v % 0x1_0000_0000,
    {
    }

    /// The element with the given coefficient bits.
    pub fn new(bits: u32) -> (r: Gf32Bit)
        ensures
            r == Gf32Bit::with_bits(bits),
    {
        Gf32Bit(bits)
    }

    /// The element's coefficient bits.
    pub fn get(self) -> (r: u32)
        ensures
            r == self.bits(),
    {
        self.0
    }
}

impl Add for Gf32Bit {
    type Output = Gf32Bit;

    fn add(self, rhs: Gf32Bit) -> (r: Gf32Bit) {
        Gf32Bit(self.0 ^ rhs.0)
    }
}

impl vstd::std_specs::ops::AddSpecImpl for Gf32Bit {
    open spec fn obeys_add_spec() -> bool {
        true
    }

    open spec fn add_req(self, rhs: Gf32Bit) -> bool {
        true
    }

    closed spec fn add_spec(self, rhs: Gf32Bit) -> Gf32Bit {
        Gf32Bit(self.0 ^ rhs.0)
    }
}

impl Sub for Gf32Bit {
    type Output = Gf32Bit;

    fn sub(self, rhs: Gf32Bit) -> (r: Gf32Bit) {
        Gf32Bit(self.0 ^ rhs.0)
    }
}

impl vstd::std_specs::ops::SubSpecImpl for Gf32Bit {
    open spec fn obeys_sub_spec() -> bool {
        true
    }

    open spec fn sub_req(self, rhs: Gf32Bit) -> bool {
        true
    }

    closed spec fn sub_spec(self, rhs: Gf32Bit) -> Gf32Bit {
        Gf32Bit(self.0 ^ rhs.0)
    }
}

impl Neg for Gf32Bit {
    type Output = Gf32Bit;

    fn neg(self) -> (r: Gf32Bit) {
        self
    }
}

impl vstd::std_specs::ops::NegSpecImpl for Gf32Bit {
    open spec fn obeys_neg_spec() -> bool {
        true
    }

    open spec fn neg_req(self) -> bool {
        true
    }

    closed spec fn neg_spec(self) -> Gf32Bit {
        self
    }
}

impl Mul for Gf32Bit {
    type Output = Gf32Bit;

    fn mul(self, rhs: Gf32Bit) -> (r: Gf32Bit) {
        let mut product: u32 = 0;
        let mut a: u32 = self.0;
        let mut b: u32 = rhs.0;
        proof {
            let whole = polynomial_product(a, b);
            assert(0u32 ^ whole == whole) by (bit_vector);
        }
        while b != 0
            invariant
                product ^ polynomial_product(a, b) == polynomial_product(self.0, rhs.0),
            decreases b,
        {
            let ghost rest = polynomial_product(times_x(a), b / 2);
            if b % 2 == 1 {
                proof {
                    assert((product ^ a) ^ rest == product ^ (a ^ rest)) by (bit_vector);
                }
                product = product ^ a;
            } else {
                proof {
                    assert(product ^ rest == product ^ (0u32 ^ rest)) by (bit_vector);
                }
            }
            a = if a & 0x8000_0000 != 0 {
                (a << 1) ^ 0x8d
            } else {
                a << 1
            };
            b = b / 2;
        }
        proof {
            assert(product ^ 0u32 == product) by (bit_vector);
        }
        Gf32Bit(product)
    }
}

impl vstd::std_specs::ops::MulSpecImpl for Gf32Bit {
    open spec fn obeys_mul_spec() -> bool {
        true
    }

    open spec fn mul_req(self, rhs: Gf32Bit) -> bool {
        true
    }

    closed spec fn mul_spec(self, rhs: Gf32Bit) -> Gf32Bit {
        Gf32Bit(polynomial_product(self.0, rhs.0))
    }
}

impl Serializable for Gf32Bit {
    open spec fn size_spec() -> nat {
        4
    }

    closed spec fn to_bytes(self) -> Seq<u8> {
        spec_u32_to_le_bytes(self.0)
    }

    closed spec fn from_bytes(bytes: Seq<u8>) -> Gf32Bit {
        Gf32Bit(spec_u32_from_le_bytes(bytes))
    }

    open spec fn restorable(self) -> bool {
        true
    }

    fn size() -> (r: usize) {
        4
    }

    fn serialize(&self, buf: &mut [u8]) {
        let bytes = u32_to_le_bytes(self.0);
        buf[0] = bytes[0];
        buf[1] = bytes[1];
        buf[2] = bytes[2];
        buf[3] = bytes[3];
        assert(buf@ =~= bytes@);
    }

    fn deserialize(buf: &[u8]) -> (r: Gf32Bit) {
        Gf32Bit(u32_from_le_bytes(buf))
    }

    proof fn lemma_round_trip(v: Gf32Bit) {
        lemma_auto_spec_u32_to_from_le_bytes();
        assert(spec_u32_to_le_bytes(v.0).len() == 4);
    }
}

impl Field for Gf32Bit {
    open spec fn canonical(self) -> bool {
        true
    }

    closed spec fn zero_spec() -> Gf32Bit {
        Gf32Bit(0)
    }

    closed spec fn one_spec() -> Gf32Bit {
        Gf32Bit(1)
    }

    closed spec fn spec_as_u128(self) -> u128 {
        self.0 as u128
    }

    closed spec fn truncated(v: u128) -> Gf32Bit {
        Gf32Bit((v % 0x1_0000_0000) as u32)
    }

    fn zero() -> (r: Gf32Bit) {
        Gf32Bit(0)
    }

    fn one() -> (r: Gf32Bit) {
        Gf32Bit(1)
    }

    fn as_u128(&self) -> (r: u128) {
        self.0 as u128
    }

    fn truncate_from(v: u128) -> (r: Gf32Bit) {
        Gf32Bit((v % 0x1_0000_0000) as u32)
    }

    proof fn lemma_operators(a: Gf32Bit, b: Gf32Bit) {
    }

    proof fn lemma_width() {
    }

    proof fn lemma_representation(a: Gf32Bit, b: Gf32Bit) {
    }

    proof fn lemma_add_interchange(a: Gf32Bit, b: Gf32Bit, c: Gf32Bit, d: Gf32Bit) {
        lemma_xor_interchange(a.0, b.0, c.0, d.0);
    }

    proof fn lemma_sub_is_add_neg(a: Gf32Bit, b: Gf32Bit) {
    }

    proof fn lemma_neg_add(a: Gf32Bit, b: Gf32Bit) {
    }

    proof fn lemma_neg_neg(a: Gf32Bit) {
    }

    proof fn lemma_mul_distributes(a: Gf32Bit, b: Gf32Bit, s: Gf32Bit) {
        lemma_product_distributes(a.0, b.0, s.0);
    }

    proof fn lemma_sub_cancel(a: Gf32Bit, v: Gf32Bit) {
        let x = a.0;
        let y = v.0;
        assert(x ^ (y ^ x) == y) by (bit_vector);
    }
}

} // verus!
