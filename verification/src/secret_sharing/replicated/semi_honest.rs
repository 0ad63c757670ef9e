//! The replicated share of one helper.

use crate::ff::{Field, Serializable};
use core::ops::{Add, Mul, Neg, Sub};
use vstd::prelude::*;
use vstd::std_specs::ops::{AddSpec, MulSpec, NegSpec, SubSpec};

verus! {

/// What one helper holds of a shared value: two of the value's three parts.
/// Helper `i` holds the parts `i` and `i + 1`, counted around the ring, as
/// its left and its right part.
#[derive(Clone, Copy, Debug, PartialEq, Eq)]
pub struct AdditiveShare<V: Field>(pub V, pub V);

/// The shares of the three helpers fit together: the right part of each is
/// the left part of the next.
pub open spec fn consistent<V: Field>(
    s0: AdditiveShare<V>,
    s1: AdditiveShare<V>,
    s2: AdditiveShare<V>,
) -> bool {
    s0.1 == s1.0 && s1.1 == s2.0 && s2.1 == s0.0
}

/// The value that three shares stand for: the sum of their left parts.
pub open spec fn reconstruction<V: Field>(
    s0: AdditiveShare<V>,
    s1: AdditiveShare<V>,
    s2: AdditiveShare<V>,
) -> V {
    s0.0.add_spec(s1.0).add_spec(s2.0)
}

/// The three shares fit together and stand for `v`.
pub open spec fn is_sharing_of<V: Field>(shares: [AdditiveShare<V>; 3], v: V) -> bool {
    consistent(shares[0], shares[1], shares[2]) && reconstruction(shares[0], shares[1], shares[2])
        == v
}

impl<V: Field> AdditiveShare<V> {
    /// Both parts are canonical field elements.
    pub open spec fn canonical(self) -> bool {
        self.0.canonical() && self.1.canonical()
    }

    /// The sum of two shares, part by part.
    pub open spec fn sum(self, rhs: AdditiveShare<V>) -> AdditiveShare<V> {
        AdditiveShare(self.0.add_spec(rhs.0), self.1.add_spec(rhs.1))
    }

    /// The difference of two shares, part by part.
    pub open spec fn difference(self, rhs: AdditiveShare<V>) -> AdditiveShare<V> {
        AdditiveShare(self.0.sub_spec(rhs.0), self.1.sub_spec(rhs.1))
    }

    /// The negation of a share, part by part.
    pub open spec fn negation(self) -> AdditiveShare<V> {
        AdditiveShare(self.0.neg_spec(), self.1.neg_spec())
    }

    /// The share with both parts multiplied by a known field element.
    pub open spec fn scaled(self, rhs: V) -> AdditiveShare<V> {
        AdditiveShare(self.0.mul_spec(rhs), self.1.mul_spec(rhs))
    }

    /// The share of two given parts.
    pub fn new(a: V, b: V) -> (r: AdditiveShare<V>)
        ensures
            r == AdditiveShare(a, b),
    {
        AdditiveShare(a, b)
    }

    /// A share of zero.
    pub fn zero() -> (r: AdditiveShare<V>)
        ensures
            r == AdditiveShare(V::zero_spec(), V::zero_spec()),
    {
        AdditiveShare(V::zero(), V::zero())
    }

    /// The left part.
    pub fn left(&self) -> (r: V)
        ensures
            r == self.0,
    {
        self.0
    }

    /// The right part.
    pub fn right(&self) -> (r: V)
        ensures
            r == self.1,
    {
        self.1
    }
}

impl<V: Field> Default for AdditiveShare<V> {
    fn default() -> (r: AdditiveShare<V>)
        ensures
            r == AdditiveShare(V::zero_spec(), V::zero_spec()),
    {
        AdditiveShare(V::zero(), V::zero())
    }
}

impl<'b, V: Field> Add<&'b AdditiveShare<V>> for AdditiveShare<V> {
    type Output = AdditiveShare<V>;

    fn add(self, rhs: &'b AdditiveShare<V>) -> (r: AdditiveShare<V>)
        ensures
            r == self.sum(*rhs),
    {
        proof {
            V::lemma_operators(self.0, rhs.0);
            V::lemma_operators(self.1, rhs.1);
        }
        AdditiveShare(self.0 + rhs.0, self.1 + rhs.1)
    }
}

impl<'b, V: Field> vstd::std_specs::ops::AddSpecImpl<&'b AdditiveShare<V>> for AdditiveShare<V> {
    open spec fn obeys_add_spec() -> bool {
        true
    }

    open spec fn add_req(self, rhs: &'b AdditiveShare<V>) -> bool {
        true
    }

    open spec fn add_spec(self, rhs: &'b AdditiveShare<V>) -> AdditiveShare<V> {
        self.sum(*rhs)
    }
}

impl<V: Field> Neg for AdditiveShare<V> {
    type Output = AdditiveShare<V>;

    fn neg(self) -> (r: AdditiveShare<V>)
        ensures
            r == self.negation(),
    {
        proof {
            V::lemma_operators(self.0, self.1);
            V::lemma_operators(self.1, self.0);
        }
        AdditiveShare(self.0.neg(), self.1.neg())
    }
}

impl<V: Field> vstd::std_specs::ops::NegSpecImpl for AdditiveShare<V> {
    open spec fn obeys_neg_spec() -> bool {
        true
    }

    open spec fn neg_req(self) -> bool {
        true
    }

    open spec fn neg_spec(self) -> AdditiveShare<V> {
        self.negation()
    }
}

impl<'b, V: Field> Sub<&'b AdditiveShare<V>> for AdditiveShare<V> {
    type Output = AdditiveShare<V>;

    fn sub(self, rhs: &'b AdditiveShare<V>) -> (r: AdditiveShare<V>)
        ensures
            r == self.difference(*rhs),
    {
        proof {
            V::lemma_operators(self.0, rhs.0);
            V::lemma_operators(self.1, rhs.1);
        }
        AdditiveShare(self.0 - rhs.0, self.1 - rhs.1)
    }
}

impl<'b, V: Field> vstd::std_specs::ops::SubSpecImpl<&'b AdditiveShare<V>> for AdditiveShare<V> {
    open spec fn obeys_sub_spec() -> bool {
        true
    }

    open spec fn sub_req(self, rhs: &'b AdditiveShare<V>) -> bool {
        true
    }

    open spec fn sub_spec(self, rhs: &'b AdditiveShare<V>) -> AdditiveShare<V> {
        self.difference(*rhs)
    }
}

impl<V: Field> Mul<V> for AdditiveShare<V> {
    type Output = AdditiveShare<V>;

    fn mul(self, rhs: V) -> (r: AdditiveShare<V>)
        ensures
            r == self.scaled(rhs),
    {
        proof {
            V::lemma_operators(self.0, rhs);
            V::lemma_operators(self.1, rhs);
        }
        AdditiveShare(self.0 * rhs, self.1 * rhs)
    }
}

impl<V: Field> vstd::std_specs::ops::MulSpecImpl<V> for AdditiveShare<V> {
    open spec fn obeys_mul_spec() -> bool {
        true
    }

    open spec fn mul_req(self, rhs: V) -> bool {
        true
    }

    open spec fn mul_spec(self, rhs: V) -> AdditiveShare<V> {
        self.scaled(rhs)
    }
}

impl<V: Field> Serializable for AdditiveShare<V> {
    open spec fn size_spec() -> nat {
        V::size_spec() + V::size_spec()
    }

    open spec fn to_bytes(self) -> Seq<u8> {
        self.0.to_bytes() + self.1.to_bytes()
    }

    open spec fn from_bytes(bytes: Seq<u8>) -> AdditiveShare<V> {
        AdditiveShare(
            V::from_bytes(bytes.subrange(0, V::size_spec() as int)),
            V::from_bytes(
                bytes.subrange(V::size_spec() as int, (V::size_spec() + V::size_spec()) as int),
            ),
        )
    }

    open spec fn restorable(self) -> bool {
        self.0.restorable() && self.1.restorable()
    }

    fn size() -> (r: usize) {
        proof {
            V::lemma_width();
        }
        V::size() + V::size()
    }

    fn serialize(&self, buf: &mut [u8]) {
        proof {
            V::lemma_width();
        }
        let (left, right) = buf.split_at_mut(V::size());
        self.0.serialize(left);
        self.1.serialize(right);
    }

    fn deserialize(buf: &[u8]) -> (r: AdditiveShare<V>) {
        proof {
            V::lemma_width();
        }
        let width = V::size();
        let left = V::deserialize(&buf[0..width]);
        let right = V::deserialize(&buf[width..width + width]);
        AdditiveShare(left, right)
    }

    proof fn lemma_round_trip(v: AdditiveShare<V>) {
        V::lemma_round_trip(v.0);
        V::lemma_round_trip(v.1);
        let bytes = v.to_bytes();
        let width = V::size_spec() as int;
        assert(bytes.subrange(0, width) =~= v.0.to_bytes());
        assert(bytes.subrange(width, width + width) =~= v.1.to_bytes());
    }
}

/// Adding shares adds what they stand for: when each helper adds its shares
/// of two values, the results fit together and stand for the sum.
pub proof fn lemma_add_reconstructs<V: Field>(
    a0: AdditiveShare<V>,
    a1: AdditiveShare<V>,
    a2: AdditiveShare<V>,
    b0: AdditiveShare<V>,
    b1: AdditiveShare<V>,
    b2: AdditiveShare<V>,
)
    ensures
        consistent(a0, a1, a2) && consistent(b0, b1, b2) ==> consistent(
            a0.sum(b0),
            a1.sum(b1),
            a2.sum(b2),
        ),
        reconstruction(a0.sum(b0), a1.sum(b1), a2.sum(b2)) == reconstruction(
            a0,
            a1,
            a2,
        ).add_spec(reconstruction(b0, b1, b2)),
{
    V::lemma_add_interchange(a0.0, b0.0, a1.0, b1.0);
    V::lemma_add_interchange(a0.0.add_spec(a1.0), b0.0.add_spec(b1.0), a2.0, b2.0);
}

/// Negating shares negates what they stand for.
pub proof fn lemma_neg_reconstructs<V: Field>(
    a0: AdditiveShare<V>,
    a1: AdditiveShare<V>,
    a2: AdditiveShare<V>,
)
    ensures
        consistent(a0, a1, a2) ==> consistent(a0.negation(), a1.negation(), a2.negation()),
        reconstruction(a0.negation(), a1.negation(), a2.negation()) == reconstruction(
            a0,
            a1,
            a2,
        ).neg_spec(),
{
    V::lemma_neg_add(a0.0, a1.0);
    V::lemma_neg_add(a0.0.add_spec(a1.0), a2.0);
}

/// Negating a share twice gives it back.
pub proof fn lemma_negation_twice<V: Field>(a: AdditiveShare<V>)
    requires
        a.canonical(),
    ensures
        a.negation().negation() == a,
{
    V::lemma_neg_neg(a.0);
    V::lemma_neg_neg(a.1);
}

/// Subtracting a share is adding its negation.
pub proof fn lemma_sub_is_add_neg<V: Field>(a: AdditiveShare<V>, b: AdditiveShare<V>)
    ensures
        a.difference(b) == a.sum(b.negation()),
{
    V::lemma_sub_is_add_neg(a.0, b.0);
    V::lemma_sub_is_add_neg(a.1, b.1);
}

/// Subtracting shares subtracts what they stand for.
pub proof fn lemma_sub_reconstructs<V: Field>(
    a0: AdditiveShare<V>,
    a1: AdditiveShare<V>,
    a2: AdditiveShare<V>,
    b0: AdditiveShare<V>,
    b1: AdditiveShare<V>,
    b2: AdditiveShare<V>,
)
    ensures
        consistent(a0, a1, a2) && consistent(b0, b1, b2) ==> consistent(
            a0.difference(b0),
            a1.difference(b1),
            a2.difference(b2),
        ),
        reconstruction(a0.difference(b0), a1.difference(b1), a2.difference(b2)) == reconstruction(
            a0,
            a1,
            a2,
        ).sub_spec(reconstruction(b0, b1, b2)),
{
    lemma_sub_is_add_neg(a0, b0);
    lemma_sub_is_add_neg(a1, b1);
    lemma_sub_is_add_neg(a2, b2);
    lemma_neg_reconstructs(b0, b1, b2);
    lemma_add_reconstructs(a0, a1, a2, b0.negation(), b1.negation(), b2.negation());
    V::lemma_sub_is_add_neg(reconstruction(a0, a1, a2), reconstruction(b0, b1, b2));
}

/// Multiplying shares by a known field element multiplies what they stand
/// for.
pub proof fn lemma_scale_reconstructs<V: Field>(
    a0: AdditiveShare<V>,
    a1: AdditiveShare<V>,
    a2: AdditiveShare<V>,
    s: V,
)
    ensures
        consistent(a0, a1, a2) ==> consistent(a0.scaled(s), a1.scaled(s), a2.scaled(s)),
        reconstruction(a0.scaled(s), a1.scaled(s), a2.scaled(s)) == reconstruction(
            a0,
            a1,
            a2,
        ).mul_spec(s),
{
    V::lemma_mul_distributes(a0.0, a1.0, s);
    V::lemma_mul_distributes(a0.0.add_spec(a1.0), a2.0, s);
}

} // verus!
