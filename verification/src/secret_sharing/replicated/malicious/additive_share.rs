//! Replicated shares with a check value.
//!
//! Every value `x` travels together with `r * x`, where `r` is a random
//! constant that is shared among the helpers and that none of them knows.
//! A helper that tampers with a share of `x` cannot adjust the share of
//! `r * x` to match, which a later validation step detects. A small field,
//! even the field of two elements, can be used for `x` while `r * x` lives
//! in a larger extension field.

use crate::ff::galois_field::lemma_product_by_bit;
use crate::ff::{Field, Gf2, Gf32Bit, PrimeField, Serializable};
use crate::secret_sharing::decomposed::BitDecomposed;
use crate::secret_sharing::replicated::semi_honest::{
    consistent, lemma_add_reconstructs, lemma_neg_reconstructs, lemma_negation_twice,
    lemma_scale_reconstructs, lemma_sub_reconstructs, reconstruction,
    AdditiveShare as SemiHonestAdditiveShare,
};
use core::ops::{Add, Mul, Neg, Sub};
use vstd::prelude::*;
use vstd::std_specs::ops::{AddSpec, MulSpec, NegSpec, SubSpec};

verus! {

/// A field with an embedding into a field that is large enough for check
/// values.
pub trait ExtendableField: Field {
    /// The larger field.
    type ExtendedField: Field;

    /// The image of the element in the larger field.
    spec fn extended(self) -> Self::ExtendedField;

    /// The image of the element in the larger field.
    fn to_extended(&self) -> (r: Self::ExtendedField)
        ensures
            r == self.extended(),
    ;

    /// Check values add up: `r * a + r * b = r * (a + b)`, where `a` and `b`
    /// are taken into the larger field.
    proof fn lemma_extension_add(r: Self::ExtendedField, a: Self, b: Self)
        ensures
            r.mul_spec(a.extended()).add_spec(r.mul_spec(b.extended())) == r.mul_spec(
                a.add_spec(b).extended(),
            ),
    ;

    /// Check values negate: `-(r * a) = r * (-a)`.
    proof fn lemma_extension_neg(r: Self::ExtendedField, a: Self)
        ensures
            r.mul_spec(a.extended()).neg_spec() == r.mul_spec(a.neg_spec().extended()),
    ;

    /// Check values scale: `(r * a) * s = r * (a * s)`, where the known
    /// factor `s` is taken into the larger field too.
    proof fn lemma_extension_scale(r: Self::ExtendedField, a: Self, s: Self)
        ensures
            r.mul_spec(a.extended()).mul_spec(s.extended()) == r.mul_spec(
                a.mul_spec(s).extended(),
            ),
    ;
}

impl<F: PrimeField> ExtendableField for F {
    type ExtendedField = F;

    open spec fn extended(self) -> F {
        self
    }

    fn to_extended(&self) -> (r: F) {
        *self
    }

    proof fn lemma_extension_add(r: F, a: F, b: F) {
        F::lemma_scaled_add(r, a, b);
    }

    proof fn lemma_extension_neg(r: F, a: F) {
        F::lemma_scaled_neg(r, a);
    }

    proof fn lemma_extension_scale(r: F, a: F, s: F) {
        F::lemma_scaled_mul(r, a, s);
    }
}

// The field of two elements is far too small for check values, so they are
// kept in its extension of degree 32. The embedding puts the bit into the
// constant coefficient and leaves all other coefficients zero.
impl ExtendableField for Gf2 {
    type ExtendedField = Gf32Bit;

    open spec fn extended(self) -> Gf32Bit {
        Gf32Bit::with_bits(
            if self.bit() {
                1
            } else {
                0
            },
        )
    }

    fn to_extended(&self) -> (r: Gf32Bit) {
        Gf32Bit::new(
            if self.get() {
                1
            } else {
                0
            },
        )
    }

    proof fn lemma_extension_add(r: Gf32Bit, a: Gf2, b: Gf2) {
        lemma_times_bit(r, a);
        lemma_times_bit(r, b);
        lemma_times_bit(r, a.add_spec(b));
        Gf2::lemma_arithmetic(a, b);
        let left = r.mul_spec(a.extended()).add_spec(r.mul_spec(b.extended()));
        let right = r.mul_spec(a.add_spec(b).extended());
        Gf32Bit::lemma_arithmetic(r.mul_spec(a.extended()), r.mul_spec(b.extended()));
        Gf32Bit::lemma_arithmetic(left, right);
        let bits = r.bits();
        assert(bits ^ bits == 0 && bits ^ 0 == bits && 0 ^ bits == bits && 0u32 ^ 0u32 == 0)
            by (bit_vector);
    }

    proof fn lemma_extension_neg(r: Gf32Bit, a: Gf2) {
        Gf2::lemma_arithmetic(a, a);
        Gf2::lemma_arithmetic(a.neg_spec(), a);
        let product = r.mul_spec(a.extended());
        Gf32Bit::lemma_arithmetic(product, product);
        Gf32Bit::lemma_arithmetic(product.neg_spec(), product);
    }

    proof fn lemma_extension_scale(r: Gf32Bit, a: Gf2, s: Gf2) {
        lemma_times_bit(r, a);
        lemma_times_bit(r.mul_spec(a.extended()), s);
        lemma_times_bit(r, a.mul_spec(s));
        Gf2::lemma_arithmetic(a, s);
        let left = r.mul_spec(a.extended()).mul_spec(s.extended());
        let right = r.mul_spec(a.mul_spec(s).extended());
        Gf32Bit::lemma_arithmetic(left, right);
    }
}

/// Multiplying by the image of a bit keeps the other factor or gives zero.
proof fn lemma_times_bit(r: Gf32Bit, a: Gf2)
    ensures
        r.mul_spec(a.extended()).bits() == (if a.bit() {
            r.bits()
        } else {
            0
        }),
{
    Gf32Bit::lemma_arithmetic(r, a.extended());
    Gf32Bit::lemma_arithmetic(a.extended(), r);
    Gf32Bit::lemma_with_bits(1);
    Gf32Bit::lemma_with_bits(0);
    lemma_product_by_bit(r.bits());
}

/// A replicated share of a value `x` together with a replicated share of the
/// check value `r * x`.
#[derive(Clone, Copy, Debug, PartialEq, Eq)]
pub struct AdditiveShare<V: ExtendableField> {
    x: SemiHonestAdditiveShare<V>,
    rx: SemiHonestAdditiveShare<V::ExtendedField>,
}

/// Holds a value that must not be looked at before the shares it comes from
/// have been validated. The only way to the value is a method whose name
/// says what the caller takes upon itself.
#[must_use]
pub struct UnauthorizedDowngradeWrapper<T>(T);

impl<T> UnauthorizedDowngradeWrapper<T> {
    /// What the wrapper holds.
    pub closed spec fn inner(self) -> T {
        self.0
    }

    pub(crate) fn new(v: T) -> (r: UnauthorizedDowngradeWrapper<T>)
        ensures
            r.inner() == v,
    {
        UnauthorizedDowngradeWrapper(v)
    }
}

/// The way to what an `UnauthorizedDowngradeWrapper` holds. Calling it is a
/// statement that the shares have been validated.
pub trait ThisCodeIsAuthorizedToDowngradeFromMalicious<T> {
    /// What `access_without_downgrade` hands out.
    spec fn guarded(self) -> T;

    /// Hands out the guarded value.
    fn access_without_downgrade(self) -> (r: T)
        ensures
            r == self.guarded(),
    ;
}

impl<T> ThisCodeIsAuthorizedToDowngradeFromMalicious<T> for UnauthorizedDowngradeWrapper<T> {
    open spec fn guarded(self) -> T {
        self.inner()
    }

    fn access_without_downgrade(self) -> (r: T) {
        self.0
    }
}

impl<V: ExtendableField> Default for AdditiveShare<V> {
    fn default() -> (r: AdditiveShare<V>)
        ensures
            r.x_spec() == SemiHonestAdditiveShare(V::zero_spec(), V::zero_spec()),
            r.rx_spec() == SemiHonestAdditiveShare(
                V::ExtendedField::zero_spec(),
                V::ExtendedField::zero_spec(),
            ),
    {
        AdditiveShare::new(SemiHonestAdditiveShare::default(), SemiHonestAdditiveShare::default())
    }
}

impl<V: ExtendableField> AdditiveShare<V> {
    /// The share of the value.
    pub closed spec fn x_spec(self) -> SemiHonestAdditiveShare<V> {
        self.x
    }

    /// The share of the check value.
    pub closed spec fn rx_spec(self) -> SemiHonestAdditiveShare<V::ExtendedField> {
        self.rx
    }

    /// The share made of a share of a value and a share of its check value.
    pub closed spec fn from_parts(
        x: SemiHonestAdditiveShare<V>,
        rx: SemiHonestAdditiveShare<V::ExtendedField>,
    ) -> AdditiveShare<V> {
        AdditiveShare { x, rx }
    }

    /// The sum of two shares, part by part.
    pub open spec fn sum(self, rhs: AdditiveShare<V>) -> AdditiveShare<V> {
        Self::from_parts(
            self.x_spec().sum(rhs.x_spec()),
            self.rx_spec().sum(rhs.rx_spec()),
        )
    }

    /// The difference of two shares, part by part.
    pub open spec fn difference(self, rhs: AdditiveShare<V>) -> AdditiveShare<V> {
        Self::from_parts(
            self.x_spec().difference(rhs.x_spec()),
            self.rx_spec().difference(rhs.rx_spec()),
        )
    }

    /// The negation of a share, part by part.
    pub open spec fn negation(self) -> AdditiveShare<V> {
        Self::from_parts(self.x_spec().negation(), self.rx_spec().negation())
    }

    /// The share multiplied by a known field element: the value by the
    /// element, the check value by the element's image in the larger field.
    pub open spec fn scaled(self, rhs: V) -> AdditiveShare<V> {
        Self::from_parts(self.x_spec().scaled(rhs), self.rx_spec().scaled(rhs.extended()))
    }

    /// Every part of the share, of the value and of the check value, is a
    /// canonical field element.
    pub open spec fn canonical(self) -> bool {
        self.x_spec().canonical() && self.rx_spec().canonical()
    }

    /// Negating a share twice gives it back.
    pub proof fn lemma_negation_twice(self)
        requires
            self.canonical(),
        ensures
            self.negation().negation() == self,
    {
        lemma_negation_twice(self.x);
        lemma_negation_twice(self.rx);
    }

    /// A share made of two parts has those parts.
    pub broadcast proof fn lemma_from_parts(
        x: SemiHonestAdditiveShare<V>,
        rx: SemiHonestAdditiveShare<V::ExtendedField>,
    )
        ensures
            (#[trigger] Self::from_parts(x, rx)).x_spec() == x,
            Self::from_parts(x, rx).rx_spec() == rx,
    {
    }

    /// A share is the two shares that it is made of.
    pub proof fn lemma_parts_determine(self, other: AdditiveShare<V>)
        requires
            self.x_spec() == other.x_spec(),
            self.rx_spec() == other.rx_spec(),
        ensures
            self == other,
    {
    }

    /// Puts a share of a value and a share of its check value together.
    pub fn new(x: SemiHonestAdditiveShare<V>, rx: SemiHonestAdditiveShare<V::ExtendedField>) -> (r:
        AdditiveShare<V>)
        ensures
            r.x_spec() == x,
            r.rx_spec() == rx,
    {
        AdditiveShare { x, rx }
    }

    /// The share of the value, guarded.
    pub fn x(&self) -> (r: UnauthorizedDowngradeWrapper<&SemiHonestAdditiveShare<V>>)
        ensures
            *r.inner() == self.x_spec(),
    {
        UnauthorizedDowngradeWrapper(&self.x)
    }

    /// Gives up the check value and keeps the share of the value, guarded.
    pub fn downgrade(self) -> (r: UnauthorizedDowngradeWrapper<SemiHonestAdditiveShare<V>>)
        ensures
            r.inner() == self.x_spec(),
    {
        UnauthorizedDowngradeWrapper(self.x)
    }

    /// The share of the check value.
    pub fn rx(&self) -> (r: &SemiHonestAdditiveShare<V::ExtendedField>)
        ensures
            *r == self.rx_spec(),
    {
        &self.rx
    }

    /// A share of zero, with zero as its check value.
    pub fn zero() -> (r: AdditiveShare<V>)
        ensures
            r.x_spec() == SemiHonestAdditiveShare(V::zero_spec(), V::zero_spec()),
            r.rx_spec() == SemiHonestAdditiveShare(
                V::ExtendedField::zero_spec(),
                V::ExtendedField::zero_spec(),
            ),
    {
        AdditiveShare { x: SemiHonestAdditiveShare::zero(), rx: SemiHonestAdditiveShare::zero() }
    }

    /// Adds `rhs` to the share in place.
    pub fn add_assign(&mut self, rhs: &AdditiveShare<V>)
        ensures
            final(self).x_spec() == old(self).x_spec().sum(rhs.x_spec()),
            final(self).rx_spec() == old(self).rx_spec().sum(rhs.rx_spec()),
    {
        self.x = self.x.add(&rhs.x);
        self.rx = self.rx.add(&rhs.rx);
    }

    /// Subtracts `rhs` from the share in place.
    pub fn sub_assign(&mut self, rhs: &AdditiveShare<V>)
        ensures
            final(self).x_spec() == old(self).x_spec().difference(rhs.x_spec()),
            final(self).rx_spec() == old(self).rx_spec().difference(rhs.rx_spec()),
    {
        self.x = self.x.sub(&rhs.x);
        self.rx = self.rx.sub(&rhs.rx);
    }
}

impl<'a, V: ExtendableField> Add<&'a AdditiveShare<V>> for AdditiveShare<V> {
    type Output = AdditiveShare<V>;

    fn add(self, rhs: &'a AdditiveShare<V>) -> (r: AdditiveShare<V>)
        ensures
            r.x_spec() == self.x_spec().sum(rhs.x_spec()),
            r.rx_spec() == self.rx_spec().sum(rhs.rx_spec()),
    {
        let mut sum = self;
        sum.add_assign(rhs);
        sum
    }
}

impl<'a, V: ExtendableField> vstd::std_specs::ops::AddSpecImpl<&'a AdditiveShare<V>> for AdditiveShare<V> {
    open spec fn obeys_add_spec() -> bool {
        true
    }

    open spec fn add_req(self, rhs: &'a AdditiveShare<V>) -> bool {
        true
    }

    open spec fn add_spec(self, rhs: &'a AdditiveShare<V>) -> AdditiveShare<V> {
        self.sum(*rhs)
    }
}

impl<V: ExtendableField> Neg for AdditiveShare<V> {
    type Output = AdditiveShare<V>;

    fn neg(self) -> (r: AdditiveShare<V>)
        ensures
            r.x_spec() == self.x_spec().negation(),
            r.rx_spec() == self.rx_spec().negation(),
    {
        AdditiveShare { x: self.x.neg(), rx: self.rx.neg() }
    }
}

impl<V: ExtendableField> vstd::std_specs::ops::NegSpecImpl for AdditiveShare<V> {
    open spec fn obeys_neg_spec() -> bool {
        true
    }

    open spec fn neg_req(self) -> bool {
        true
    }

    open spec fn neg_spec(self) -> AdditiveShare<V> {
        self.negation()
    }
}

impl<'a, V: ExtendableField> Sub<&'a AdditiveShare<V>> for AdditiveShare<V> {
    type Output = AdditiveShare<V>;

    fn sub(self, rhs: &'a AdditiveShare<V>) -> (r: AdditiveShare<V>)
        ensures
            r.x_spec() == self.x_spec().difference(rhs.x_spec()),
            r.rx_spec() == self.rx_spec().difference(rhs.rx_spec()),
    {
        let mut difference = self;
        difference.sub_assign(rhs);
        difference
    }
}

impl<'a, V: ExtendableField> vstd::std_specs::ops::SubSpecImpl<&'a AdditiveShare<V>> for AdditiveShare<V> {
    open spec fn obeys_sub_spec() -> bool {
        true
    }

    open spec fn sub_req(self, rhs: &'a AdditiveShare<V>) -> bool {
        true
    }

    open spec fn sub_spec(self, rhs: &'a AdditiveShare<V>) -> AdditiveShare<V> {
        self.difference(*rhs)
    }
}

impl<V: ExtendableField> Mul<V> for AdditiveShare<V> {
    type Output = AdditiveShare<V>;

    fn mul(self, rhs: V) -> (r: AdditiveShare<V>)
        ensures
            r.x_spec() == self.x_spec().scaled(rhs),
            r.rx_spec() == self.rx_spec().scaled(rhs.extended()),
    {
        AdditiveShare { x: self.x.mul(rhs), rx: self.rx.mul(rhs.to_extended()) }
    }
}

impl<V: ExtendableField> vstd::std_specs::ops::MulSpecImpl<V> for AdditiveShare<V> {
    open spec fn obeys_mul_spec() -> bool {
        true
    }

    open spec fn mul_req(self, rhs: V) -> bool {
        true
    }

    open spec fn mul_spec(self, rhs: V) -> AdditiveShare<V> {
        self.scaled(rhs)
    }
}

impl<V: ExtendableField> Serializable for AdditiveShare<V> {
    open spec fn size_spec() -> nat {
        SemiHonestAdditiveShare::<V>::size_spec() + SemiHonestAdditiveShare::<
            V::ExtendedField,
        >::size_spec()
    }

    open spec fn to_bytes(self) -> Seq<u8> {
        self.x_spec().to_bytes() + self.rx_spec().to_bytes()
    }

    open spec fn from_bytes(bytes: Seq<u8>) -> AdditiveShare<V> {
        Self::from_parts(
            SemiHonestAdditiveShare::<V>::from_bytes(
                bytes.subrange(0, SemiHonestAdditiveShare::<V>::size_spec() as int),
            ),
            SemiHonestAdditiveShare::<V::ExtendedField>::from_bytes(
                bytes.subrange(
                    SemiHonestAdditiveShare::<V>::size_spec() as int,
                    (SemiHonestAdditiveShare::<V>::size_spec() + SemiHonestAdditiveShare::<
                        V::ExtendedField,
                    >::size_spec()) as int,
                ),
            ),
        )
    }

    open spec fn restorable(self) -> bool {
        self.x_spec().restorable() && self.rx_spec().restorable()
    }

    fn size() -> (r: usize) {
        proof {
            V::lemma_width();
            V::ExtendedField::lemma_width();
        }
        SemiHonestAdditiveShare::<V>::size() + SemiHonestAdditiveShare::<V::ExtendedField>::size()
    }

    fn serialize(&self, buf: &mut [u8]) {
        proof {
            V::lemma_width();
            V::ExtendedField::lemma_width();
        }
        let (left, right) = buf.split_at_mut(SemiHonestAdditiveShare::<V>::size());
        self.x.serialize(left);
        self.rx.serialize(right);
    }

    fn deserialize(buf: &[u8]) -> (r: AdditiveShare<V>) {
        proof {
            V::lemma_width();
            V::ExtendedField::lemma_width();
        }
        let width = SemiHonestAdditiveShare::<V>::size();
        let whole = width + SemiHonestAdditiveShare::<V::ExtendedField>::size();
        let x = SemiHonestAdditiveShare::<V>::deserialize(&buf[0..width]);
        let rx = SemiHonestAdditiveShare::<V::ExtendedField>::deserialize(&buf[width..whole]);
        AdditiveShare { x, rx }
    }

    proof fn lemma_round_trip(v: AdditiveShare<V>) {
        SemiHonestAdditiveShare::<V>::lemma_round_trip(v.x);
        SemiHonestAdditiveShare::<V::ExtendedField>::lemma_round_trip(v.rx);
        let bytes = v.to_bytes();
        let width = SemiHonestAdditiveShare::<V>::size_spec() as int;
        let whole = width + SemiHonestAdditiveShare::<V::ExtendedField>::size_spec();
        assert(bytes.subrange(0, width) =~= v.x.to_bytes());
        assert(bytes.subrange(width, whole) =~= v.rx.to_bytes());
    }
}

/// A value that leaves the protection of check values behind when a
/// protocol is done. The result is guarded: it is meant to be opened only
/// after the shares have been validated.
pub trait Downgrade: Sized {
    /// What is left without check values.
    type Target;

    /// `target` is `self` without its check values.
    spec fn downgrades_to(self, target: Self::Target) -> bool;

    /// Drops the check values.
    fn downgrade(self) -> (r: UnauthorizedDowngradeWrapper<Self::Target>)
        ensures
            self.downgrades_to(r.inner()),
    ;
}

impl<F: ExtendableField> Downgrade for AdditiveShare<F> {
    type Target = SemiHonestAdditiveShare<F>;

    open spec fn downgrades_to(self, target: SemiHonestAdditiveShare<F>) -> bool {
        target == self.x_spec()
    }

    fn downgrade(self) -> (r: UnauthorizedDowngradeWrapper<SemiHonestAdditiveShare<F>>) {
        UnauthorizedDowngradeWrapper(self.x)
    }
}

impl<F: ExtendableField> Downgrade for SemiHonestAdditiveShare<F> {
    type Target = SemiHonestAdditiveShare<F>;

    open spec fn downgrades_to(self, target: SemiHonestAdditiveShare<F>) -> bool {
        target == self
    }

    fn downgrade(self) -> (r: UnauthorizedDowngradeWrapper<SemiHonestAdditiveShare<F>>) {
        UnauthorizedDowngradeWrapper(self)
    }
}

impl<T, U> Downgrade for (T, U) where T: Downgrade, U: Downgrade {
    type Target = (<T>::Target, <U>::Target);

    open spec fn downgrades_to(self, target: (<T>::Target, <U>::Target)) -> bool {
        self.0.downgrades_to(target.0) && self.1.downgrades_to(target.1)
    }

    fn downgrade(self) -> (r: UnauthorizedDowngradeWrapper<(<T>::Target, <U>::Target)>) {
        let first = self.0.downgrade();
        let second = self.1.downgrade();
        UnauthorizedDowngradeWrapper(
            (first.access_without_downgrade(), second.access_without_downgrade()),
        )
    }
}

/// Drops the check values of every element of a list, in order.
fn downgrade_all<T: Downgrade>(values: Vec<T>) -> (r: Vec<T::Target>)
    ensures
        r@.len() == values@.len(),
        forall|i: int| 0 <= i < values@.len() ==> (#[trigger] values@[i]).downgrades_to(r@[i]),
{
    let mut result: Vec<T::Target> = Vec::new();
    for v in it: values.into_iter()
        invariant
            it.seq() == values@,
            result@.len() == it.index(),
            forall|i: int| 0 <= i < it.index() ==> (#[trigger] values@[i]).downgrades_to(result@[i]),
    {
        result.push(v.downgrade().access_without_downgrade());
    }
    result
}

impl<T> Downgrade for BitDecomposed<T> where T: Downgrade {
    type Target = BitDecomposed<<T as Downgrade>::Target>;

    open spec fn downgrades_to(self, target: BitDecomposed<<T as Downgrade>::Target>) -> bool {
        &&& target@.len() == self@.len()
        &&& forall|i: int| 0 <= i < self@.len() ==> (#[trigger] self@[i]).downgrades_to(target@[i])
    }

    fn downgrade(self) -> (r: UnauthorizedDowngradeWrapper<BitDecomposed<<T as Downgrade>::Target>>) {
        UnauthorizedDowngradeWrapper(BitDecomposed::new(downgrade_all(self.into_bits())))
    }
}

impl<T> Downgrade for Vec<T> where T: Downgrade {
    type Target = Vec<<T as Downgrade>::Target>;

    open spec fn downgrades_to(self, target: Vec<<T as Downgrade>::Target>) -> bool {
        &&& target@.len() == self@.len()
        &&& forall|i: int| 0 <= i < self@.len() ==> (#[trigger] self@[i]).downgrades_to(target@[i])
    }

    fn downgrade(self) -> (r: UnauthorizedDowngradeWrapper<Vec<<T as Downgrade>::Target>>) {
        UnauthorizedDowngradeWrapper(downgrade_all(self))
    }
}

/// The three shares `m0`, `m1` and `m2` are what the helpers hold of the
/// value `v` under the randomisation constant `r`: their value parts fit
/// together and stand for `v`, and their check parts fit together and stand
/// for `r * v`, with `v` taken into the larger field.
pub open spec fn is_checked_sharing_of<V: ExtendableField>(
    m0: AdditiveShare<V>,
    m1: AdditiveShare<V>,
    m2: AdditiveShare<V>,
    v: V,
    r: V::ExtendedField,
) -> bool {
    &&& consistent(m0.x_spec(), m1.x_spec(), m2.x_spec())
    &&& reconstruction(m0.x_spec(), m1.x_spec(), m2.x_spec()) == v
    &&& consistent(m0.rx_spec(), m1.rx_spec(), m2.rx_spec())
    &&& reconstruction(m0.rx_spec(), m1.rx_spec(), m2.rx_spec()) == r.mul_spec(v.extended())
}

/// Addition commutes with reconstruction: when every helper adds its shares
/// of `va` and `vb`, the helpers hold `va + vb`, with the check value that
/// belongs to it.
pub proof fn lemma_sum_is_checked_sharing<V: ExtendableField>(
    a0: AdditiveShare<V>,
    a1: AdditiveShare<V>,
    a2: AdditiveShare<V>,
    b0: AdditiveShare<V>,
    b1: AdditiveShare<V>,
    b2: AdditiveShare<V>,
    va: V,
    vb: V,
    r: V::ExtendedField,
)
    requires
        is_checked_sharing_of(a0, a1, a2, va, r),
        is_checked_sharing_of(b0, b1, b2, vb, r),
    ensures
        is_checked_sharing_of(a0.sum(b0), a1.sum(b1), a2.sum(b2), va.add_spec(vb), r),
{
    lemma_add_reconstructs(a0.x, a1.x, a2.x, b0.x, b1.x, b2.x);
    lemma_add_reconstructs(a0.rx, a1.rx, a2.rx, b0.rx, b1.rx, b2.rx);
    V::lemma_extension_add(r, va, vb);
}

/// Negation commutes with reconstruction.
pub proof fn lemma_negation_is_checked_sharing<V: ExtendableField>(
    a0: AdditiveShare<V>,
    a1: AdditiveShare<V>,
    a2: AdditiveShare<V>,
    va: V,
    r: V::ExtendedField,
)
    requires
        is_checked_sharing_of(a0, a1, a2, va, r),
    ensures
        is_checked_sharing_of(a0.negation(), a1.negation(), a2.negation(), va.neg_spec(), r),
{
    lemma_neg_reconstructs(a0.x, a1.x, a2.x);
    lemma_neg_reconstructs(a0.rx, a1.rx, a2.rx);
    V::lemma_extension_neg(r, va);
}

/// Subtraction commutes with reconstruction.
pub proof fn lemma_difference_is_checked_sharing<V: ExtendableField>(
    a0: AdditiveShare<V>,
    a1: AdditiveShare<V>,
    a2: AdditiveShare<V>,
    b0: AdditiveShare<V>,
    b1: AdditiveShare<V>,
    b2: AdditiveShare<V>,
    va: V,
    vb: V,
    r: V::ExtendedField,
)
    requires
        is_checked_sharing_of(a0, a1, a2, va, r),
        is_checked_sharing_of(b0, b1, b2, vb, r),
    ensures
        is_checked_sharing_of(
            a0.difference(b0),
            a1.difference(b1),
            a2.difference(b2),
            va.sub_spec(vb),
            r,
        ),
{
    lemma_sub_reconstructs(a0.x, a1.x, a2.x, b0.x, b1.x, b2.x);
    lemma_sub_reconstructs(a0.rx, a1.rx, a2.rx, b0.rx, b1.rx, b2.rx);
    V::ExtendedField::lemma_sub_is_add_neg(r.mul_spec(va.extended()), r.mul_spec(vb.extended()));
    V::lemma_extension_neg(r, vb);
    V::lemma_extension_add(r, va, vb.neg_spec());
    V::lemma_sub_is_add_neg(va, vb);
}

/// Multiplication by a known field element commutes with reconstruction.
pub proof fn lemma_scaled_is_checked_sharing<V: ExtendableField>(
    a0: AdditiveShare<V>,
    a1: AdditiveShare<V>,
    a2: AdditiveShare<V>,
    va: V,
    s: V,
    r: V::ExtendedField,
)
    requires
        is_checked_sharing_of(a0, a1, a2, va, r),
    ensures
        is_checked_sharing_of(a0.scaled(s), a1.scaled(s), a2.scaled(s), va.mul_spec(s), r),
{
    lemma_scale_reconstructs(a0.x, a1.x, a2.x, s);
    lemma_scale_reconstructs(a0.rx, a1.rx, a2.rx, s.extended());
    V::lemma_extension_scale(r, va, s);
}

/// An arithmetic expression over shared values: the operations that a
/// helper can carry out on its shares without talking to the others.
pub enum Expression<V> {
    /// The input with the given number.
    Input(nat),
    /// The sum of two expressions.
    Sum(Box<Expression<V>>, Box<Expression<V>>),
    /// The difference of two expressions.
    Difference(Box<Expression<V>>, Box<Expression<V>>),
    /// The negation of an expression.
    Negation(Box<Expression<V>>),
    /// The product of an expression and a known field element.
    Scaled(Box<Expression<V>>, V),
}

impl<V: ExtendableField> Expression<V> {
    /// Every input that the expression names is among the first `n`.
    pub open spec fn uses_inputs_below(self, n: nat) -> bool
        decreases self,
    {
        match self {
            Expression::Input(i) => i < n,
            Expression::Sum(a, b) => a.uses_inputs_below(n) && b.uses_inputs_below(n),
            Expression::Difference(a, b) => a.uses_inputs_below(n) && b.uses_inputs_below(n),
            Expression::Negation(a) => a.uses_inputs_below(n),
            Expression::Scaled(a, _) => a.uses_inputs_below(n),
        }
    }

    /// The value of the expression for given values of the inputs.
    pub open spec fn value(self, inputs: Seq<V>) -> V
        decreases self,
    {
        match self {
            Expression::Input(i) => inputs[i as int],
            Expression::Sum(a, b) => a.value(inputs).add_spec(b.value(inputs)),
            Expression::Difference(a, b) => a.value(inputs).sub_spec(b.value(inputs)),
            Expression::Negation(a) => a.value(inputs).neg_spec(),
            Expression::Scaled(a, s) => a.value(inputs).mul_spec(s),
        }
    }

    /// What one helper computes for the expression from its shares of the
    /// inputs.
    pub open spec fn on_shares(self, inputs: Seq<AdditiveShare<V>>) -> AdditiveShare<V>
        decreases self,
    {
        match self {
            Expression::Input(i) => inputs[i as int],
            Expression::Sum(a, b) => a.on_shares(inputs).sum(b.on_shares(inputs)),
            Expression::Difference(a, b) => a.on_shares(inputs).difference(b.on_shares(inputs)),
            Expression::Negation(a) => a.on_shares(inputs).negation(),
            Expression::Scaled(a, s) => a.on_shares(inputs).scaled(s),
        }
    }

    /// Share arithmetic commutes with reconstruction: when each helper
    /// evaluates an expression on its shares of the inputs, the three
    /// results are what the helpers hold of the expression's value, with the
    /// check value that belongs to it.
    pub proof fn lemma_commutes_with_reconstruction(
        self,
        values: Seq<V>,
        shares0: Seq<AdditiveShare<V>>,
        shares1: Seq<AdditiveShare<V>>,
        shares2: Seq<AdditiveShare<V>>,
        r: V::ExtendedField,
    )
        requires
            self.uses_inputs_below(values.len()),
            shares0.len() == values.len(),
            shares1.len() == values.len(),
            shares2.len() == values.len(),
            forall|i: int|
                0 <= i < values.len() ==> is_checked_sharing_of(
                    shares0[i],
                    shares1[i],
                    shares2[i],
                    #[trigger] values[i],
                    r,
                ),
        ensures
            is_checked_sharing_of(
                self.on_shares(shares0),
                self.on_shares(shares1),
                self.on_shares(shares2),
                self.value(values),
                r,
            ),
        decreases self,
    {
        match self {
            Expression::Input(i) => {
                assert(is_checked_sharing_of(
                    shares0[i as int],
                    shares1[i as int],
                    shares2[i as int],
                    values[i as int],
                    r,
                ));
            },
            Expression::Sum(a, b) => {
                a.lemma_commutes_with_reconstruction(values, shares0, shares1, shares2, r);
                b.lemma_commutes_with_reconstruction(values, shares0, shares1, shares2, r);
                lemma_sum_is_checked_sharing(
                    a.on_shares(shares0),
                    a.on_shares(shares1),
                    a.on_shares(shares2),
                    b.on_shares(shares0),
                    b.on_shares(shares1),
                    b.on_shares(shares2),
                    a.value(values),
                    b.value(values),
                    r,
                );
            },
            Expression::Difference(a, b) => {
                a.lemma_commutes_with_reconstruction(values, shares0, shares1, shares2, r);
                b.lemma_commutes_with_reconstruction(values, shares0, shares1, shares2, r);
                lemma_difference_is_checked_sharing(
                    a.on_shares(shares0),
                    a.on_shares(shares1),
                    a.on_shares(shares2),
                    b.on_shares(shares0),
                    b.on_shares(shares1),
                    b.on_shares(shares2),
                    a.value(values),
                    b.value(values),
                    r,
                );
            },
            Expression::Negation(a) => {
                a.lemma_commutes_with_reconstruction(values, shares0, shares1, shares2, r);
                lemma_negation_is_checked_sharing(
                    a.on_shares(shares0),
                    a.on_shares(shares1),
                    a.on_shares(shares2),
                    a.value(values),
                    r,
                );
            },
            Expression::Scaled(a, s) => {
                a.lemma_commutes_with_reconstruction(values, shares0, shares1, shares2, r);
                lemma_scaled_is_checked_sharing(
                    a.on_shares(shares0),
                    a.on_shares(shares1),
                    a.on_shares(shares2),
                    a.value(values),
                    s,
                    r,
                );
            },
        }
    }
}

} // verus!
