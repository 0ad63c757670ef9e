//! Splitting a value into the shares of the three helpers.

use crate::ff::Field;
use crate::rng::RandomSource;
use crate::secret_sharing::decomposed::BitDecomposed;
use crate::secret_sharing::replicated::semi_honest::{consistent, reconstruction, AdditiveShare};
use vstd::prelude::*;
use vstd::std_specs::ops::{AddSpec, SubSpec};

verus! {

/// A value that can be split into three shares of type `T`, one for each
/// helper.
pub trait IntoShares<T>: Sized {
    /// The three shares `s0`, `s1` and `s2` are a sharing of `self`.
    spec fn shared_as(self, s0: T, s1: T, s2: T) -> bool;

    /// Splits the value with the randomness of the current thread.
    fn share(self) -> (r: [T; 3])
        ensures
            self.shared_as(r[0], r[1], r[2]),
    {
        let mut rng = rand::thread_rng();
        self.share_with(&mut rng)
    }

    /// Splits the value with randomness drawn from `rng`.
    fn share_with<R: RandomSource>(self, rng: &mut R) -> (r: [T; 3])
        ensures
            self.shared_as(r[0], r[1], r[2]),
    ;
}

/// Takes the three shares of one value apart.
fn unpack<T>(shares: [T; 3]) -> (r: (T, T, T))
    ensures
        r.0 == shares[0],
        r.1 == shares[1],
        r.2 == shares[2],
{
    let mut v: Vec<T> = Vec::from(shares);
    let s2 = v.pop().unwrap();
    let s1 = v.pop().unwrap();
    let s0 = v.pop().unwrap();
    (s0, s1, s2)
}

/// Splits every value of a list. The result holds, for each helper, the list
/// of that helper's shares, in the order of the values.
pub fn vec_shares<U, T, R>(values: Vec<U>, rng: &mut R) -> (r: [Vec<T>; 3]) where
    U: IntoShares<T>,
    R: RandomSource,

    ensures
        r[0]@.len() == values@.len(),
        r[1]@.len() == values@.len(),
        r[2]@.len() == values@.len(),
        forall|i: int|
            0 <= i < values@.len() ==> (#[trigger] values@[i]).shared_as(
                r[0]@[i],
                r[1]@[i],
                r[2]@[i],
            ),
{
    let mut i0: Vec<T> = Vec::new();
    let mut i1: Vec<T> = Vec::new();
    let mut i2: Vec<T> = Vec::new();
    for v in it: values.into_iter()
        invariant
            it.seq() == values@,
            i0@.len() == it.index(),
            i1@.len() == it.index(),
            i2@.len() == it.index(),
            forall|i: int|
                0 <= i < it.index() ==> (#[trigger] values@[i]).shared_as(i0@[i], i1@[i], i2@[i]),
    {
        let (v0, v1, v2) = unpack(v.share_with(rng));
        i0.push(v0);
        i1.push(v1);
        i2.push(v2);
    }
    [i0, i1, i2]
}

impl<U, T> IntoShares<Vec<T>> for Vec<U> where U: IntoShares<T> {
    open spec fn shared_as(self, s0: Vec<T>, s1: Vec<T>, s2: Vec<T>) -> bool {
        &&& s0@.len() == self@.len()
        &&& s1@.len() == self@.len()
        &&& s2@.len() == self@.len()
        &&& forall|i: int|
            0 <= i < self@.len() ==> (#[trigger] self@[i]).shared_as(s0@[i], s1@[i], s2@[i])
    }

    fn share_with<R: RandomSource>(self, rng: &mut R) -> (r: [Vec<T>; 3]) {
        vec_shares(self, rng)
    }
}

impl<U, T> IntoShares<BitDecomposed<T>> for BitDecomposed<U> where U: IntoShares<T> {
    open spec fn shared_as(
        self,
        s0: BitDecomposed<T>,
        s1: BitDecomposed<T>,
        s2: BitDecomposed<T>,
    ) -> bool {
        &&& s0@.len() == self@.len()
        &&& s1@.len() == self@.len()
        &&& s2@.len() == self@.len()
        &&& forall|i: int|
            0 <= i < self@.len() ==> (#[trigger] self@[i]).shared_as(s0@[i], s1@[i], s2@[i])
    }

    fn share_with<R: RandomSource>(self, rng: &mut R) -> (r: [BitDecomposed<T>; 3]) {
        let (b0, b1, b2) = unpack(vec_shares(self.into_bits(), rng));
        [BitDecomposed::new(b0), BitDecomposed::new(b1), BitDecomposed::new(b2)]
    }
}

impl IntoShares<()> for () {
    open spec fn shared_as(self, s0: (), s1: (), s2: ()) -> bool {
        true
    }

    fn share_with<R: RandomSource>(self, rng: &mut R) -> (r: [(); 3]) {
        [(), (), ()]
    }
}

impl<T, U, V, W> IntoShares<(T, U)> for (V, W) where V: IntoShares<T>, W: IntoShares<U> {
    open spec fn shared_as(self, s0: (T, U), s1: (T, U), s2: (T, U)) -> bool {
        self.0.shared_as(s0.0, s1.0, s2.0) && self.1.shared_as(s0.1, s1.1, s2.1)
    }

    fn share_with<R: RandomSource>(self, rng: &mut R) -> (r: [(T, U); 3]) {
        let (a0, a1, a2) = unpack(self.0.share_with(rng));
        let (b0, b1, b2) = unpack(self.1.share_with(rng));
        [(a0, b0), (a1, b1), (a2, b2)]
    }
}

impl<V: Field> IntoShares<AdditiveShare<V>> for V {
    open spec fn shared_as(
        self,
        s0: AdditiveShare<V>,
        s1: AdditiveShare<V>,
        s2: AdditiveShare<V>,
    ) -> bool {
        &&& consistent(s0, s1, s2)
        &&& reconstruction(s0, s1, s2) == self
        &&& s0.canonical() && s1.canonical() && s2.canonical()
    }

    fn share_with<R: RandomSource>(self, rng: &mut R) -> (r: [AdditiveShare<V>; 3]) {
        let x1 = V::truncate_from(rng.next_u128());
        let x2 = V::truncate_from(rng.next_u128());
        let _ = self.as_u128();
        proof {
            V::lemma_operators(x1, x2);
            V::lemma_operators(self, x1.add_spec(x2));
            V::lemma_sub_cancel(x1.add_spec(x2), self);
        }
        let x3 = self - (x1 + x2);
        [AdditiveShare::new(x1, x2), AdditiveShare::new(x2, x3), AdditiveShare::new(x3, x1)]
    }
}

} // verus!
