//! Putting shares back together, for checking what a computation produced.

use crate::ff::Field;
use crate::secret_sharing::replicated::semi_honest::{consistent, reconstruction, AdditiveShare};
use vstd::prelude::*;
use vstd::std_specs::ops::AddSpec;

verus! {

/// Three shares, one of each helper, that can be put back together to a
/// value of type `T`.
pub trait Reconstruct<T> {
    /// The shares fit together.
    spec fn well_shared(&self) -> bool;

    /// The value that the shares stand for.
    spec fn reconstructed(&self) -> T;

    /// Puts shares that fit together back together.
    fn reconstruct(&self) -> (r: T)
        requires
            self.well_shared(),
        ensures
            r == self.reconstructed(),
    ;

    /// Puts the shares back together if they fit together.
    fn try_reconstruct(&self) -> (r: Option<T>)
        ensures
            self.well_shared() ==> r == Some(self.reconstructed()),
            !self.well_shared() ==> r is None,
    ;
}

/// Whether two field elements are the same.
fn same<V: Field>(a: V, b: V) -> (r: bool)
    ensures
        r == (a == b),
{
    let r = a.as_u128() == b.as_u128();
    proof {
        if r {
            V::lemma_representation(a, b);
        }
    }
    r
}

/// Whether the shares of the three helpers fit together.
fn fit_together<V: Field>(s0: &AdditiveShare<V>, s1: &AdditiveShare<V>, s2: &AdditiveShare<V>) -> (r:
    bool)
    ensures
        r == consistent(*s0, *s1, *s2),
{
    same(s0.right(), s1.left()) && same(s1.right(), s2.left()) && same(s2.right(), s0.left())
}

/// The sum of the left parts of three shares.
fn sum_of_parts<V: Field>(s0: &AdditiveShare<V>, s1: &AdditiveShare<V>, s2: &AdditiveShare<V>) -> (r:
    V)
    ensures
        r == reconstruction(*s0, *s1, *s2),
{
    proof {
        V::lemma_operators(s0.0, s1.0);
        V::lemma_operators(s0.0.add_spec(s1.0), s2.0);
    }
    s0.left() + s1.left() + s2.left()
}

impl<V: Field> Reconstruct<V> for [AdditiveShare<V>; 3] {
    open spec fn well_shared(&self) -> bool {
        consistent(self[0], self[1], self[2])
    }

    open spec fn reconstructed(&self) -> V {
        reconstruction(self[0], self[1], self[2])
    }

    fn reconstruct(&self) -> (r: V) {
        sum_of_parts(&self[0], &self[1], &self[2])
    }

    fn try_reconstruct(&self) -> (r: Option<V>) {
        if fit_together(&self[0], &self[1], &self[2]) {
            Some(sum_of_parts(&self[0], &self[1], &self[2]))
        } else {
            None
        }
    }
}

impl<'a, V: Field> Reconstruct<V> for [&'a AdditiveShare<V>; 3] {
    open spec fn well_shared(&self) -> bool {
        consistent(*self[0], *self[1], *self[2])
    }

    open spec fn reconstructed(&self) -> V {
        reconstruction(*self[0], *self[1], *self[2])
    }

    fn reconstruct(&self) -> (r: V) {
        sum_of_parts(self[0], self[1], self[2])
    }

    fn try_reconstruct(&self) -> (r: Option<V>) {
        if fit_together(self[0], self[1], self[2]) {
            Some(sum_of_parts(self[0], self[1], self[2]))
        } else {
            None
        }
    }
}

impl<V: Field, W: Field> Reconstruct<(V, W)> for [(AdditiveShare<V>, AdditiveShare<W>); 3] {
    open spec fn well_shared(&self) -> bool {
        consistent(self[0].0, self[1].0, self[2].0) && consistent(self[0].1, self[1].1, self[2].1)
    }

    open spec fn reconstructed(&self) -> (V, W) {
        (
            reconstruction(self[0].0, self[1].0, self[2].0),
            reconstruction(self[0].1, self[1].1, self[2].1),
        )
    }

    fn reconstruct(&self) -> (r: (V, W)) {
        (
            sum_of_parts(&self[0].0, &self[1].0, &self[2].0),
            sum_of_parts(&self[0].1, &self[1].1, &self[2].1),
        )
    }

    fn try_reconstruct(&self) -> (r: Option<(V, W)>) {
        if fit_together(&self[0].0, &self[1].0, &self[2].0) && fit_together(
            &self[0].1,
            &self[1].1,
            &self[2].1,
        ) {
            Some(self.reconstruct())
        } else {
            None
        }
    }
}

} // verus!
