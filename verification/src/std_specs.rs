//! Specifications of functions of the standard library that the library
//! relies on.

use vstd::prelude::*;

verus! {

/// `Vec::from` on an array moves the elements into a vector, in order.
pub assume_specification<T, const N: usize>[ <Vec<T> as From<[T; N]>>::from ](a: [T; N]) -> (v:
    Vec<T>)
    ensures
        v@ == a@,
;

} // verus!
