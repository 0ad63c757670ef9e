//! Values held bit by bit.

use vstd::prelude::*;

verus! {

/// A value that is held as the list of its bits, least significant first,
/// each bit in a form of its own (in the clear, or as a share).
#[derive(Clone, Debug, PartialEq, Eq)]
pub struct BitDecomposed<T> {
    bits: Vec<T>,
}

impl<T> View for BitDecomposed<T> {
    type V = Seq<T>;

    closed spec fn view(&self) -> Seq<T> {
        self.bits@
    }
}

impl<T> BitDecomposed<T> {
    /// The value with the given bits.
    pub fn new(bits: Vec<T>) -> (r: BitDecomposed<T>)
        ensures
            r@ == bits@,
    {
        BitDecomposed { bits }
    }

    /// Number of bits.
    pub fn len(&self) -> (r: usize)
        ensures
            r == self@.len(),
    {
        self.bits.len()
    }

    /// The bit at position `i`.
    pub fn get(&self, i: usize) -> (r: Option<&T>)
        ensures
            i < self@.len() ==> r == Some(&self@[i as int]),
            i >= self@.len() ==> r is None,
    {
        if i < self.bits.len() {
            Some(&self.bits[i])
        } else {
            None
        }
    }

    /// Gives the bits back.
    pub fn into_bits(self) -> (r: Vec<T>)
        ensures
            r@ == self@,
    {
        self.bits
    }
}

} // verus!
