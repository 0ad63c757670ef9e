//! The keys with which this helper opens encrypted reports.

use vstd::prelude::*;

verus! {

/// A key pair in serialised form.
#[derive(Debug)]
pub struct KeyPair {
    pub public_key: Vec<u8>,
    pub secret_key: Vec<u8>,
}

/// The key pairs of this helper, in the order of their identifiers.
#[derive(Debug)]
pub struct KeyRegistry {
    keys: Vec<KeyPair>,
}

impl View for KeyRegistry {
    type V = Seq<KeyPair>;

    closed spec fn view(&self) -> Seq<KeyPair> {
        self.keys@
    }
}

impl KeyRegistry {
    /// A registry without keys.
    pub fn empty() -> (r: KeyRegistry)
        ensures
            r@ == Seq::<KeyPair>::empty(),
    {
        KeyRegistry { keys: Vec::new() }
    }

    /// A registry that holds `keys`; the position of a pair is its
    /// identifier.
    pub fn from_keys(keys: Vec<KeyPair>) -> (r: KeyRegistry)
        ensures
            r@ == keys@,
    {
        KeyRegistry { keys }
    }

    /// Number of key pairs.
    pub fn len(&self) -> (r: usize)
        ensures
            r == self@.len(),
    {
        self.keys.len()
    }

    /// The key pair with identifier `id`, if there is one.
    pub fn get(&self, id: usize) -> (r: Option<&KeyPair>)
        ensures
            id < self@.len() ==> r == Some(&self@[id as int]),
            id >= self@.len() ==> r is None,
    {
        if id < self.keys.len() {
            Some(&self.keys[id])
        } else {
            None
        }
    }
}

} // verus!
