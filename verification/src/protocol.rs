//! Identifiers shared by every layer of the service.

use vstd::prelude::*;
use vstd::std_specs::convert::FromSpecImpl;

verus! {

/// Names a query. A helper runs one query at a time, so the identifier has a
/// single value; every table is still keyed by it.
#[derive(Clone, Copy, Debug, PartialEq, Eq, Hash, Structural)]
pub struct QueryId;

/// Position of a record on one channel. Records are numbered from zero in the
/// order in which they are sent.
#[derive(Clone, Copy, Debug, PartialEq, Eq, Hash, Structural)]
pub struct RecordId(pub u32);

impl RecordId {
    /// The first record of every channel.
    pub fn first() -> (r: RecordId)
        ensures
            r == RecordId(0),
    {
        RecordId(0)
    }

    /// The record's position as a mathematical integer.
    pub open spec fn index(self) -> nat {
        self.0 as nat
    }

    /// The record's position.
    pub fn as_u32(self) -> (r: u32)
        ensures
            r == self.0,
    {
        self.0
    }
}

impl From<u32> for RecordId {
    fn from(v: u32) -> (r: RecordId) {
        RecordId(v)
    }
}

impl FromSpecImpl<u32> for RecordId {
    open spec fn obeys_from_spec() -> bool {
        true
    }

    open spec fn from_spec(v: u32) -> RecordId {
        RecordId(v)
    }
}

} // verus!
