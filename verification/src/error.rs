//! Failures of a running computation.

use vstd::prelude::*;

verus! {

/// Why the execution of a query came to nothing.
#[derive(Clone, Copy, Debug, PartialEq, Eq, Structural)]
pub enum Error {
    /// The computation failed for a reason of its own.
    Internal,
    /// A validation step found that a helper deviated from the protocol.
    MaliciousSecurityCheckFailed,
    /// The input did not hold a whole number of records.
    MalformedInput,
    /// The task that ran the query went away without leaving a result.
    ExecutorStopped,
}

} // verus!
