//! Waiting for the end of a running query.

use crate::protocol::QueryId;
use crate::query::state::{Progress, RemoveQuery, RunningQuery};
use vstd::prelude::*;

verus! {

/// A running computation together with the guard that removes the query from
/// the registry once the caller has its result.
#[derive(Debug)]
pub struct Handle {
    query_state_guard: RemoveQuery,
    inner: RunningQuery,
}

impl Handle {
    /// The query whose end the handle waits for.
    pub closed spec fn query_id(&self) -> QueryId {
        self.query_state_guard.query_id()
    }

    /// The computation that the handle waits for.
    pub closed spec fn running(&self) -> RunningQuery {
        self.inner
    }

    /// Pairs the computation `inner` with the guard of its query.
    pub fn new(guard: RemoveQuery, inner: RunningQuery) -> (r: Handle)
        ensures
            r.query_id() == guard.query_id(),
            r.running() == inner,
    {
        Handle { query_state_guard: guard, inner }
    }

    /// Looks once, without waiting, whether the computation has ended. The
    /// handle keeps guarding the same query, and a computation that goes on
    /// is left as it was.
    pub fn try_complete(&mut self) -> (r: Progress)
        ensures
            final(self).query_id() == old(self).query_id(),
            r is Pending ==> final(self).running() == old(self).running(),
    {
        self.inner.try_complete()
    }

    /// Takes the handle apart again.
    pub fn into_parts(self) -> (r: (RemoveQuery, RunningQuery))
        ensures
            r.0.query_id() == self.query_id(),
            r.1 == self.running(),
    {
        (self.query_state_guard, self.inner)
    }
}

} // verus!
