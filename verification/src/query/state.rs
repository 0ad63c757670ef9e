//! The states a query passes through and the registry that holds them.

use crate::error::Error as ProtocolError;
use crate::helpers::query::QueryConfig;
use crate::helpers::RoleAssignment;
use crate::protocol::QueryId;
use crate::sync::{try_recv, Polled};
use std::collections::HashMap;
use tokio::sync::oneshot;
use vstd::prelude::*;

verus! {

broadcast use vstd::std_specs::hash::group_hash_axioms;

/// The stage of a query, without the data that the stage carries.
#[derive(Clone, Copy, Debug, PartialEq, Eq, Hash, Structural)]
pub enum QueryStatus {
    /// The coordinator is announcing the query to the followers.
    Preparing,
    /// Every helper knows the query and waits for its inputs.
    AwaitingInputs,
    /// The computation is in flight.
    Running,
    /// A caller has taken the running computation to wait for its end.
    AwaitingCompletion,
    /// The computation has ended; its outcome is held for collection.
    Completed,
}

/// A change of state that the lifecycle does not allow.
#[derive(Clone, Copy, Debug, PartialEq, Eq, Structural)]
pub enum StateError {
    /// A new query was started while another one is in progress.
    AlreadyRunning,
    /// The query cannot go from `from` to `to`; `from` is `None` when the
    /// registry holds no such query.
    InvalidState { from: Option<QueryStatus>, to: QueryStatus },
}

/// What a finished computation leaves: the result, serialised, or the reason
/// of its failure.
pub type QueryResult = Result<Vec<u8>, ProtocolError>;

/// What one look at a running computation found.
#[derive(Debug)]
pub enum Progress {
    /// The computation goes on.
    Pending,
    /// The computation has ended with this outcome.
    Finished(QueryResult),
}

/// A computation in flight. It keeps the receiving end of the channel on
/// which the task that runs the query leaves its outcome.
#[derive(Debug)]
pub struct RunningQuery {
    result: oneshot::Receiver<QueryResult>,
}

impl RunningQuery {
    /// The channel on which the outcome will arrive.
    pub closed spec fn receiver(&self) -> oneshot::Receiver<QueryResult> {
        self.result
    }

    /// Wraps the channel on which the outcome will arrive.
    pub fn new(result: oneshot::Receiver<QueryResult>) -> (r: RunningQuery)
        ensures
            r.receiver() == result,
    {
        RunningQuery { result }
    }

    /// What a look at the outcome channel means for the computation: an empty
    /// channel leaves it pending, a value ends it with that value, and a
    /// channel that nobody will ever write to ends it with `ExecutorStopped`.
    pub open spec fn progress_of(polled: Polled<QueryResult>) -> Progress {
        match polled {
            Polled::Ready(result) => Progress::Finished(result),
            Polled::Empty => Progress::Pending,
            Polled::Closed => Progress::Finished(Err(ProtocolError::ExecutorStopped)),
        }
    }

    /// Turns one look at the outcome channel into the progress it stands for.
    pub fn interpret(polled: Polled<QueryResult>) -> (r: Progress)
        ensures
            r == Self::progress_of(polled),
    {
        match polled {
            Polled::Ready(result) => Progress::Finished(result),
            Polled::Empty => Progress::Pending,
            Polled::Closed => Progress::Finished(Err(ProtocolError::ExecutorStopped)),
        }
    }

    /// Looks once, without waiting, whether the computation has ended.
    /// Whether it has is decided elsewhere; whatever the channel shows is
    /// read as `progress_of` says. A computation that goes on is left as it
    /// was.
    pub fn try_complete(&mut self) -> (r: Progress)
        ensures
            r is Pending ==> *final(self) == *old(self),
    {
        let polled = try_recv(&mut self.result);
        Self::interpret(polled)
    }

    /// Gives the outcome channel back, for a caller that wants to wait on it.
    pub fn into_receiver(self) -> (r: oneshot::Receiver<QueryResult>)
        ensures
            r == self.receiver(),
    {
        self.result
    }
}

/// A query as the registry holds it.
#[derive(Debug)]
pub enum QueryState {
    /// Held by the coordinator while it announces the query.
    Preparing(QueryConfig),
    /// Held by every helper once the query is agreed on.
    AwaitingInputs(QueryId, QueryConfig, RoleAssignment),
    /// The computation is in flight.
    Running(RunningQuery),
    /// A caller took the running computation and waits for its end.
    AwaitingCompletion,
    /// The outcome, kept until it is collected.
    Completed(QueryResult),
}

impl QueryState {
    /// The stage that the state is in.
    pub open spec fn status_spec(&self) -> QueryStatus {
        match self {
            QueryState::Preparing(_) => QueryStatus::Preparing,
            QueryState::AwaitingInputs(_, _, _) => QueryStatus::AwaitingInputs,
            QueryState::Running(_) => QueryStatus::Running,
            QueryState::AwaitingCompletion => QueryStatus::AwaitingCompletion,
            QueryState::Completed(_) => QueryStatus::Completed,
        }
    }

    /// The stage that the state is in.
    pub fn status(&self) -> (r: QueryStatus)
        ensures
            r == self.status_spec(),
    {
        match self {
            QueryState::Preparing(_) => QueryStatus::Preparing,
            QueryState::AwaitingInputs(_, _, _) => QueryStatus::AwaitingInputs,
            QueryState::Running(_) => QueryStatus::Running,
            QueryState::AwaitingCompletion => QueryStatus::AwaitingCompletion,
            QueryState::Completed(_) => QueryStatus::Completed,
        }
    }

    /// The state after one look at the computation: a running query whose
    /// computation has ended becomes `Completed` with the outcome, and every
    /// other state stays as it is.
    pub open spec fn advanced(self, progress: Progress) -> QueryState {
        match (self, progress) {
            (QueryState::Running(_), Progress::Finished(result)) => QueryState::Completed(result),
            (state, _) => state,
        }
    }

    /// Applies what one look at the computation found to the state.
    pub fn advance(self, progress: Progress) -> (r: QueryState)
        ensures
            r == self.advanced(progress),
            r.status_spec() == self.status_spec() || (self.status_spec() == QueryStatus::Running
                && r.status_spec() == QueryStatus::Completed),
    {
        match self {
            QueryState::Running(running) => match progress {
                Progress::Finished(result) => QueryState::Completed(result),
                Progress::Pending => QueryState::Running(running),
            },
            state => state,
        }
    }

    /// The moves that the lifecycle allows. `None` stands for a query that the
    /// registry does not hold.
    pub open spec fn allowed(from: Option<QueryStatus>, to: QueryStatus) -> bool {
        match from {
            None => to == QueryStatus::Preparing || to == QueryStatus::AwaitingInputs,
            Some(QueryStatus::Preparing) => to == QueryStatus::AwaitingInputs,
            Some(QueryStatus::AwaitingInputs) => to == QueryStatus::Running,
            Some(QueryStatus::Running) => to == QueryStatus::AwaitingCompletion || to
                == QueryStatus::Completed,
            Some(QueryStatus::AwaitingCompletion) => to == QueryStatus::Completed,
            Some(QueryStatus::Completed) => false,
        }
    }

    /// The error for a move that is not allowed: starting a query over one
    /// that has not completed is `AlreadyRunning`, anything else is
    /// `InvalidState` with both ends of the attempted move.
    pub open spec fn refusal(from: Option<QueryStatus>, to: QueryStatus) -> StateError {
        if to == QueryStatus::Preparing && from is Some && from != Some(QueryStatus::Completed) {
            StateError::AlreadyRunning
        } else {
            StateError::InvalidState { from, to }
        }
    }

    /// Checks a move from the stage `from` to the state `new_state` against
    /// the lifecycle and hands the new state on when the move is allowed.
    pub fn transition(from: Option<QueryStatus>, new_state: QueryState) -> (r: Result<
        QueryState,
        StateError,
    >)
        ensures
            Self::allowed(from, new_state.status_spec()) ==> r == Ok::<QueryState, StateError>(
                new_state,
            ),
            !Self::allowed(from, new_state.status_spec()) ==> r == Err::<QueryState, StateError>(
                Self::refusal(from, new_state.status_spec()),
            ),
    {
        let to = new_state.status();
        let legal = match from {
            None => to == QueryStatus::Preparing || to == QueryStatus::AwaitingInputs,
            Some(QueryStatus::Preparing) => to == QueryStatus::AwaitingInputs,
            Some(QueryStatus::AwaitingInputs) => to == QueryStatus::Running,
            Some(QueryStatus::Running) => to == QueryStatus::AwaitingCompletion || to
                == QueryStatus::Completed,
            Some(QueryStatus::AwaitingCompletion) => to == QueryStatus::Completed,
            Some(QueryStatus::Completed) => false,
        };
        if legal {
            Ok(new_state)
        } else {
            let started_over = match from {
                Some(status) => to == QueryStatus::Preparing && status != QueryStatus::Completed,
                None => false,
            };
            if started_over {
                Err(StateError::AlreadyRunning)
            } else {
                Err(StateError::InvalidState { from, to })
            }
        }
    }
}

/// What may become of a query between two looks at it: it stays in its
/// stage, it makes a move that the lifecycle allows, or it leaves the
/// registry.
pub open spec fn moved_along(before: Option<QueryStatus>, after: Option<QueryStatus>) -> bool {
    ||| after == before
    ||| after is None
    ||| (after matches Some(to) && QueryState::allowed(before, to))
}

/// How far along the lifecycle a stage is.
pub open spec fn stage_rank(status: QueryStatus) -> nat {
    match status {
        QueryStatus::Preparing => 0,
        QueryStatus::AwaitingInputs => 1,
        QueryStatus::Running => 2,
        QueryStatus::AwaitingCompletion => 3,
        QueryStatus::Completed => 4,
    }
}

/// The stages seen of one query, one entry per change, follow the lifecycle:
/// the first is a stage that a query can start in, and each next one is an
/// allowed move from the one before.
pub open spec fn follows_lifecycle(trace: Seq<QueryStatus>) -> bool {
    &&& trace.len() > 0 ==> QueryState::allowed(None, trace[0])
    &&& forall|i: int|
        0 <= i < trace.len() - 1 ==> QueryState::allowed(Some(#[trigger] trace[i]), trace[i + 1])
}

/// The four complete lives of a query: with or without the coordinator's
/// `Preparing` stage, with or without a caller waiting for the end.
pub open spec fn is_full_lifecycle(run: Seq<QueryStatus>) -> bool {
    ||| run == seq![
        QueryStatus::Preparing,
        QueryStatus::AwaitingInputs,
        QueryStatus::Running,
        QueryStatus::AwaitingCompletion,
        QueryStatus::Completed,
    ]
    ||| run == seq![
        QueryStatus::Preparing,
        QueryStatus::AwaitingInputs,
        QueryStatus::Running,
        QueryStatus::Completed,
    ]
    ||| run == seq![
        QueryStatus::AwaitingInputs,
        QueryStatus::Running,
        QueryStatus::AwaitingCompletion,
        QueryStatus::Completed,
    ]
    ||| run == seq![QueryStatus::AwaitingInputs, QueryStatus::Running, QueryStatus::Completed]
}

/// Whatever is seen of one query is the beginning of a complete life: the
/// stages come in the order Preparing (coordinator only), AwaitingInputs,
/// Running, AwaitingCompletion (only when a caller waits), Completed.
pub proof fn lemma_lifecycle_is_prefix(trace: Seq<QueryStatus>)
    requires
        follows_lifecycle(trace),
    ensures
        exists|run: Seq<QueryStatus>| is_full_lifecycle(run) && trace.is_prefix_of(run),
{
    let with_wait = seq![
        QueryStatus::Preparing,
        QueryStatus::AwaitingInputs,
        QueryStatus::Running,
        QueryStatus::AwaitingCompletion,
        QueryStatus::Completed,
    ];
    let direct = seq![
        QueryStatus::Preparing,
        QueryStatus::AwaitingInputs,
        QueryStatus::Running,
        QueryStatus::Completed,
    ];
    let follower_with_wait = seq![
        QueryStatus::AwaitingInputs,
        QueryStatus::Running,
        QueryStatus::AwaitingCompletion,
        QueryStatus::Completed,
    ];
    let follower_direct = seq![
        QueryStatus::AwaitingInputs,
        QueryStatus::Running,
        QueryStatus::Completed,
    ];
    assert(is_full_lifecycle(with_wait) && is_full_lifecycle(direct));
    assert(is_full_lifecycle(follower_with_wait) && is_full_lifecycle(follower_direct));
    lemma_rank_bounds_position(trace, trace.len() as int - 1);
    assert(trace.len() >= 2 ==> QueryState::allowed(Some(trace[0]), trace[1]));
    assert(trace.len() >= 3 ==> QueryState::allowed(Some(trace[1]), trace[2]));
    assert(trace.len() >= 4 ==> QueryState::allowed(Some(trace[2]), trace[3]));
    assert(trace.len() >= 5 ==> QueryState::allowed(Some(trace[3]), trace[4]));
    if trace.len() == 0 {
        assert(trace.is_prefix_of(direct));
    } else if trace[0] == QueryStatus::Preparing {
        if trace.len() >= 4 && trace[3] == QueryStatus::AwaitingCompletion {
            assert(trace.len() >= 5 ==> trace[4] == QueryStatus::Completed);
            assert(trace.is_prefix_of(with_wait));
        } else {
            assert(trace.len() >= 4 ==> trace[3] == QueryStatus::Completed);
            assert(trace.len() >= 3 ==> trace[2] == QueryStatus::Running);
            assert(trace.len() >= 2 ==> trace[1] == QueryStatus::AwaitingInputs);
            assert(trace.len() <= 4);
            assert(trace.is_prefix_of(direct));
        }
    } else {
        assert(trace[0] == QueryStatus::AwaitingInputs);
        if trace.len() >= 3 && trace[2] == QueryStatus::AwaitingCompletion {
            assert(trace.len() >= 4 ==> trace[3] == QueryStatus::Completed);
            assert(trace.len() <= 4);
            assert(trace.is_prefix_of(follower_with_wait));
        } else {
            assert(trace.len() >= 3 ==> trace[2] == QueryStatus::Completed);
            assert(trace.len() >= 2 ==> trace[1] == QueryStatus::Running);
            assert(trace.len() <= 3);
            assert(trace.is_prefix_of(follower_direct));
        }
    }
}

/// Along a trace that follows the lifecycle the stage at position `i` has at
/// least rank `i`, so no trace is longer than five stages.
proof fn lemma_rank_bounds_position(trace: Seq<QueryStatus>, i: int)
    requires
        follows_lifecycle(trace),
        -1 <= i < trace.len(),
    ensures
        i >= 0 ==> stage_rank(trace[i]) >= i,
        trace.len() <= 5,
    decreases trace.len() - i,
{
    if i + 1 < trace.len() {
        lemma_rank_bounds_position(trace, i + 1);
    }
    if i >= 0 {
        lemma_rank_at(trace, i);
    }
}

/// The stage at position `i` of a trace that follows the lifecycle has at
/// least rank `i`.
proof fn lemma_rank_at(trace: Seq<QueryStatus>, i: int)
    requires
        follows_lifecycle(trace),
        0 <= i < trace.len(),
    ensures
        stage_rank(trace[i]) >= i,
    decreases i,
{
    if i > 0 {
        lemma_rank_at(trace, i - 1);
        assert(QueryState::allowed(Some(trace[i - 1]), trace[i]));
    }
}

/// No allowed move goes backwards: every one leads to a later stage.
pub proof fn lemma_moves_go_forward(from: QueryStatus, to: QueryStatus)
    requires
        QueryState::allowed(Some(from), to),
    ensures
        stage_rank(from) < stage_rank(to),
{
}

/// The queries that this helper knows, each with its state. A query has at
/// most one state at a time.
#[derive(Debug)]
pub struct RunningQueries {
    inner: HashMap<u64, QueryState>,
}

impl View for RunningQueries {
    type V = Map<QueryId, QueryState>;

    closed spec fn view(&self) -> Map<QueryId, QueryState> {
        Map::new(
            |id: QueryId| self.inner@.contains_key(Self::slot_of(id)),
            |id: QueryId| self.inner@[Self::slot_of(id)],
        )
    }
}

impl RunningQueries {
    /// The key under which the table keeps a query.
    closed spec fn slot_of(id: QueryId) -> u64 {
        0
    }

    fn slot(id: QueryId) -> (r: u64)
        ensures
            r == Self::slot_of(id),
    {
        0
    }

    /// The stage of the query `id`, or `None` when the registry does not hold
    /// it.
    pub open spec fn status_spec(&self, id: QueryId) -> Option<QueryStatus> {
        if self@.contains_key(id) {
            Some(self@[id].status_spec())
        } else {
            None
        }
    }

    /// The registry holds at most one state for a query, and, as a helper
    /// runs one query at a time, at most one query.
    pub proof fn lemma_at_most_one_entry(&self)
        ensures
            self@.dom().finite(),
            self@.dom().len() <= 1,
            forall|a: QueryId, b: QueryId| self@.contains_key(a) && self@.contains_key(b) ==> a == b,
    {
        if self@.contains_key(QueryId) {
            assert(self@.dom() =~= set![QueryId]);
        } else {
            assert(self@.dom() =~= Set::<QueryId>::empty());
        }
    }

    /// A registry without queries.
    pub fn new() -> (r: RunningQueries)
        ensures
            r@ == Map::<QueryId, QueryState>::empty(),
    {
        let r = RunningQueries { inner: HashMap::new() };
        assert(r@ =~= Map::<QueryId, QueryState>::empty());
        r
    }

    /// Whether the registry holds no query at all.
    pub fn is_empty(&self) -> (r: bool)
        ensures
            r == (self@ == Map::<QueryId, QueryState>::empty()),
    {
        let r = !self.inner.contains_key(&Self::slot(QueryId));
        proof {
            if r {
                assert(self@ =~= Map::<QueryId, QueryState>::empty());
            } else {
                assert(self@.contains_key(QueryId));
            }
        }
        r
    }

    /// The stage of the query `id`, if the registry holds it.
    pub fn status(&self, id: QueryId) -> (r: Option<QueryStatus>)
        ensures
            r == self.status_spec(id),
    {
        match self.inner.get(&Self::slot(id)) {
            Some(state) => Some(state.status()),
            None => None,
        }
    }

    /// Moves the query `id` to `new_state` if the lifecycle allows that move
    /// from the stage it is in, and leaves the registry as it is if not.
    pub fn set_state(&mut self, id: QueryId, new_state: QueryState) -> (r: Result<(), StateError>)
        ensures
            QueryState::allowed(old(self).status_spec(id), new_state.status_spec()) ==> r is Ok
                && final(self)@ == old(self)@.insert(id, new_state),
            !QueryState::allowed(old(self).status_spec(id), new_state.status_spec()) ==> r == Err::<
                (),
                StateError,
            >(QueryState::refusal(old(self).status_spec(id), new_state.status_spec()))
                && final(self)@ == old(self)@,
    {
        let from = self.status(id);
        match QueryState::transition(from, new_state) {
            Ok(state) => {
                self.put(id, state);
                Ok(())
            },
            Err(e) => Err(e),
        }
    }

    /// Takes the query `id` out of the registry, with its state.
    pub fn take(&mut self, id: QueryId) -> (r: Option<QueryState>)
        ensures
            old(self)@.contains_key(id) ==> r == Some(old(self)@[id]),
            !old(self)@.contains_key(id) ==> r is None,
            final(self)@ == old(self)@.remove(id),
    {
        let r = self.inner.remove(&Self::slot(id));
        assert(self@ =~= old(self)@.remove(id));
        r
    }

    /// Puts the query `id` into the registry in the given state, whatever
    /// was there before. The caller answers for the move being allowed.
    pub(crate) fn put(&mut self, id: QueryId, state: QueryState)
        ensures
            final(self)@ == old(self)@.insert(id, state),
    {
        self.inner.insert(Self::slot(id), state);
        assert(self@ =~= old(self)@.insert(id, state));
    }

    /// A guard for the query `id`: unless it is told to `restore`, releasing
    /// it removes the query from the registry.
    pub fn remove_query_on_drop(&self, id: QueryId) -> (r: RemoveQuery)
        ensures
            r.query_id() == id,
    {
        RemoveQuery::new(id)
    }
}

/// Undoes the registration of a query. It is made when a query is entered
/// and either dismissed with `restore`, once the query stands, or spent with
/// `remove`, which deletes the query.
#[derive(Debug)]
pub struct RemoveQuery {
    query_id: QueryId,
}

impl RemoveQuery {
    /// The query that the guard watches.
    pub closed spec fn query_id(&self) -> QueryId {
        self.query_id
    }

    /// A guard for the query `query_id`.
    pub fn new(query_id: QueryId) -> (r: RemoveQuery)
        ensures
            r.query_id() == query_id,
    {
        RemoveQuery { query_id }
    }

    /// Dismisses the guard: the query stays.
    pub fn restore(self) {
    }

    /// Spends the guard: the query leaves the registry, in whatever state it
    /// is.
    pub fn remove(self, queries: &mut RunningQueries)
        ensures
            final(queries)@ == old(queries)@.remove(self.query_id()),
    {
        let _ = queries.take(self.query_id);
    }
}

} // verus!
