//! The processor accepts queries and moves them through their lifecycle.

use crate::error::Error as ProtocolError;
use crate::helpers::buffers::send::SendState;
use crate::helpers::buffers::unordered_receiver::ChannelState;
use crate::helpers::query::{PrepareQuery, QueryConfig, QueryInput};
use crate::helpers::{Gateway, GatewayConfig, HelperIdentity, Role, RoleAssignment, TransportError};
use crate::hpke::KeyRegistry;
use crate::protocol::QueryId;
use crate::query::completion::Handle as CompletionHandle;
use crate::query::state::{
    moved_along, stage_rank, QueryState, QueryStatus, RemoveQuery, RunningQueries, RunningQuery,
    StateError,
};
use vstd::prelude::*;
use vstd::std_specs::convert::FromSpec;

verus! {

/// A success that carries nothing is the one value `Ok(())`.
proof fn lemma_ok_is_unit<E>(r: Result<(), E>)
    ensures
        r is Ok ==> r == Ok::<(), E>(()),
{
    if let Ok(u) = r {
        assert(u == ());
    }
}

/// Why a query could not be started.
#[derive(Clone, Copy, Debug, PartialEq, Eq, Structural)]
pub enum NewQueryError {
    /// The registry does not allow a new query now.
    State(StateError),
    /// A follower could not be reached or turned the query down.
    Transport(TransportError),
}

/// Why a follower turned the announcement of a query down.
#[derive(Clone, Copy, Debug, PartialEq, Eq, Structural)]
pub enum PrepareQueryError {
    /// This helper coordinates the query and so cannot follow in it.
    WrongTarget,
    /// This helper already knows the query.
    AlreadyRunning,
    /// The registry refused the new state.
    StateError { source: StateError },
}

/// Why the inputs of a query were not accepted.
#[derive(Clone, Copy, Debug, PartialEq, Eq, Structural)]
pub enum QueryInputError {
    /// The helper does not know the query.
    NoSuchQuery(QueryId),
    /// The query is not waiting for inputs.
    StateError { source: StateError },
}

/// Why the status of a query could not be told.
#[derive(Clone, Copy, Debug, PartialEq, Eq, Structural)]
pub enum QueryStatusError {
    /// The helper does not know the query.
    NoSuchQuery(QueryId),
}

/// Why a query gave no result.
#[derive(Clone, Copy, Debug, PartialEq, Eq, Structural)]
pub enum QueryCompletionError {
    /// The helper does not know the query.
    NoSuchQuery(QueryId),
    /// The query is neither running nor completed.
    StateError { source: StateError },
    /// The computation itself failed.
    ExecutionError(ProtocolError),
}

/// What asking for the result of a query gives.
#[derive(Debug)]
pub enum Completion {
    /// The query had completed: here is its result.
    Done(Vec<u8>),
    /// The query is still running: the handle is to be waited on, and then
    /// taken apart, and its guard handed to `Processor::collect` with what the
    /// computation left.
    Pending(CompletionHandle),
}

/// Accepts queries on this helper and tracks each through its lifecycle:
/// announced by the coordinator, agreed by the followers, fed with inputs,
/// run, and collected.
#[derive(Debug)]
pub struct Processor {
    queries: RunningQueries,
    key_registry: KeyRegistry,
}

impl View for Processor {
    type V = Map<QueryId, QueryState>;

    closed spec fn view(&self) -> Map<QueryId, QueryState> {
        self.queries@
    }
}

impl Default for Processor {
    fn default() -> (r: Processor)
        ensures
            r@ == Map::<QueryId, QueryState>::empty(),
            r.keys()@ == Seq::<crate::hpke::KeyPair>::empty(),
    {
        Processor { queries: RunningQueries::new(), key_registry: KeyRegistry::empty() }
    }
}

impl Processor {
    /// The keys that the processor hands to every computation.
    pub closed spec fn keys(&self) -> KeyRegistry {
        self.key_registry
    }

    /// The stage of the query `id`, or `None` for a query that the processor
    /// does not know.
    pub open spec fn status_spec(&self, id: QueryId) -> Option<QueryStatus> {
        if self@.contains_key(id) {
            Some(self@[id].status_spec())
        } else {
            None
        }
    }

    /// The announcement that the coordinator `me` makes of a query with the
    /// configuration `config`: `me` takes `H1`, its right neighbour `H2` and
    /// its left neighbour `H3`.
    pub open spec fn announcement(me: HelperIdentity, config: QueryConfig) -> PrepareQuery {
        PrepareQuery {
            query_id: QueryId,
            config,
            roles: RoleAssignment::from_identities(me, me.right_spec(), me.left_spec()),
        }
    }

    /// `running` is what the executor `execute` returned for the query
    /// `query_id` on the helper `me`: it was called with the query's
    /// configuration, the keys, the input and a gateway made for this query
    /// and this helper's role in it.
    pub open spec fn launched<E>(
        execute: E,
        me: HelperIdentity,
        query_id: QueryId,
        config: QueryConfig,
        roles: RoleAssignment,
        keys: KeyRegistry,
        input_stream: Vec<u8>,
        running: RunningQuery,
    ) -> bool where E: FnOnce(QueryConfig, &KeyRegistry, Gateway, Vec<u8>) -> RunningQuery {
        exists|gateway: Gateway|
            {
                &&& gateway.query_id_spec() == query_id
                &&& gateway.roles_spec() == roles
                &&& gateway.role_spec() == roles.role_spec(me)
                &&& gateway.config_spec() == GatewayConfig::from_spec(&config)
                &&& gateway.wf()
                &&& forall|id: (Role, Seq<char>)|
                    gateway.channel(id) == ChannelState::empty() && gateway.sending(id)
                        == SendState::empty()
                &&& #[trigger] call_ensures(execute, (config, &keys, gateway, input_stream), running)
            }
    }

    /// The processor holds at most one state for a query, and, as a helper
    /// runs one query at a time, at most one query.
    pub proof fn lemma_at_most_one_entry(&self)
        ensures
            self@.dom().finite(),
            self@.dom().len() <= 1,
            forall|a: QueryId, b: QueryId| self@.contains_key(a) && self@.contains_key(b) ==> a == b,
    {
        self.queries.lemma_at_most_one_entry();
    }

    /// The registry of the processor's queries.
    pub fn queries(&self) -> (r: &RunningQueries)
        ensures
            r@ == self@,
    {
        &self.queries
    }

    /// The keys that the processor hands to every computation.
    pub fn key_registry(&self) -> (r: &KeyRegistry)
        ensures
            *r == self.keys(),
    {
        &self.key_registry
    }

    /// A processor that knows no query.
    pub fn new(key_registry: KeyRegistry) -> (r: Processor)
        ensures
            r@ == Map::<QueryId, QueryState>::empty(),
            r.keys() == key_registry,
    {
        Processor { queries: RunningQueries::new(), key_registry }
    }

    /// First half of starting a query on the coordinator `me`: the query is
    /// entered as `Preparing` and the announcement for the followers is
    /// made. With a query already in the registry nothing changes and the
    /// registry's refusal is returned.
    pub fn begin_new_query(&mut self, me: HelperIdentity, req: QueryConfig) -> (r: Result<
        PrepareQuery,
        NewQueryError,
    >)
        ensures
            final(self).keys() == old(self).keys(),
            forall|id: QueryId|
                moved_along(old(self).status_spec(id), #[trigger] final(self).status_spec(id)),
            match old(self).status_spec(QueryId) {
                None => r == Ok::<PrepareQuery, NewQueryError>(Self::announcement(me, req))
                    && final(self)@ == old(self)@.insert(QueryId, QueryState::Preparing(req)),
                Some(status) => r == Err::<PrepareQuery, NewQueryError>(
                    NewQueryError::State(
                        QueryState::refusal(Some(status), QueryStatus::Preparing),
                    ),
                ) && final(self)@ == old(self)@,
            },
    {
        let query_id = QueryId;
        match self.queries.set_state(query_id, QueryState::Preparing(req)) {
            Ok(()) => {},
            Err(e) => {
                return Err(NewQueryError::State(e));
            },
        }
        let others = me.others();
        let right = others[0];
        let left = others[1];
        // A helper and its two neighbours are three different helpers.
        let roles = RoleAssignment::try_from(
            [(me, Role::H1), (right, Role::H2), (left, Role::H3)],
        ).unwrap();
        Ok(PrepareQuery { query_id, config: req, roles })
    }

    /// Second half of starting a query: `acknowledged` is what came of
    /// sending `prepare` to both followers. When both accepted, the query
    /// moves on to `AwaitingInputs`. On any failure, be it of the followers
    /// or of the move, the query leaves the registry, so that nothing stays
    /// behind in `Preparing`.
    pub fn finish_new_query(
        &mut self,
        prepare: PrepareQuery,
        acknowledged: Result<(), TransportError>,
    ) -> (r: Result<PrepareQuery, NewQueryError>)
        ensures
            final(self).keys() == old(self).keys(),
            forall|id: QueryId|
                moved_along(old(self).status_spec(id), #[trigger] final(self).status_spec(id)),
            match acknowledged {
                Err(e) => r == Err::<PrepareQuery, NewQueryError>(NewQueryError::Transport(e))
                    && final(self)@ == old(self)@.remove(prepare.query_id),
                Ok(_) => if QueryState::allowed(
                    old(self).status_spec(prepare.query_id),
                    QueryStatus::AwaitingInputs,
                ) {
                    r == Ok::<PrepareQuery, NewQueryError>(prepare) && final(self)@ == old(self)@.insert(
                        prepare.query_id,
                        QueryState::AwaitingInputs(prepare.query_id, prepare.config, prepare.roles),
                    )
                } else {
                    r == Err::<PrepareQuery, NewQueryError>(
                        NewQueryError::State(
                            QueryState::refusal(
                                old(self).status_spec(prepare.query_id),
                                QueryStatus::AwaitingInputs,
                            ),
                        ),
                    ) && final(self)@ == old(self)@.remove(prepare.query_id)
                },
            },
    {
        let guard = self.queries.remove_query_on_drop(prepare.query_id);
        match acknowledged {
            Err(e) => {
                guard.remove(&mut self.queries);
                Err(NewQueryError::Transport(e))
            },
            Ok(_) => {
                let state = QueryState::AwaitingInputs(
                    prepare.query_id,
                    prepare.config,
                    prepare.roles,
                );
                match self.queries.set_state(prepare.query_id, state) {
                    Ok(()) => {
                        guard.restore();
                        Ok(prepare)
                    },
                    Err(e) => {
                        guard.remove(&mut self.queries);
                        Err(NewQueryError::State(e))
                    },
                }
            },
        }
    }

    /// Starts a query on the coordinator `me`, with `send` delivering the
    /// announcement to one follower and returning that follower's answer.
    /// The query is entered as `Preparing`, announced to the left and then to
    /// the right neighbour, and moved on to `AwaitingInputs` when both accept.
    /// When a follower cannot be reached or refuses, the query leaves the
    /// registry again and the follower's error is returned. With a query
    /// already in the registry nothing is sent and nothing changes.
    pub fn new_query<F>(&mut self, me: HelperIdentity, req: QueryConfig, send: F) -> (r: Result<
        PrepareQuery,
        NewQueryError,
    >) where F: Fn(HelperIdentity, &PrepareQuery) -> Result<(), TransportError>
        requires
            forall|dest: HelperIdentity, p: &PrepareQuery| call_requires(send, (dest, p)),
        ensures
            final(self).keys() == old(self).keys(),
            forall|id: QueryId|
                moved_along(old(self).status_spec(id), #[trigger] final(self).status_spec(id)),
            old(self).status_spec(QueryId) matches Some(status) ==> r == Err::<
                PrepareQuery,
                NewQueryError,
            >(NewQueryError::State(QueryState::refusal(Some(status), QueryStatus::Preparing)))
                && final(self)@ == old(self)@,
            old(self).status_spec(QueryId) is None ==> match r {
                Ok(prepare) => {
                    &&& prepare == Self::announcement(me, req)
                    &&& final(self)@ == old(self)@.insert(
                        QueryId,
                        QueryState::AwaitingInputs(QueryId, req, prepare.roles),
                    )
                    &&& call_ensures(send, (me.left_spec(), &prepare), Ok(()))
                    &&& call_ensures(send, (me.right_spec(), &prepare), Ok(()))
                },
                Err(e) => {
                    &&& final(self)@ == old(self)@
                    &&& e matches NewQueryError::Transport(refused)
                    &&& (call_ensures(
                        send,
                        (me.left_spec(), &Self::announcement(me, req)),
                        Err(refused),
                    ) || call_ensures(
                        send,
                        (me.right_spec(), &Self::announcement(me, req)),
                        Err(refused),
                    ))
                },
            },
    {
        let prepare = match self.begin_new_query(me, req) {
            Ok(prepare) => prepare,
            Err(e) => {
                return Err(e);
            },
        };
        let others = me.others();
        let right = others[0];
        let left = others[1];
        let first = send(left, &prepare);
        let acknowledged = match first {
            Ok(_) => send(right, &prepare),
            Err(e) => Err(e),
        };
        proof {
            lemma_ok_is_unit(first);
            lemma_ok_is_unit(acknowledged);
        }
        let r = self.finish_new_query(prepare, acknowledged);
        proof {

            assert(old(self)@.insert(QueryId, QueryState::Preparing(req)).remove(QueryId) =~= old(self)@);
            assert(old(self)@.insert(QueryId, QueryState::Preparing(req)).insert(
                QueryId,
                QueryState::AwaitingInputs(QueryId, req, prepare.roles),
            ) =~= old(self)@.insert(
                QueryId,
                QueryState::AwaitingInputs(QueryId, req, prepare.roles),
            ));
        }
        r
    }

    /// Accepts the announcement `req` of a query on the follower `me`. A
    /// helper that the announcement makes coordinator refuses with
    /// `WrongTarget`; one that already knows the query refuses with
    /// `AlreadyRunning`; otherwise the query is entered as `AwaitingInputs`.
    pub fn prepare(&mut self, me: HelperIdentity, req: PrepareQuery) -> (r: Result<
        (),
        PrepareQueryError,
    >)
        ensures
            final(self).keys() == old(self).keys(),
            forall|id: QueryId|
                moved_along(old(self).status_spec(id), #[trigger] final(self).status_spec(id)),
            if req.roles.role_spec(me) == Role::H1 {
                r == Err::<(), PrepareQueryError>(PrepareQueryError::WrongTarget) && final(self)@
                    == old(self)@
            } else if old(self).status_spec(req.query_id) is Some {
                r == Err::<(), PrepareQueryError>(PrepareQueryError::AlreadyRunning) && final(self)@ == old(self)@
            } else {
                r == Ok::<(), PrepareQueryError>(()) && final(self)@ == old(self)@.insert(
                    req.query_id,
                    QueryState::AwaitingInputs(req.query_id, req.config, req.roles),
                )
            },
    {
        let my_role = req.roles.role(me);
        if my_role == Role::H1 {
            return Err(PrepareQueryError::WrongTarget);
        }
        if self.queries.status(req.query_id).is_some() {
            return Err(PrepareQueryError::AlreadyRunning);
        }
        match self.queries.set_state(
            req.query_id,
            QueryState::AwaitingInputs(req.query_id, req.config, req.roles),
        ) {
            Ok(()) => Ok(()),
            Err(e) => Err(PrepareQueryError::StateError { source: e }),
        }
    }

    /// Accepts the inputs of a query on the helper `me` and starts the
    /// computation. `execute` stands for the executor: it is given the
    /// query's configuration, the keys, a fresh gateway and the input bytes,
    /// and returns the computation in flight, which becomes the query's new
    /// state. A query that is not waiting for inputs stays as it is and
    /// `execute` is not called.
    pub fn receive_inputs<E>(&mut self, me: HelperIdentity, input: QueryInput, execute: E) -> (r:
        Result<(), QueryInputError>) where
        E: FnOnce(QueryConfig, &KeyRegistry, Gateway, Vec<u8>) -> RunningQuery,
        requires
            forall|config: QueryConfig, keys: &KeyRegistry, gateway: Gateway, stream: Vec<u8>|
                call_requires(execute, (config, keys, gateway, stream)),
        ensures
            final(self).keys() == old(self).keys(),
            forall|id: QueryId|
                moved_along(old(self).status_spec(id), #[trigger] final(self).status_spec(id)),
            old(self).status_spec(input.query_id) is None ==> r == Err::<(), QueryInputError>(
                QueryInputError::NoSuchQuery(input.query_id),
            ) && final(self)@ == old(self)@,
            old(self)@.contains_key(input.query_id) ==> match old(self)@[input.query_id] {
                QueryState::AwaitingInputs(query_id, config, roles) => {
                    &&& r == Ok::<(), QueryInputError>(())
                    &&& final(self)@.contains_key(input.query_id)
                    &&& final(self)@ == old(self)@.insert(
                        input.query_id,
                        final(self)@[input.query_id],
                    )
                    &&& final(self)@[input.query_id] matches QueryState::Running(running)
                    &&& Self::launched(
                        execute,
                        me,
                        query_id,
                        config,
                        roles,
                        old(self).keys(),
                        input.input_stream,
                        running,
                    )
                },
                state => r == Err::<(), QueryInputError>(
                    QueryInputError::StateError {
                        source: StateError::InvalidState {
                            from: Some(state.status_spec()),
                            to: QueryStatus::Running,
                        },
                    },
                ) && final(self)@ == old(self)@,
            },
    {
        match self.queries.take(input.query_id) {
            Some(state) => {
                match state {
                    QueryState::AwaitingInputs(query_id, config, role_assignment) => {
                        let gateway = Gateway::new(
                            query_id,
                            GatewayConfig::from(&config),
                            role_assignment,
                            me,
                        );
                        let running = execute(
                            config,
                            &self.key_registry,
                            gateway,
                            input.input_stream,
                        );
                        let ghost launched = running;
                        self.queries.put(input.query_id, QueryState::Running(running));
                        proof {
                            assert(final(self)@ =~= old(self)@.insert(
                                input.query_id,
                                QueryState::Running(launched),
                            ));
                            assert(final(self)@[input.query_id] == QueryState::Running(launched));
                            assert(call_ensures(
                                execute,
                                (config, &old(self).keys(), gateway, input.input_stream),
                                launched,
                            ));
                            assert(Self::launched(
                                execute,
                                me,
                                query_id,
                                config,
                                role_assignment,
                                old(self).keys(),
                                input.input_stream,
                                launched,
                            ));
                        }
                        Ok(())
                    },
                    state => {
                        let error = StateError::InvalidState {
                            from: Some(state.status()),
                            to: QueryStatus::Running,
                        };
                        self.queries.put(input.query_id, state);
                        proof {
                            assert(final(self)@ =~= old(self)@);
                        }
                        Err(QueryInputError::StateError { source: error })
                    },
                }
            },
            None => {
                proof {
                    assert(final(self)@ =~= old(self)@);
                }
                Err(QueryInputError::NoSuchQuery(input.query_id))
            },
        }
    }

    /// Tells the stage of a query. A running query is looked at once, without
    /// waiting, and becomes `Completed` when its computation has ended; one
    /// that goes on keeps its computation. The stage never goes back, and no
    /// other query is touched.
    pub fn query_status(&mut self, query_id: QueryId) -> (r: Result<QueryStatus, QueryStatusError>)
        ensures
            final(self).keys() == old(self).keys(),
            forall|id: QueryId|
                moved_along(old(self).status_spec(id), #[trigger] final(self).status_spec(id)),
            old(self).status_spec(query_id) is None ==> r == Err::<QueryStatus, QueryStatusError>(
                QueryStatusError::NoSuchQuery(query_id),
            ) && final(self)@ == old(self)@,
            old(self).status_spec(query_id) matches Some(before) ==> {
                &&& r == Ok::<QueryStatus, QueryStatusError>(final(self)@[query_id].status_spec())
                &&& final(self)@.contains_key(query_id)
                &&& final(self)@ == old(self)@.insert(query_id, final(self)@[query_id])
                &&& before != QueryStatus::Running ==> final(self)@ == old(self)@
                &&& before == QueryStatus::Running ==> final(self)@[query_id] is Running || final(self)@[query_id] is Completed
                &&& final(self)@[query_id] is Running ==> final(self)@ == old(self)@
                &&& stage_rank(before) <= stage_rank(final(self)@[query_id].status_spec())
            },
    {
        let state = match self.queries.take(query_id) {
            Some(state) => state,
            None => {
                proof {
                    assert(final(self)@ =~= old(self)@);
                }
                return Err(QueryStatusError::NoSuchQuery(query_id));
            },
        };
        let state = match state {
            QueryState::Running(running) => {
                let mut running = running;
                let progress = running.try_complete();
                QueryState::Running(running).advance(progress)
            },
            state => state,
        };
        let status = state.status();
        self.queries.put(query_id, state);
        proof {
            assert(final(self)@ =~= old(self)@.insert(query_id, state));
            if old(self)@[query_id].status_spec() != QueryStatus::Running {
                assert(final(self)@ =~= old(self)@);
            }
        }
        Ok(status)
    }

    /// Asks for the result of a query. A completed query gives its result and
    /// leaves the registry; when the computation failed, its error is
    /// returned as `ExecutionError`. A running query moves to
    /// `AwaitingCompletion` and its computation is handed out for the caller
    /// to wait on. In any other stage the query stays as it is.
    pub fn complete(&mut self, query_id: QueryId) -> (r: Result<Completion, QueryCompletionError>)
        ensures
            final(self).keys() == old(self).keys(),
            forall|id: QueryId|
                moved_along(old(self).status_spec(id), #[trigger] final(self).status_spec(id)),
            old(self).status_spec(query_id) is None ==> r == Err::<
                Completion,
                QueryCompletionError,
            >(QueryCompletionError::NoSuchQuery(query_id)) && final(self)@ == old(self)@,
            old(self)@.contains_key(query_id) ==> match old(self)@[query_id] {
                QueryState::Completed(Ok(result)) => r == Ok::<Completion, QueryCompletionError>(
                    Completion::Done(result),
                ) && final(self)@ == old(self)@.remove(query_id),
                QueryState::Completed(Err(e)) => r == Err::<Completion, QueryCompletionError>(
                    QueryCompletionError::ExecutionError(e),
                ) && final(self)@ == old(self)@.remove(query_id),
                QueryState::Running(running) => {
                    &&& r matches Ok(Completion::Pending(handle))
                    &&& handle.query_id() == query_id
                    &&& handle.running() == running
                    &&& final(self)@ == old(self)@.insert(query_id, QueryState::AwaitingCompletion)
                },
                state => r == Err::<Completion, QueryCompletionError>(
                    QueryCompletionError::StateError {
                        source: StateError::InvalidState {
                            from: Some(state.status_spec()),
                            to: QueryStatus::Running,
                        },
                    },
                ) && final(self)@ == old(self)@,
            },
    {
        match self.queries.take(query_id) {
            Some(QueryState::Completed(result)) => match result {
                Ok(bytes) => Ok(Completion::Done(bytes)),
                Err(e) => Err(QueryCompletionError::ExecutionError(e)),
            },
            Some(QueryState::Running(running)) => {
                self.queries.put(query_id, QueryState::AwaitingCompletion);
                proof {
                    assert(final(self)@ =~= old(self)@.insert(
                        query_id,
                        QueryState::AwaitingCompletion,
                    ));
                }
                Ok(Completion::Pending(CompletionHandle::new(RemoveQuery::new(query_id), running)))
            },
            Some(state) => {
                let error = StateError::InvalidState {
                    from: Some(state.status()),
                    to: QueryStatus::Running,
                };
                self.queries.put(query_id, state);
                proof {
                    assert(final(self)@ =~= old(self)@);
                }
                Err(QueryCompletionError::StateError { source: error })
            },
            None => {
                proof {
                    assert(final(self)@ =~= old(self)@);
                }
                Err(QueryCompletionError::NoSuchQuery(query_id))
            },
        }
    }

    /// Ends the wait that `complete` began: `outcome` is what the computation
    /// left. The query leaves the registry whatever the outcome, and a failed
    /// computation is reported as `ExecutionError`.
    pub fn collect(&mut self, guard: RemoveQuery, outcome: Result<Vec<u8>, ProtocolError>) -> (r:
        Result<Vec<u8>, QueryCompletionError>)
        ensures
            final(self).keys() == old(self).keys(),
            forall|id: QueryId|
                moved_along(old(self).status_spec(id), #[trigger] final(self).status_spec(id)),
            final(self)@ == old(self)@.remove(guard.query_id()),
            match outcome {
                Ok(result) => r == Ok::<Vec<u8>, QueryCompletionError>(result),
                Err(e) => r == Err::<Vec<u8>, QueryCompletionError>(
                    QueryCompletionError::ExecutionError(e),
                ),
            },
    {
        guard.remove(&mut self.queries);
        match outcome {
            Ok(result) => Ok(result),
            Err(e) => Err(QueryCompletionError::ExecutionError(e)),
        }
    }
}

} // verus!
