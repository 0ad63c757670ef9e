use raw_ipa::helpers::query::{
    BadQuerySizeError, FieldType, PrepareQuery, QueryConfig, QueryInput, QueryType,
};
use raw_ipa::helpers::{HelperIdentity, Role, RoleAssignment, TransportError};
use raw_ipa::hpke::KeyRegistry;
use raw_ipa::protocol::QueryId;
use raw_ipa::query::processor::Completion;
use raw_ipa::query::state::Progress;
use raw_ipa::query::{
    NewQueryError, PrepareQueryError, Processor, QueryCompletionError, QueryInputError,
    QueryState, QueryStatus, QueryStatusError, RemoveQuery, RunningQueries, RunningQuery,
    StateError,
};
use tokio::sync::oneshot;

fn test_multiply_config() -> QueryConfig {
    QueryConfig::new(QueryType::TestMultiply, FieldType::Fp31, 1).unwrap()
}

fn prepare_query(identities: [HelperIdentity; 3]) -> PrepareQuery {
    PrepareQuery {
        query_id: QueryId,
        config: test_multiply_config(),
        roles: RoleAssignment::new(identities),
    }
}

fn accept_all(_dest: HelperIdentity, _req: &PrepareQuery) -> Result<(), TransportError> {
    Ok(())
}

fn third_helper_refuses(dest: HelperIdentity, _req: &PrepareQuery) -> Result<(), TransportError> {
    if dest == HelperIdentity::Three {
        Err(TransportError::Rejected { dest, inner: PrepareQueryError::WrongTarget })
    } else {
        Ok(())
    }
}

#[test]
fn new_query() {
    let [h1, _, _] = HelperIdentity::make_three();
    let mut p0 = Processor::default();
    let request = test_multiply_config();

    let announced = p0.begin_new_query(h1, request).unwrap();
    assert_eq!(QueryStatus::Preparing, p0.query_status(QueryId).unwrap());

    let qc = p0.finish_new_query(announced, Ok(())).unwrap();
    let expected_assignment = RoleAssignment::new(HelperIdentity::make_three());

    assert_eq!(
        PrepareQuery { query_id: QueryId, config: request, roles: expected_assignment },
        qc
    );
    assert_eq!(QueryStatus::AwaitingInputs, p0.query_status(QueryId).unwrap());
}

#[test]
fn rejects_duplicate_query_id() {
    let [h1, _, _] = HelperIdentity::make_three();
    let mut p0 = Processor::default();
    let request = test_multiply_config();

    let _qc = p0.new_query(h1, request, accept_all).unwrap();
    assert!(matches!(
        p0.new_query(h1, request, accept_all),
        Err(NewQueryError::State(StateError::AlreadyRunning)),
    ));
}

#[test]
fn prepare_error() {
    let [h1, _, _] = HelperIdentity::make_three();
    let mut p0 = Processor::default();
    let request = test_multiply_config();

    assert!(matches!(
        p0.new_query(h1, request, third_helper_refuses).unwrap_err(),
        NewQueryError::Transport(_)
    ));
}

#[test]
fn can_recover_from_prepare_error() {
    let [h1, _, _] = HelperIdentity::make_three();
    let mut p0 = Processor::default();
    let request = test_multiply_config();
    p0.new_query(h1, request, third_helper_refuses).unwrap_err();

    assert!(matches!(
        p0.new_query(h1, request, third_helper_refuses).unwrap_err(),
        NewQueryError::Transport(_)
    ));
}

#[test]
fn happy_case() {
    let identities = HelperIdentity::make_three();
    let req = prepare_query(identities);
    let mut processor = Processor::default();

    assert!(matches!(
        processor.query_status(QueryId).unwrap_err(),
        QueryStatusError::NoSuchQuery(_)
    ));
    processor.prepare(identities[1], req).unwrap();
    assert_eq!(QueryStatus::AwaitingInputs, processor.query_status(QueryId).unwrap());
}

#[test]
fn rejects_if_coordinator() {
    let identities = HelperIdentity::make_three();
    let req = prepare_query(identities);
    let mut processor = Processor::default();

    assert!(matches!(
        processor.prepare(identities[0], req),
        Err(PrepareQueryError::WrongTarget)
    ));
}

#[test]
fn rejects_if_query_exists() {
    let identities = HelperIdentity::make_three();
    let req = prepare_query(identities);
    let mut processor = Processor::default();
    processor.prepare(identities[1], req.clone()).unwrap();
    assert!(matches!(
        processor.prepare(identities[1], req),
        Err(PrepareQueryError::AlreadyRunning)
    ));
}

fn waiting_for_inputs(me: HelperIdentity) -> Processor {
    let mut processor = Processor::new(KeyRegistry::empty());
    processor.prepare(me, prepare_query(HelperIdentity::make_three())).unwrap();
    processor
}

#[test]
fn new_query_assigns_roles_around_the_ring() {
    let mut processor = Processor::default();
    let sent = std::cell::RefCell::new(Vec::new());
    let qc = processor
        .new_query(HelperIdentity::Two, test_multiply_config(), |dest, req: &PrepareQuery| {
            sent.borrow_mut().push((dest, *req));
            Ok(())
        })
        .unwrap();
    assert_eq!(Role::H1, qc.roles.role(HelperIdentity::Two));
    assert_eq!(Role::H2, qc.roles.role(HelperIdentity::Three));
    assert_eq!(Role::H3, qc.roles.role(HelperIdentity::One));
    // The left neighbour hears first, then the right one, and both hear the same.
    assert_eq!(vec![(HelperIdentity::One, qc), (HelperIdentity::Three, qc)], sent.into_inner());
    assert_eq!(QueryStatus::AwaitingInputs, processor.query_status(QueryId).unwrap());
}

#[test]
fn a_refused_announcement_goes_no_further() {
    let mut processor = Processor::default();
    let sent = std::cell::RefCell::new(Vec::new());
    let refusal = TransportError::Unreachable { dest: HelperIdentity::Three };
    let outcome = processor.new_query(HelperIdentity::One, test_multiply_config(), |dest, _req| {
        sent.borrow_mut().push(dest);
        Err(TransportError::Unreachable { dest })
    });
    assert_eq!(Err(NewQueryError::Transport(refusal)), outcome);
    assert_eq!(vec![HelperIdentity::Three], sent.into_inner());
    assert!(matches!(
        processor.query_status(QueryId),
        Err(QueryStatusError::NoSuchQuery(QueryId))
    ));
}

#[test]
fn rollback_leaves_nothing_behind() {
    let [h1, _, _] = HelperIdentity::make_three();
    let mut processor = Processor::default();
    let announced = processor.begin_new_query(h1, test_multiply_config()).unwrap();
    let refused = TransportError::Rejected {
        dest: HelperIdentity::Three,
        inner: PrepareQueryError::WrongTarget,
    };
    assert_eq!(
        Err(NewQueryError::Transport(refused)),
        processor.finish_new_query(announced, Err(refused))
    );
    assert_eq!(Err(QueryStatusError::NoSuchQuery(QueryId)), processor.query_status(QueryId));
    // Nothing stands in the way of the next attempt.
    assert!(processor.new_query(h1, test_multiply_config(), accept_all).is_ok());
}

#[test]
fn a_second_query_is_refused_and_the_first_stays() {
    let [h1, _, _] = HelperIdentity::make_three();
    let mut processor = Processor::default();
    processor.begin_new_query(h1, test_multiply_config()).unwrap();
    assert_eq!(
        Err(NewQueryError::State(StateError::AlreadyRunning)),
        processor.begin_new_query(h1, test_multiply_config())
    );
    assert_eq!(QueryStatus::Preparing, processor.query_status(QueryId).unwrap());
}

#[test]
fn inputs_are_refused_without_a_query() {
    let mut processor = Processor::default();
    let input = QueryInput { query_id: QueryId, input_stream: vec![1, 2] };
    let outcome = processor.receive_inputs(HelperIdentity::Two, input, |_, _, _, _| unreachable!());
    assert_eq!(Err(QueryInputError::NoSuchQuery(QueryId)), outcome);
}

#[test]
fn inputs_are_refused_while_preparing() {
    let mut processor = Processor::default();
    processor.begin_new_query(HelperIdentity::One, test_multiply_config()).unwrap();
    let input = QueryInput { query_id: QueryId, input_stream: vec![] };
    let outcome = processor.receive_inputs(HelperIdentity::One, input, |_, _, _, _| unreachable!());
    assert_eq!(
        Err(QueryInputError::StateError {
            source: StateError::InvalidState {
                from: Some(QueryStatus::Preparing),
                to: QueryStatus::Running,
            },
        }),
        outcome
    );
    assert_eq!(QueryStatus::Preparing, processor.query_status(QueryId).unwrap());
}

#[test]
fn inputs_start_the_executor() {
    let me = HelperIdentity::Three;
    let mut processor = waiting_for_inputs(me);
    let (tx, rx) = oneshot::channel();
    let mut seen = None;
    let input = QueryInput { query_id: QueryId, input_stream: vec![7, 8, 9] };
    processor
        .receive_inputs(me, input, |config, keys, gateway, stream| {
            seen = Some((config, keys.len(), gateway.role(), gateway.query_id(), stream));
            RunningQuery::new(rx)
        })
        .unwrap();
    assert_eq!(
        Some((test_multiply_config(), 0, Role::H3, QueryId, vec![7, 8, 9])),
        seen
    );
    assert_eq!(QueryStatus::Running, processor.query_status(QueryId).unwrap());
    assert_eq!(QueryStatus::Running, processor.query_status(QueryId).unwrap());

    // Inputs come once only.
    let again = QueryInput { query_id: QueryId, input_stream: vec![] };
    assert_eq!(
        Err(QueryInputError::StateError {
            source: StateError::InvalidState {
                from: Some(QueryStatus::Running),
                to: QueryStatus::Running,
            },
        }),
        processor.receive_inputs(me, again, |_, _, _, _| unreachable!())
    );

    tx.send(Ok(vec![20])).unwrap();
    assert_eq!(QueryStatus::Completed, processor.query_status(QueryId).unwrap());
    assert_eq!(QueryStatus::Completed, processor.query_status(QueryId).unwrap());
    assert!(matches!(processor.complete(QueryId), Ok(Completion::Done(bytes)) if bytes == [20]));
    assert_eq!(Err(QueryStatusError::NoSuchQuery(QueryId)), processor.query_status(QueryId));
}

#[test]
fn a_failed_computation_is_reported_on_completion() {
    let me = HelperIdentity::Two;
    let mut processor = waiting_for_inputs(me);
    let (tx, rx) = oneshot::channel();
    let input = QueryInput { query_id: QueryId, input_stream: vec![] };
    processor.receive_inputs(me, input, |_, _, _, _| RunningQuery::new(rx)).unwrap();
    tx.send(Err(raw_ipa::error::Error::MaliciousSecurityCheckFailed)).unwrap();
    assert_eq!(QueryStatus::Completed, processor.query_status(QueryId).unwrap());
    assert!(matches!(
        processor.complete(QueryId),
        Err(QueryCompletionError::ExecutionError(
            raw_ipa::error::Error::MaliciousSecurityCheckFailed
        ))
    ));
    assert_eq!(Err(QueryStatusError::NoSuchQuery(QueryId)), processor.query_status(QueryId));
}

#[test]
fn an_executor_that_went_away_ends_the_query() {
    let me = HelperIdentity::Two;
    let mut processor = waiting_for_inputs(me);
    let (tx, rx) = oneshot::channel::<raw_ipa::query::QueryResult>();
    let input = QueryInput { query_id: QueryId, input_stream: vec![] };
    processor.receive_inputs(me, input, |_, _, _, _| RunningQuery::new(rx)).unwrap();
    drop(tx);
    assert_eq!(QueryStatus::Completed, processor.query_status(QueryId).unwrap());
    assert!(matches!(
        processor.complete(QueryId),
        Err(QueryCompletionError::ExecutionError(raw_ipa::error::Error::ExecutorStopped))
    ));
}

#[test]
fn completion_is_refused_before_the_query_runs() {
    let mut processor = Processor::default();
    assert!(matches!(
        processor.complete(QueryId),
        Err(QueryCompletionError::NoSuchQuery(QueryId))
    ));
    let me = HelperIdentity::Two;
    let mut processor = waiting_for_inputs(me);
    assert!(matches!(
        processor.complete(QueryId),
        Err(QueryCompletionError::StateError {
            source: StateError::InvalidState {
                from: Some(QueryStatus::AwaitingInputs),
                to: QueryStatus::Running,
            },
        })
    ));
    assert_eq!(QueryStatus::AwaitingInputs, processor.query_status(QueryId).unwrap());
}

#[test]
fn waiting_for_completion_takes_the_computation_out() {
    let me = HelperIdentity::Two;
    let mut processor = waiting_for_inputs(me);
    let (tx, rx) = oneshot::channel();
    let input = QueryInput { query_id: QueryId, input_stream: vec![] };
    processor.receive_inputs(me, input, |_, _, _, _| RunningQuery::new(rx)).unwrap();

    let mut handle = match processor.complete(QueryId) {
        Ok(Completion::Pending(handle)) => handle,
        _ => panic!("the query is running"),
    };
    assert_eq!(QueryStatus::AwaitingCompletion, processor.query_status(QueryId).unwrap());
    assert!(matches!(
        processor.complete(QueryId),
        Err(QueryCompletionError::StateError {
            source: StateError::InvalidState {
                from: Some(QueryStatus::AwaitingCompletion),
                to: QueryStatus::Running,
            },
        })
    ));
    assert!(matches!(handle.try_complete(), Progress::Pending));

    tx.send(Ok(vec![1, 2, 3])).unwrap();
    let outcome = match handle.try_complete() {
        Progress::Finished(outcome) => outcome,
        Progress::Pending => panic!("the result was sent"),
    };
    let (guard, _running) = handle.into_parts();
    assert_eq!(Ok(vec![1, 2, 3]), processor.collect(guard, outcome));
    assert_eq!(Err(QueryStatusError::NoSuchQuery(QueryId)), processor.query_status(QueryId));
}

#[test]
fn the_registry_follows_the_lifecycle() {
    let config = test_multiply_config();
    let roles = RoleAssignment::new(HelperIdentity::make_three());
    let mut queries = RunningQueries::new();
    assert!(queries.is_empty());
    assert_eq!(None, queries.status(QueryId));

    assert_eq!(
        Err(StateError::InvalidState { from: None, to: QueryStatus::AwaitingCompletion }),
        queries.set_state(QueryId, QueryState::AwaitingCompletion)
    );
    assert_eq!(
        Err(StateError::InvalidState { from: None, to: QueryStatus::Completed }),
        queries.set_state(QueryId, QueryState::Completed(Ok(vec![])))
    );
    assert!(queries.is_empty());

    queries.set_state(QueryId, QueryState::Preparing(config)).unwrap();
    assert_eq!(Some(QueryStatus::Preparing), queries.status(QueryId));
    assert_eq!(
        Err(StateError::AlreadyRunning),
        queries.set_state(QueryId, QueryState::Preparing(config))
    );
    assert_eq!(
        Err(StateError::InvalidState {
            from: Some(QueryStatus::Preparing),
            to: QueryStatus::Completed,
        }),
        queries.set_state(QueryId, QueryState::Completed(Ok(vec![])))
    );

    queries.set_state(QueryId, QueryState::AwaitingInputs(QueryId, config, roles)).unwrap();
    assert_eq!(
        Err(StateError::InvalidState {
            from: Some(QueryStatus::AwaitingInputs),
            to: QueryStatus::AwaitingInputs,
        }),
        queries.set_state(QueryId, QueryState::AwaitingInputs(QueryId, config, roles))
    );
    let (_tx, rx) = oneshot::channel();
    queries.set_state(QueryId, QueryState::Running(RunningQuery::new(rx))).unwrap();
    queries.set_state(QueryId, QueryState::AwaitingCompletion).unwrap();
    assert_eq!(
        Err(StateError::AlreadyRunning),
        queries.set_state(QueryId, QueryState::Preparing(config))
    );
    queries.set_state(QueryId, QueryState::Completed(Ok(vec![5]))).unwrap();
    assert_eq!(Some(QueryStatus::Completed), queries.status(QueryId));
    // A query that has completed is not started over: it is collected first.
    assert_eq!(
        Err(StateError::InvalidState {
            from: Some(QueryStatus::Completed),
            to: QueryStatus::Preparing,
        }),
        queries.set_state(QueryId, QueryState::Preparing(config))
    );
    assert!(!queries.is_empty());

    let guard = queries.remove_query_on_drop(QueryId);
    guard.remove(&mut queries);
    assert!(queries.is_empty());

    queries.set_state(QueryId, QueryState::Preparing(config)).unwrap();
    RemoveQuery::new(QueryId).restore();
    assert_eq!(Some(QueryStatus::Preparing), queries.status(QueryId));
    assert!(matches!(queries.take(QueryId), Some(QueryState::Preparing(_))));
    assert!(queries.take(QueryId).is_none());
}

#[test]
fn a_zero_sized_query_is_refused() {
    assert_eq!(
        Err(BadQuerySizeError(0)),
        QueryConfig::new(QueryType::TestMultiply, FieldType::Fp31, 0)
    );
    assert_eq!(7, QueryConfig::new(QueryType::TestMultiply, FieldType::Fp31, 7).unwrap().size.get());
}

#[test]
fn a_query_that_goes_on_keeps_its_computation() {
    let me = HelperIdentity::Two;
    let mut processor = waiting_for_inputs(me);
    let (tx, rx) = oneshot::channel();
    let input = QueryInput { query_id: QueryId, input_stream: vec![] };
    processor.receive_inputs(me, input, |_, _, _, _| RunningQuery::new(rx)).unwrap();
    for _ in 0..5 {
        assert_eq!(QueryStatus::Running, processor.query_status(QueryId).unwrap());
        assert!(!tx.is_closed());
    }
    // The computation that was looked at is the one that the executor left.
    tx.send(Ok(vec![9, 9])).unwrap();
    assert_eq!(QueryStatus::Completed, processor.query_status(QueryId).unwrap());
    assert!(matches!(processor.complete(QueryId), Ok(Completion::Done(bytes)) if bytes == [9, 9]));
}
