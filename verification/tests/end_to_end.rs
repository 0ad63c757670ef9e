use raw_ipa::ff::{Field, Fp31, Serializable};
use raw_ipa::helpers::gateway::receive::to_payload;
use raw_ipa::helpers::gateway::ReceivingEnd;
use raw_ipa::helpers::query::{FieldType, PrepareQuery, QueryConfig, QueryInput, QueryType};
use raw_ipa::helpers::{
    ChannelId, Gate, Gateway, HelperIdentity, Role, TransportError,
};
use raw_ipa::protocol::{QueryId, RecordId};
use raw_ipa::query::processor::Completion;
use raw_ipa::query::state::Progress;
use raw_ipa::query::{Processor, QueryResult, QueryStatus, RunningQuery};
use raw_ipa::secret_sharing::replicated::semi_honest::AdditiveShare;
use raw_ipa::secret_sharing::IntoShares;
use raw_ipa::test_fixture::Reconstruct;
use std::cell::RefCell;
use tokio::sync::oneshot;

fn test_multiply_config() -> QueryConfig {
    QueryConfig::new(QueryType::TestMultiply, FieldType::Fp31, 1).unwrap()
}

/// What the executor of one helper was started with, and the channel on
/// which it is to leave its result.
struct Execution {
    gateway: Gateway,
    input: Vec<u8>,
    result: oneshot::Sender<QueryResult>,
}

fn position(id: HelperIdentity) -> usize {
    match id {
        HelperIdentity::One => 0,
        HelperIdentity::Two => 1,
        HelperIdentity::Three => 2,
    }
}

/// Announces a query from the first helper, hands every helper its share of
/// the inputs and starts the executors.
fn start_query(helpers: &[RefCell<Processor>; 3], a: Fp31, b: Fp31) -> [Execution; 3] {
    let ids = HelperIdentity::make_three();
    let announce = |dest: HelperIdentity, req: &PrepareQuery| {
        helpers[position(dest)]
            .borrow_mut()
            .prepare(dest, *req)
            .map_err(|inner| TransportError::Rejected { dest, inner })
    };
    // The coordinator is borrowed while it announces, so it works on a
    // processor of its own that is put in place afterwards.
    let mut coordinator = Processor::default();
    let prepare = coordinator.new_query(ids[0], test_multiply_config(), announce).unwrap();
    *helpers[0].borrow_mut() = coordinator;
    assert_eq!(QueryId, prepare.query_id);

    let a_shares = a.share();
    let b_shares = b.share();
    let mut executions = Vec::new();
    for i in 0..3 {
        let mut input_stream = vec![0_u8; 4];
        a_shares[i].serialize(&mut input_stream[0..2]);
        b_shares[i].serialize(&mut input_stream[2..4]);
        let (tx, rx) = oneshot::channel();
        let mut started = None;
        helpers[i]
            .borrow_mut()
            .receive_inputs(
                ids[i],
                QueryInput { query_id: QueryId, input_stream },
                |_config, _keys, gateway, input| {
                    started = Some((gateway, input));
                    RunningQuery::new(rx)
                },
            )
            .unwrap();
        let (gateway, input) = started.unwrap();
        executions.push(Execution { gateway, input, result: tx });
    }
    match <[Execution; 3]>::try_from(executions) {
        Ok(executions) => executions,
        Err(_) => unreachable!(),
    }
}

/// The multiplication of two shared values: every helper multiplies what it
/// holds, sends the sum of the products to its left neighbour and takes the
/// one of its right neighbour.
fn multiply(executions: [Execution; 3]) {
    let roles = Role::all();
    let step = "multiply";
    let mut executions = executions;
    let mut own = Vec::new();
    for (i, execution) in executions.iter().enumerate() {
        assert_eq!(roles[i], execution.gateway.role());
        let a = AdditiveShare::<Fp31>::deserialize(&execution.input[0..2]);
        let b = AdditiveShare::<Fp31>::deserialize(&execution.input[2..4]);
        own.push(a.left() * b.left() + a.left() * b.right() + a.right() * b.left());
    }
    // Every helper asks for the record of its right neighbour ...
    let mut waits = Vec::new();
    for (i, execution) in executions.iter_mut().enumerate() {
        let from_right = ChannelId::new(roles[(i + 1) % 3], Gate::from_str(step));
        let end: ReceivingEnd<Fp31> = execution.gateway.get_receiver(&from_right);
        let wait = end.receive(execution.gateway.receivers(), RecordId(0));
        waits.push((end, wait));
    }
    // ... and sends its own to its left neighbour.
    for i in 0..3 {
        let left = (i + 2) % 3;
        let from_me = ChannelId::new(roles[i], Gate::from_str(step));
        executions[left].gateway.receivers().deliver(&from_me, &to_payload(&own[i]));
    }
    for (i, (execution, (end, mut wait))) in executions.into_iter().zip(waits).enumerate() {
        let mut gateway = execution.gateway;
        let payload = wait.try_recv().unwrap();
        let from_right = end.received(gateway.receivers(), Ok(payload)).unwrap();
        assert!(gateway.receivers().check_idle_and_reset());
        let share = AdditiveShare::new(own[i], from_right);
        let mut bytes = vec![0_u8; 2];
        share.serialize(&mut bytes);
        execution.result.send(Ok(bytes)).unwrap();
    }
}

fn reconstruct(results: [Vec<u8>; 3]) -> Fp31 {
    results.map(|bytes| AdditiveShare::<Fp31>::deserialize(&bytes)).reconstruct()
}

#[test]
fn complete_query_test_multiply() {
    let helpers = [
        RefCell::new(Processor::default()),
        RefCell::new(Processor::default()),
        RefCell::new(Processor::default()),
    ];
    let a = Fp31::truncate_from(4u128);
    let b = Fp31::truncate_from(5u128);
    let executions = start_query(&helpers, a, b);

    // The collector waits for the results while the helpers compute.
    let mut handles = Vec::new();
    for helper in &helpers {
        match helper.borrow_mut().complete(QueryId) {
            Ok(Completion::Pending(handle)) => handles.push(handle),
            _ => panic!("every helper is running the query"),
        }
        assert_eq!(
            QueryStatus::AwaitingCompletion,
            helper.borrow_mut().query_status(QueryId).unwrap()
        );
    }
    multiply(executions);

    let mut results = Vec::new();
    for (helper, mut handle) in helpers.iter().zip(handles) {
        let outcome = match handle.try_complete() {
            Progress::Finished(outcome) => outcome,
            Progress::Pending => panic!("the computation has ended"),
        };
        let (guard, _) = handle.into_parts();
        results.push(helper.borrow_mut().collect(guard, outcome).unwrap());
        assert!(helper.borrow_mut().query_status(QueryId).is_err());
    }
    let results = <[Vec<u8>; 3]>::try_from(results).unwrap();

    assert_eq!(Fp31::truncate_from(20u128), reconstruct(results));
}

#[test]
fn complete_query_status_poll() {
    let helpers = [
        RefCell::new(Processor::default()),
        RefCell::new(Processor::default()),
        RefCell::new(Processor::default()),
    ];
    let a = Fp31::truncate_from(4u128);
    let b = Fp31::truncate_from(5u128);
    let executions = start_query(&helpers, a, b);
    for helper in &helpers {
        assert_eq!(QueryStatus::Running, helper.borrow_mut().query_status(QueryId).unwrap());
    }

    let mut pending = Some(executions);
    let mut polls = 0;
    while !helpers
        .iter()
        .all(|helper| helper.borrow_mut().query_status(QueryId).unwrap() == QueryStatus::Completed)
    {
        polls += 1;
        assert!(polls < 3);
        if let Some(executions) = pending.take() {
            multiply(executions);
        }
    }

    let mut results = Vec::new();
    for helper in &helpers {
        match helper.borrow_mut().complete(QueryId) {
            Ok(Completion::Done(bytes)) => results.push(bytes),
            _ => panic!("every helper has completed the query"),
        }
    }
    let results = <[Vec<u8>; 3]>::try_from(results).unwrap();

    assert_eq!(Fp31::truncate_from(20u128), reconstruct(results));
}

#[test]
fn two_queries_in_a_row() {
    for (a, b) in [(4_u128, 5_u128), (30, 30)] {
        let helpers = [
            RefCell::new(Processor::default()),
            RefCell::new(Processor::default()),
            RefCell::new(Processor::default()),
        ];
        let executions = start_query(&helpers, Fp31::truncate_from(a), Fp31::truncate_from(b));
        multiply(executions);
        let mut results = Vec::new();
        for helper in &helpers {
            assert_eq!(
                QueryStatus::Completed,
                helper.borrow_mut().query_status(QueryId).unwrap()
            );
            match helper.borrow_mut().complete(QueryId) {
                Ok(Completion::Done(bytes)) => results.push(bytes),
                _ => panic!("every helper has completed the query"),
            }
        }
        let results = <[Vec<u8>; 3]>::try_from(results).unwrap();
        assert_eq!(Fp31::truncate_from(a * b), reconstruct(results));
    }
}
