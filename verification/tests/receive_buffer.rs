use raw_ipa::helpers::buffers::{ReceiveBuffer, UnorderedReceiver};
use raw_ipa::helpers::{ChannelId, Gate, MessagePayload, Role};
use raw_ipa::protocol::RecordId;
use tokio::sync::oneshot;
use tokio::sync::oneshot::error::TryRecvError;

fn channel(role: Role, gate: &str) -> ChannelId {
    ChannelId::new(role, Gate::from_str(gate))
}

fn payload(seed: u8) -> MessagePayload {
    [seed, seed + 1, seed + 2, seed + 3, seed + 4, seed + 5, seed + 6, seed + 7]
}

#[test]
fn a_request_waits_for_its_record() {
    let mut buffer = ReceiveBuffer::default();
    let id = channel(Role::H1, "a");
    let (tx, mut rx) = oneshot::channel();

    buffer.receive_request(id.clone(), RecordId(0), tx);
    assert!(buffer.is_requested(&id, RecordId(0)));
    assert_eq!(Err(TryRecvError::Empty), rx.try_recv());

    buffer.receive_messages(&id, &payload(10));
    assert_eq!(Ok(payload(10)), rx.try_recv());
    assert!(!buffer.is_requested(&id, RecordId(0)));
    assert!(!buffer.is_received(&id, RecordId(0)));
    assert_eq!(RecordId(1), buffer.next_record_id(&id));
}

#[test]
fn a_record_waits_for_its_request() {
    let mut buffer = ReceiveBuffer::new();
    let id = channel(Role::H3, "b");

    buffer.receive_messages(&id, &payload(20));
    assert!(buffer.is_received(&id, RecordId(0)));
    assert!(!buffer.is_requested(&id, RecordId(0)));

    let (tx, mut rx) = oneshot::channel();
    buffer.receive_request(id.clone(), RecordId(0), tx);
    assert_eq!(Ok(payload(20)), rx.try_recv());
    assert!(!buffer.is_received(&id, RecordId(0)));
}

#[test]
fn records_are_numbered_in_the_order_of_arrival() {
    let mut buffer = ReceiveBuffer::new();
    let id = channel(Role::H2, "c");
    let mut chunk = Vec::new();
    chunk.extend_from_slice(&payload(0));
    chunk.extend_from_slice(&payload(50));
    buffer.receive_messages(&id, &chunk);
    buffer.receive_messages(&id, &payload(100));
    buffer.receive_messages(&id, &[]);
    assert_eq!(RecordId(3), buffer.next_record_id(&id));

    for (record, seed) in [(2_u32, 100_u8), (0, 0), (1, 50)] {
        let (tx, mut rx) = oneshot::channel();
        buffer.receive_request(id.clone(), RecordId(record), tx);
        assert_eq!(Ok(payload(seed)), rx.try_recv());
    }
}

#[test]
fn channels_do_not_mix() {
    let mut buffer = ReceiveBuffer::new();
    let same_gate_other_role = channel(Role::H1, "x");
    let id = channel(Role::H2, "x");
    let same_role_other_gate = channel(Role::H2, "y");

    let (tx, mut rx) = oneshot::channel();
    buffer.receive_request(id.clone(), RecordId(0), tx);
    buffer.receive_messages(&same_gate_other_role, &payload(1));
    buffer.receive_messages(&same_role_other_gate, &payload(2));
    assert_eq!(Err(TryRecvError::Empty), rx.try_recv());
    assert_eq!(RecordId(0), buffer.next_record_id(&id));
    assert_eq!(RecordId(1), buffer.next_record_id(&same_gate_other_role));

    buffer.receive_messages(&id, &payload(3));
    assert_eq!(Ok(payload(3)), rx.try_recv());
    assert!(buffer.is_received(&same_gate_other_role, RecordId(0)));
    assert!(buffer.is_received(&same_role_other_gate, RecordId(0)));
}

#[test]
fn a_request_whose_asker_went_away_is_dropped() {
    let mut buffer = ReceiveBuffer::new();
    let id = channel(Role::H1, "gone");
    let (tx, rx) = oneshot::channel();
    buffer.receive_request(id.clone(), RecordId(0), tx);
    drop(rx);
    buffer.receive_messages(&id, &payload(7));
    assert!(!buffer.is_requested(&id, RecordId(0)));
    assert!(!buffer.is_received(&id, RecordId(0)));
}

#[test]
fn a_receiver_tells_what_is_waited_for() {
    let mut receiver = UnorderedReceiver::new();
    assert!(receiver.get_waiting_messages().is_empty());
    let mut ends = Vec::new();
    for record in [5_u32, 1, 9] {
        let (tx, rx) = oneshot::channel();
        receiver.recv(RecordId(record), tx);
        ends.push(rx);
    }
    let mut waiting = receiver.get_waiting_messages();
    waiting.sort_unstable();
    assert_eq!(vec![1, 5, 9], waiting);

    let mut chunk = Vec::new();
    chunk.extend_from_slice(&payload(0));
    chunk.extend_from_slice(&payload(8));
    receiver.receive_chunk(&chunk);
    assert_eq!(Ok(payload(8)), ends[1].try_recv());
    let mut waiting = receiver.get_waiting_messages();
    waiting.sort_unstable();
    assert_eq!(vec![5, 9], waiting);
    assert!(receiver.is_received(RecordId(0)));
    assert!(receiver.is_requested(RecordId(5)));
    assert_eq!(RecordId(2), receiver.next_record_id());
}

#[test]
fn a_receiver_is_idle_when_nothing_waits_and_nothing_is_on_its_way() {
    let mut receiver = UnorderedReceiver::new();
    assert!(receiver.check_idle_and_reset());

    receiver.receive(payload(1));
    assert!(!receiver.check_idle_and_reset());

    let (tx, mut rx) = oneshot::channel();
    receiver.recv(RecordId(0), tx);
    // The record is on its way to the asker.
    assert!(!receiver.check_idle_and_reset());
    // The check let it count as taken.
    assert!(receiver.check_idle_and_reset());
    assert_eq!(Ok(payload(1)), rx.try_recv());

    let (tx, _rx) = oneshot::channel();
    receiver.recv(RecordId(1), tx);
    assert!(!receiver.check_idle_and_reset());
    receiver.receive(payload(2));
    receiver.acknowledge();
    assert!(receiver.check_idle_and_reset());
    // Reporting more than was on its way changes nothing.
    receiver.acknowledge();
    assert!(receiver.check_idle_and_reset());
}

#[test]
fn every_request_is_served_through_its_own_sender() {
    let mut buffer = ReceiveBuffer::new();
    let id = channel(Role::H2, "own");
    let (tx_2, mut rx_2) = oneshot::channel();
    let (tx_0, mut rx_0) = oneshot::channel();
    let (tx_1, mut rx_1) = oneshot::channel();
    buffer.receive_request(id.clone(), RecordId(2), tx_2);
    buffer.receive_request(id.clone(), RecordId(0), tx_0);
    buffer.receive_request(id.clone(), RecordId(1), tx_1);

    buffer.receive_messages(&id, &payload(10));
    assert_eq!(Ok(payload(10)), rx_0.try_recv());
    assert_eq!(Err(TryRecvError::Empty), rx_1.try_recv());
    assert_eq!(Err(TryRecvError::Empty), rx_2.try_recv());

    buffer.receive_messages(&id, &[payload(20), payload(30)].concat());
    assert_eq!(Ok(payload(20)), rx_1.try_recv());
    assert_eq!(Ok(payload(30)), rx_2.try_recv());
}
