use raw_ipa::helpers::buffers::send::PushError;
use raw_ipa::helpers::buffers::SendBuffer;
use raw_ipa::helpers::{ChannelId, Gate, MessagePayload, Role};
use raw_ipa::protocol::RecordId;

fn channel(role: Role, gate: &str) -> ChannelId {
    ChannelId::new(role, Gate::from_str(gate))
}

fn payload(seed: u8) -> MessagePayload {
    [seed; 8]
}

#[test]
fn records_in_order_leave_at_once() {
    let mut buffer = SendBuffer::new(4);
    let id = channel(Role::H2, "a");
    assert_eq!(0, buffer.frontier(&id));
    for record in 0..10_u32 {
        let seed = u8::try_from(record).unwrap();
        assert_eq!(Ok(payload(seed).to_vec()), buffer.push(&id, RecordId(record), payload(seed)));
        assert_eq!(u64::from(record) + 1, buffer.frontier(&id));
    }
}

#[test]
fn records_wait_for_earlier_ones() {
    let mut buffer = SendBuffer::new(8);
    let id = channel(Role::H3, "b");
    assert_eq!(Ok(vec![]), buffer.push(&id, RecordId(2), payload(2)));
    assert_eq!(Ok(vec![]), buffer.push(&id, RecordId(1), payload(1)));
    assert_eq!(Ok(vec![]), buffer.push(&id, RecordId(4), payload(4)));
    assert_eq!(0, buffer.frontier(&id));

    let expected = [payload(0), payload(1), payload(2)].concat();
    assert_eq!(Ok(expected), buffer.push(&id, RecordId(0), payload(0)));
    assert_eq!(3, buffer.frontier(&id));

    let expected = [payload(3), payload(4)].concat();
    assert_eq!(Ok(expected), buffer.push(&id, RecordId(3), payload(3)));
    assert_eq!(5, buffer.frontier(&id));
}

#[test]
fn a_record_is_taken_once() {
    let mut buffer = SendBuffer::new(8);
    let id = channel(Role::H1, "c");
    buffer.push(&id, RecordId(0), payload(0)).unwrap();
    buffer.push(&id, RecordId(2), payload(2)).unwrap();
    // One that has left, and one that waits.
    assert_eq!(
        Err(PushError::Duplicate { record_id: RecordId(0) }),
        buffer.push(&id, RecordId(0), payload(9))
    );
    assert_eq!(
        Err(PushError::Duplicate { record_id: RecordId(2) }),
        buffer.push(&id, RecordId(2), payload(9))
    );
    // What was handed in first is what leaves.
    assert_eq!(
        Ok([payload(1), payload(2)].concat()),
        buffer.push(&id, RecordId(1), payload(1))
    );
}

#[test]
fn a_record_that_is_too_far_ahead_is_sent_back() {
    let mut buffer = SendBuffer::new(4);
    let id = channel(Role::H1, "d");
    assert_eq!(Ok(vec![]), buffer.push(&id, RecordId(3), payload(3)));
    assert_eq!(
        Err(PushError::OutOfRange { record_id: RecordId(4) }),
        buffer.push(&id, RecordId(4), payload(4))
    );
    assert_eq!(
        Err(PushError::OutOfRange { record_id: RecordId(u32::MAX) }),
        buffer.push(&id, RecordId(u32::MAX), payload(5))
    );
    assert_eq!(Ok(payload(0).to_vec()), buffer.push(&id, RecordId(0), payload(0)));
    // The window has moved on by one.
    assert_eq!(Ok(vec![]), buffer.push(&id, RecordId(4), payload(4)));
    assert_eq!(
        Err(PushError::OutOfRange { record_id: RecordId(5) }),
        buffer.push(&id, RecordId(5), payload(5))
    );
}

#[test]
fn a_buffer_without_room_takes_nothing() {
    let mut buffer = SendBuffer::new(0);
    let id = channel(Role::H1, "e");
    assert_eq!(
        Err(PushError::OutOfRange { record_id: RecordId(0) }),
        buffer.push(&id, RecordId(0), payload(0))
    );
}

#[test]
fn sending_channels_do_not_mix() {
    let mut buffer = SendBuffer::new(4);
    let x = channel(Role::H2, "x");
    let y = channel(Role::H2, "y");
    let x_of_h3 = channel(Role::H3, "x");
    assert_eq!(Ok(vec![]), buffer.push(&x, RecordId(1), payload(1)));
    assert_eq!(Ok(payload(7).to_vec()), buffer.push(&y, RecordId(0), payload(7)));
    assert_eq!(Ok(payload(8).to_vec()), buffer.push(&x_of_h3, RecordId(0), payload(8)));
    assert_eq!(0, buffer.frontier(&x));
    assert_eq!(1, buffer.frontier(&y));
    assert_eq!(
        Ok([payload(0), payload(1)].concat()),
        buffer.push(&x, RecordId(0), payload(0))
    );
}
