//! The sending ends of a gateway's channels.

use crate::helpers::buffers::send::{bytes_of, lemma_payloads_of_bytes, PushError, SendState};
use crate::helpers::buffers::unordered_receiver::{payloads_of, ChannelState};
use crate::helpers::buffers::SendBuffer;
use crate::helpers::gateway::receive::{payload_of, to_payload, Message};
use crate::helpers::{ChannelId, Role};
use crate::protocol::RecordId;
use core::marker::PhantomData;
use vstd::prelude::*;

verus! {

/// The sending end of one channel of the gateway, for messages of the type
/// `M`.
pub struct SendingEnd<M: Message> {
    channel_id: ChannelId,
    _phantom: PhantomData<M>,
}

impl<M: Message> SendingEnd<M> {
    /// The channel that the end belongs to.
    pub closed spec fn channel_spec(&self) -> (Role, Seq<char>) {
        self.channel_id@
    }

    /// The sending end of the channel `channel_id`.
    pub fn new(channel_id: ChannelId) -> (r: SendingEnd<M>)
        ensures
            r.channel_spec() == channel_id@,
    {
        SendingEnd { channel_id, _phantom: PhantomData }
    }

    /// The channel that the end belongs to.
    pub fn channel_id(&self) -> (r: &ChannelId)
        ensures
            r@ == self.channel_spec(),
    {
        &self.channel_id
    }

    /// Sends `value` as the record `record_id` of the channel: the value is
    /// put into a record, which is handed to the send buffer. What comes
    /// back are the bytes that are to go out on the channel now, which are
    /// none when the record has to wait for earlier ones.
    ///
    /// A record that was sent before is refused as `Duplicate`. One that is
    /// too far ahead is refused as `OutOfRange`: the sender is to wait until
    /// earlier records have gone out, and to send again.
    pub fn send(&self, senders: &mut SendBuffer, record_id: RecordId, value: &M) -> (r: Result<
        Vec<u8>,
        PushError,
    >)
        requires
            old(senders).wf(),
        ensures
            final(senders).wf(),
            final(senders).capacity_spec() == old(senders).capacity_spec(),
            forall|id: (Role, Seq<char>)|
                id != self.channel_spec() ==> final(senders).channel(id) == old(senders).channel(id),
            match old(senders).channel(self.channel_spec()).verdict(
                old(senders).capacity_spec(),
                record_id.0,
            ) {
                Some(refusal) => r == Err::<Vec<u8>, PushError>(refusal) && final(senders).channel(
                    self.channel_spec(),
                ) == old(senders).channel(self.channel_spec()),
                None => {
                    &&& r matches Ok(bytes)
                    &&& bytes@ == bytes_of(
                        old(senders).channel(self.channel_spec()).leaving(
                            old(senders).capacity_spec(),
                            record_id.0,
                            payload_of(*value),
                        ),
                    )
                    &&& final(senders).channel(self.channel_spec()) == old(senders).channel(
                        self.channel_spec(),
                    ).push(old(senders).capacity_spec(), record_id.0, payload_of(*value))
                },
            },
    {
        senders.push(&self.channel_id, record_id, to_payload(value))
    }
}

/// The two sides of a channel stay in step: when the bytes that leave the
/// sending side for a record are handed to a receiving side that has got
/// everything that left before, the receiving side has got everything that
/// has left now.
pub proof fn lemma_sides_stay_in_step(
    sender: SendState,
    capacity: nat,
    record: u32,
    payload: Seq<u8>,
    receiver: ChannelState,
)
    requires
        sender.wf(capacity),
        sender.verdict(capacity, record) is None,
        payload.len() == 8,
        receiver.wf(),
        receiver.arrived == sender.sent,
        sender.push(capacity, record, payload).sent.len() <= u32::MAX,
    ensures
        receiver.arrive_all(
            payloads_of(bytes_of(sender.leaving(capacity, record, payload))),
        ).wf(),
        receiver.arrive_all(
            payloads_of(bytes_of(sender.leaving(capacity, record, payload))),
        ).arrived == sender.push(capacity, record, payload).sent,
{
    let gone = sender.leaving(capacity, record, payload);
    let after = sender.push(capacity, record, payload);
    sender.lemma_push(capacity, record, payload);
    assert forall|i: int| 0 <= i < gone.len() implies (#[trigger] gone[i]).len() == 8 by {
        assert(after.sent[sender.sent.len() + i] == gone[i]);
    }
    lemma_payloads_of_bytes(gone);
    receiver.lemma_arrive_all_keeps_wf(gone);
}

/// What a step receives as a record of a channel is what the step on the
/// other side sent as the record with the same number, as long as the
/// transport hands on what leaves the sending side in the order in which it
/// left.
pub proof fn lemma_received_as_sent(
    sender: SendState,
    capacity: nat,
    receiver: ChannelState,
    i: int,
)
    requires
        sender.wf(capacity),
        receiver.wf(),
        receiver.arrived.is_prefix_of(sender.sent),
        0 <= i < receiver.delivered.len(),
    ensures
        receiver.delivered[i].record <= u32::MAX,
        sender.record(receiver.delivered[i].record as u32) == Some(receiver.delivered[i].payload),
{
    let record = receiver.delivered[i].record;
    assert(record < receiver.arrived.len());
    assert(receiver.arrived[record as int] == sender.sent[record as int]);
}

} // verus!
