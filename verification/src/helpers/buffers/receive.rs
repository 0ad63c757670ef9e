//! The receiving side of all channels of a query.

use crate::helpers::buffers::unordered_receiver::{
    payloads_of, without_served, ChannelState, UnorderedReceiver,
};
use crate::helpers::{ChannelId, MessagePayload, Role};
use crate::protocol::RecordId;
use tokio::sync::oneshot;
use vstd::prelude::*;

verus! {

/// One channel and its receiving side.
struct Channel {
    channel_id: ChannelId,
    receiver: UnorderedReceiver,
}

/// Keeps, for every channel, the records that have arrived and that no step
/// has asked for yet, and the requests of steps for records that have not
/// arrived yet. Records of one channel arrive in their order, so the first
/// eight bytes that come in on a channel are its record 0, the next eight
/// its record 1, and so on. Channels are independent of each other.
pub struct ReceiveBuffer {
    channels: Vec<Channel>,
}

impl ReceiveBuffer {
    /// Every channel is in order, and no channel is kept twice.
    pub closed spec fn wf(&self) -> bool {
        &&& forall|i: int|
            0 <= i < self.channels@.len() ==> (#[trigger] self.channels@[i]).receiver.wf()
        &&& forall|i: int, j: int|
            0 <= i < j < self.channels@.len() ==> (#[trigger] self.channels@[i]).channel_id@ != (
            #[trigger] self.channels@[j]).channel_id@
    }

    /// Number of channels that the buffer keeps.
    pub closed spec fn count(&self) -> nat {
        self.channels@.len()
    }

    /// The channel that the buffer keeps at the position `i`.
    pub closed spec fn id_at(&self, i: int) -> (Role, Seq<char>) {
        self.channels@[i].channel_id@
    }

    /// The buffer keeps the channel `id`.
    pub open spec fn knows(&self, id: (Role, Seq<char>)) -> bool {
        exists|i: int| 0 <= i < self.count() && #[trigger] self.id_at(i) == id
    }

    /// The position at which the buffer keeps the channel `id`.
    pub open spec fn position_of(&self, id: (Role, Seq<char>)) -> int {
        choose|i: int| 0 <= i < self.count() && #[trigger] self.id_at(i) == id
    }

    /// The state of the channel `id`. A channel that the buffer does not
    /// keep is empty.
    pub closed spec fn channel(&self, id: (Role, Seq<char>)) -> ChannelState {
        if self.knows(id) {
            self.channels@[self.position_of(id)].receiver@
        } else {
            ChannelState::empty()
        }
    }

    /// The senders that are kept for the channel `id`: for every record
    /// that a request waits for, the sender through which the record is to
    /// go to the step that asked.
    pub closed spec fn senders(&self, id: (Role, Seq<char>)) -> Map<
        u32,
        oneshot::Sender<MessagePayload>,
    > {
        if self.knows(id) {
            self.channels@[self.position_of(id)].receiver.senders()
        } else {
            Map::empty()
        }
    }

    /// A sender is kept for exactly the records that requests wait for.
    pub proof fn lemma_senders(&self, id: (Role, Seq<char>))
        ensures
            self.senders(id).dom() == self.channel(id).waiting(),
    {
        if self.knows(id) {
            self.channels@[self.position_of(id)].receiver.lemma_senders();
        } else {
            assert(self.senders(id).dom() =~= self.channel(id).waiting());
        }
    }

    /// Every channel of a buffer is in order, and its records are numbered
    /// in 32 bits.
    pub proof fn lemma_channels_wf(&self, id: (Role, Seq<char>))
        requires
            self.wf(),
        ensures
            self.channel(id).wf(),
            self.channel(id).arrived.len() <= u32::MAX,
    {
        if self.knows(id) {
            let i = self.position_of(id);
            assert(self.channels@[i].receiver.wf());
            self.channels@[i].receiver.lemma_wf();
        }
    }

    /// A channel that the buffer does not keep is empty.
    pub proof fn lemma_unknown_is_empty(&self, id: (Role, Seq<char>))
        requires
            !self.knows(id),
        ensures
            self.channel(id) == ChannelState::empty(),
            self.senders(id) == Map::<u32, oneshot::Sender<MessagePayload>>::empty(),
    {
    }

    /// A channel is kept at one position only.
    pub proof fn lemma_position(&self, i: int)
        requires
            self.wf(),
            0 <= i < self.count(),
        ensures
            self.knows(self.id_at(i)),
            self.position_of(self.id_at(i)) == i,
    {
        let id = self.id_at(i);
        let k = self.position_of(id);
        if k < i {
            assert(self.channels@[k].channel_id@ != self.channels@[i].channel_id@);
        } else if i < k {
            assert(self.channels@[i].channel_id@ != self.channels@[k].channel_id@);
        }
    }

    proof fn lemma_channel_at(&self, i: int)
        requires
            self.wf(),
            0 <= i < self.channels@.len(),
        ensures
            self.channel(self.channels@[i].channel_id@) == self.channels@[i].receiver@,
            self.senders(self.channels@[i].channel_id@) == self.channels@[i].receiver.senders(),
    {
        self.lemma_position(i);
    }

    /// When one channel of a buffer changes and nothing else does, every
    /// other channel is in the state that it was in.
    proof fn lemma_one_channel_changed(&self, before: &ReceiveBuffer, i: int)
        requires
            before.wf(),
            0 <= i < before.channels@.len(),
            self.channels@.len() == before.channels@.len(),
            self.channels@[i].receiver.wf(),
            self.channels@[i].channel_id == before.channels@[i].channel_id,
            forall|k: int|
                0 <= k < before.channels@.len() && k != i ==> #[trigger] self.channels@[k]
                    == before.channels@[k],
        ensures
            self.wf(),
            self.count() == before.count(),
            forall|k: int| 0 <= k < before.count() ==> #[trigger] self.id_at(k) == before.id_at(k),
            self.channel(before.channels@[i].channel_id@) == self.channels@[i].receiver@,
            self.senders(before.channels@[i].channel_id@) == self.channels@[i].receiver.senders(),
            forall|id: (Role, Seq<char>)|
                id != before.channels@[i].channel_id@ ==> self.channel(id) == before.channel(id),
            forall|id: (Role, Seq<char>)|
                id != before.channels@[i].channel_id@ ==> self.senders(id) == before.senders(id),
    {
        assert forall|k: int| 0 <= k < self.channels@.len() implies (
        #[trigger] self.channels@[k]).receiver.wf() by {
            if k != i {
                assert(self.channels@[k] == before.channels@[k]);
                assert(before.channels@[k].receiver.wf());
            }
        }
        assert forall|k: int| 0 <= k < self.channels@.len() implies #[trigger] self.id_at(k)
            == before.id_at(k) by {
            if k != i {
                assert(self.channels@[k] == before.channels@[k]);
            }
        }
        assert forall|k: int, j: int| 0 <= k < j < self.channels@.len() implies (
        #[trigger] self.channels@[k]).channel_id@ != (#[trigger] self.channels@[j]).channel_id@ by {
            assert(self.id_at(k) == before.id_at(k));
            assert(self.id_at(j) == before.id_at(j));
            assert(before.channels@[k].channel_id@ != before.channels@[j].channel_id@);
        }
        self.lemma_channel_at(i);
        assert forall|id: (Role, Seq<char>)| id != before.channels@[i].channel_id@ implies self.channel(
            id,
        ) == before.channel(id) && self.senders(id) == before.senders(id) by {
            if before.knows(id) {
                let k = before.position_of(id);
                before.lemma_channel_at(k);
                assert(self.channels@[k] == before.channels@[k]);
                self.lemma_channel_at(k);
            } else if self.knows(id) {
                let k = self.position_of(id);
                assert(before.id_at(k) == id);
            }
        }
    }

    /// A buffer without channels.
    pub fn new() -> (r: ReceiveBuffer)
        ensures
            r.wf(),
            r.count() == 0,
            forall|id: (Role, Seq<char>)| r.channel(id) == ChannelState::empty(),
            forall|id: (Role, Seq<char>)|
                r.senders(id) == Map::<u32, oneshot::Sender<MessagePayload>>::empty(),
    {
        ReceiveBuffer { channels: Vec::new() }
    }

    /// Number of channels that the buffer keeps.
    pub fn len(&self) -> (r: usize)
        ensures
            r == self.count(),
    {
        self.channels.len()
    }

    /// The channel that the buffer keeps at the position `i`.
    pub fn channel_id_at(&self, i: usize) -> (r: &ChannelId)
        requires
            i < self.count(),
        ensures
            r@ == self.id_at(i as int),
    {
        &self.channels[i].channel_id
    }

    /// The position of the channel `channel_id` in the buffer.
    pub fn find(&self, channel_id: &ChannelId) -> (r: Option<usize>)
        requires
            self.wf(),
        ensures
            r matches Some(i) ==> self.knows(channel_id@) && i == self.position_of(channel_id@),
            r is None ==> !self.knows(channel_id@),
    {
        let mut i: usize = 0;
        while i < self.channels.len()
            invariant
                self.wf(),
                i <= self.channels@.len(),
                forall|k: int| 0 <= k < i ==> #[trigger] self.id_at(k) != channel_id@,
            decreases self.channels@.len() - i,
        {
            if self.channels[i].channel_id.same_as(channel_id) {
                proof {
                    self.lemma_position(i as int);
                }
                return Some(i);
            }
            i = i + 1;
        }
        None
    }

    /// Takes in a channel that the buffer does not keep yet, with its
    /// receiving side, and tells the position that it got.
    pub fn adopt(&mut self, channel_id: ChannelId, receiver: UnorderedReceiver) -> (i: usize)
        requires
            old(self).wf(),
            !old(self).knows(channel_id@),
            receiver.wf(),
        ensures
            final(self).wf(),
            i == old(self).count(),
            final(self).count() == old(self).count() + 1,
            final(self).id_at(i as int) == channel_id@,
            forall|k: int| 0 <= k < old(self).count() ==> #[trigger] final(self).id_at(k) == old(self).id_at(k),
            final(self).channel(channel_id@) == receiver@,
            final(self).senders(channel_id@) == receiver.senders(),
            forall|id: (Role, Seq<char>)|
                id != channel_id@ ==> final(self).channel(id) == old(self).channel(id),
            forall|id: (Role, Seq<char>)|
                id != channel_id@ ==> final(self).senders(id) == old(self).senders(id),
    {
        self.channels.push(Channel { channel_id, receiver });
        let i = self.channels.len() - 1;
        proof {
            assert forall|k: int, j: int| 0 <= k < j < final(self).channels@.len() implies (
            #[trigger] final(self).channels@[k]).channel_id@ != (#[trigger] final(self).channels@[j]).channel_id@ by {
                assert(final(self).channels@[k] == old(self).channels@[k]);
                assert(old(self).id_at(k) != channel_id@);
                if j < i {
                    assert(final(self).channels@[j] == old(self).channels@[j]);
                }
            }
            assert forall|k: int| 0 <= k < final(self).channels@.len() implies (
            #[trigger] final(self).channels@[k]).receiver.wf() by {
                if k < i {
                    assert(final(self).channels@[k] == old(self).channels@[k]);
                }
            }
            final(self).lemma_channel_at(i as int);
            assert forall|id: (Role, Seq<char>)| id != channel_id@ implies final(self).channel(id)
                == old(self).channel(id) && final(self).senders(id) == old(self).senders(id) by {
                if old(self).knows(id) {
                    let k = old(self).position_of(id);
                    old(self).lemma_channel_at(k);
                    assert(final(self).channels@[k] == old(self).channels@[k]);
                    final(self).lemma_channel_at(k);
                } else if final(self).knows(id) {
                    let k = final(self).position_of(id);
                    assert(final(self).channels@[k] == old(self).channels@[k]);
                    assert(old(self).id_at(k) == id);
                }
            }
        }
        i
    }

    /// The position of the channel `channel_id` in the buffer, which takes
    /// the channel in if it does not keep it yet.
    fn find_or_create(&mut self, channel_id: &ChannelId) -> (i: usize)
        requires
            old(self).wf(),
        ensures
            final(self).wf(),
            i < final(self).count(),
            final(self).id_at(i as int) == channel_id@,
            forall|id: (Role, Seq<char>)| final(self).channel(id) == old(self).channel(id),
            forall|id: (Role, Seq<char>)| final(self).senders(id) == old(self).senders(id),
    {
        match self.find(channel_id) {
            Some(i) => i,
            None => self.adopt(channel_id.duplicate(), UnorderedReceiver::new()),
        }
    }

    /// The number of the next record that is to arrive on the channel
    /// `channel_id`.
    pub fn next_record_id(&self, channel_id: &ChannelId) -> (r: RecordId)
        requires
            self.wf(),
        ensures
            r.0 == self.channel(channel_id@).arrived.len(),
    {
        match self.find(channel_id) {
            Some(i) => {
                proof {
                    self.lemma_channel_at(i as int);
                }
                self.channels[i].receiver.next_record_id()
            },
            None => RecordId(0),
        }
    }

    /// Whether a request waits for the record `record_id` of the channel
    /// `channel_id`.
    pub fn is_requested(&self, channel_id: &ChannelId, record_id: RecordId) -> (r: bool)
        requires
            self.wf(),
        ensures
            r == (self.channel(channel_id@).slots.contains_key(record_id.0) && self.channel(
                channel_id@,
            ).slots[record_id.0] is Requested),
    {
        match self.find(channel_id) {
            Some(i) => {
                proof {
                    self.lemma_channel_at(i as int);
                }
                self.channels[i].receiver.is_requested(record_id)
            },
            None => false,
        }
    }

    /// Whether the record `record_id` of the channel `channel_id` has
    /// arrived and waits for a request.
    pub fn is_received(&self, channel_id: &ChannelId, record_id: RecordId) -> (r: bool)
        requires
            self.wf(),
        ensures
            r == (self.channel(channel_id@).slots.contains_key(record_id.0) && self.channel(
                channel_id@,
            ).slots[record_id.0] is Received),
    {
        match self.find(channel_id) {
            Some(i) => {
                proof {
                    self.lemma_channel_at(i as int);
                }
                self.channels[i].receiver.is_received(record_id)
            },
            None => false,
        }
    }

    /// Takes the request of a step for the record `record_id` of the channel
    /// `channel_id`. If the record has arrived, it is sent through `sender`
    /// at once and leaves the buffer; if not, `sender` is kept until the
    /// record arrives. No other channel and no other sender is touched.
    ///
    /// Asking twice for a record that has not arrived is an error of the
    /// caller.
    pub fn receive_request(
        &mut self,
        channel_id: ChannelId,
        record_id: RecordId,
        sender: oneshot::Sender<MessagePayload>,
    )
        requires
            old(self).wf(),
            !(old(self).channel(channel_id@).slots.contains_key(record_id.0) && old(self).channel(
                channel_id@,
            ).slots[record_id.0] is Requested),
        ensures
            final(self).wf(),
            final(self).channel(channel_id@) == old(self).channel(channel_id@).request(record_id.0),
            old(self).channel(channel_id@).slots.contains_key(record_id.0) ==> final(self).senders(
                channel_id@,
            ) == old(self).senders(channel_id@),
            !old(self).channel(channel_id@).slots.contains_key(record_id.0) ==> final(self).senders(
                channel_id@,
            ) == old(self).senders(channel_id@).insert(record_id.0, sender),
            forall|id: (Role, Seq<char>)|
                id != channel_id@ ==> final(self).channel(id) == old(self).channel(id),
            forall|id: (Role, Seq<char>)|
                id != channel_id@ ==> final(self).senders(id) == old(self).senders(id),
    {
        let i = self.find_or_create(&channel_id);
        self.recv_at(i, record_id, sender);
    }

    /// Takes the bytes `messages` that arrived on the channel `channel_id`.
    /// Every eight bytes are one record; the records take the next numbers
    /// of the channel in their order. A record that a step has asked for is
    /// sent to that step at once; the others are kept until they are asked
    /// for. No other channel is touched.
    ///
    /// The bytes must be whole records, and record numbers must stay below
    /// 2^32 - 1.
    pub fn receive_messages(&mut self, channel_id: &ChannelId, messages: &[u8])
        requires
            old(self).wf(),
            messages@.len() % 8 == 0,
            old(self).channel(channel_id@).arrived.len() + messages@.len() / 8 <= u32::MAX,
        ensures
            final(self).wf(),
            final(self).channel(channel_id@) == old(self).channel(channel_id@).arrive_all(
                payloads_of(messages@),
            ),
            final(self).senders(channel_id@) == without_served(
                old(self).senders(channel_id@),
                old(self).channel(channel_id@).arrived.len(),
                messages@.len() / 8,
            ),
            forall|id: (Role, Seq<char>)|
                id != channel_id@ ==> final(self).channel(id) == old(self).channel(id),
            forall|id: (Role, Seq<char>)|
                id != channel_id@ ==> final(self).senders(id) == old(self).senders(id),
    {
        let i = self.find_or_create(channel_id);
        self.receive_chunk_at(i, messages);
    }

    /// `receive_request` for the channel at the position `i`.
    pub fn recv_at(&mut self, i: usize, record_id: RecordId, sender: oneshot::Sender<MessagePayload>)
        requires
            old(self).wf(),
            i < old(self).count(),
            !(old(self).channel(old(self).id_at(i as int)).slots.contains_key(record_id.0) && old(self).channel(old(self).id_at(i as int)).slots[record_id.0] is Requested),
        ensures
            final(self).wf(),
            final(self).count() == old(self).count(),
            forall|k: int| 0 <= k < old(self).count() ==> #[trigger] final(self).id_at(k) == old(self).id_at(k),
            final(self).channel(old(self).id_at(i as int)) == old(self).channel(
                old(self).id_at(i as int),
            ).request(record_id.0),
            old(self).channel(old(self).id_at(i as int)).slots.contains_key(record_id.0)
                ==> final(self).senders(old(self).id_at(i as int)) == old(self).senders(
                old(self).id_at(i as int),
            ),
            !old(self).channel(old(self).id_at(i as int)).slots.contains_key(record_id.0)
                ==> final(self).senders(old(self).id_at(i as int)) == old(self).senders(
                old(self).id_at(i as int),
            ).insert(record_id.0, sender),
            forall|id: (Role, Seq<char>)|
                id != old(self).id_at(i as int) ==> final(self).channel(id) == old(self).channel(id),
            forall|id: (Role, Seq<char>)|
                id != old(self).id_at(i as int) ==> final(self).senders(id) == old(self).senders(id),
    {
        let ghost before = *self;
        proof {
            before.lemma_channel_at(i as int);
        }
        self.channels[i].receiver.recv(record_id, sender);
        proof {
            self.lemma_one_channel_changed(&before, i as int);
        }
    }

    /// `receive_messages` for the channel at the position `i`.
    pub fn receive_chunk_at(&mut self, i: usize, messages: &[u8])
        requires
            old(self).wf(),
            i < old(self).count(),
            messages@.len() % 8 == 0,
            old(self).channel(old(self).id_at(i as int)).arrived.len() + messages@.len() / 8
                <= u32::MAX,
        ensures
            final(self).wf(),
            final(self).count() == old(self).count(),
            forall|k: int| 0 <= k < old(self).count() ==> #[trigger] final(self).id_at(k) == old(self).id_at(k),
            final(self).channel(old(self).id_at(i as int)) == old(self).channel(
                old(self).id_at(i as int),
            ).arrive_all(payloads_of(messages@)),
            final(self).senders(old(self).id_at(i as int)) == without_served(
                old(self).senders(old(self).id_at(i as int)),
                old(self).channel(old(self).id_at(i as int)).arrived.len(),
                messages@.len() / 8,
            ),
            forall|id: (Role, Seq<char>)|
                id != old(self).id_at(i as int) ==> final(self).channel(id) == old(self).channel(id),
            forall|id: (Role, Seq<char>)|
                id != old(self).id_at(i as int) ==> final(self).senders(id) == old(self).senders(id),
    {
        let ghost before = *self;
        proof {
            before.lemma_channel_at(i as int);
        }
        self.channels[i].receiver.receive_chunk(messages);
        proof {
            self.lemma_one_channel_changed(&before, i as int);
        }
    }

    /// Takes the report of a step that it took the record that was on its
    /// way to it on the channel at the position `i`.
    pub fn acknowledge_at(&mut self, i: usize)
        requires
            old(self).wf(),
            i < old(self).count(),
        ensures
            final(self).wf(),
            final(self).count() == old(self).count(),
            forall|k: int| 0 <= k < old(self).count() ==> #[trigger] final(self).id_at(k) == old(self).id_at(k),
            final(self).channel(old(self).id_at(i as int)) == old(self).channel(
                old(self).id_at(i as int),
            ).acknowledge(),
            final(self).senders(old(self).id_at(i as int)) == old(self).senders(
                old(self).id_at(i as int),
            ),
            forall|id: (Role, Seq<char>)|
                id != old(self).id_at(i as int) ==> final(self).channel(id) == old(self).channel(id),
            forall|id: (Role, Seq<char>)|
                id != old(self).id_at(i as int) ==> final(self).senders(id) == old(self).senders(id),
    {
        let ghost before = *self;
        proof {
            before.lemma_channel_at(i as int);
        }
        self.channels[i].receiver.acknowledge();
        proof {
            self.lemma_one_channel_changed(&before, i as int);
        }
    }

    /// Tells whether the channel at the position `i` is idle, and lets what
    /// was on its way count as taken.
    pub fn check_idle_and_reset_at(&mut self, i: usize) -> (r: bool)
        requires
            old(self).wf(),
            i < old(self).count(),
        ensures
            final(self).wf(),
            final(self).count() == old(self).count(),
            forall|k: int| 0 <= k < old(self).count() ==> #[trigger] final(self).id_at(k) == old(self).id_at(k),
            r == old(self).channel(old(self).id_at(i as int)).idle(),
            final(self).channel(old(self).id_at(i as int)) == old(self).channel(
                old(self).id_at(i as int),
            ).rested(),
            final(self).senders(old(self).id_at(i as int)) == old(self).senders(
                old(self).id_at(i as int),
            ),
            forall|id: (Role, Seq<char>)|
                id != old(self).id_at(i as int) ==> final(self).channel(id) == old(self).channel(id),
            forall|id: (Role, Seq<char>)|
                id != old(self).id_at(i as int) ==> final(self).senders(id) == old(self).senders(id),
    {
        let ghost before = *self;
        proof {
            before.lemma_channel_at(i as int);
        }
        let r = self.channels[i].receiver.check_idle_and_reset();
        proof {
            self.lemma_one_channel_changed(&before, i as int);
        }
        r
    }

    /// The numbers of the records that requests wait for on the channel at
    /// the position `i`, in no particular order.
    pub fn waiting_at(&self, i: usize) -> (r: Vec<usize>)
        requires
            self.wf(),
            i < self.count(),
        ensures
            r@.no_duplicates(),
            forall|x: usize| #[trigger]
                r@.contains(x) ==> x <= u32::MAX && self.channel(
                    self.id_at(i as int),
                ).waiting().contains(x as u32),
            forall|k: u32| #[trigger]
                self.channel(self.id_at(i as int)).waiting().contains(k) ==> r@.contains(k as usize),
    {
        proof {
            self.lemma_channel_at(i as int);
        }
        self.channels[i].receiver.get_waiting_messages()
    }
}

impl Default for ReceiveBuffer {
    fn default() -> (r: ReceiveBuffer)
        ensures
            r.wf(),
            r.count() == 0,
            forall|id: (Role, Seq<char>)| r.channel(id) == ChannelState::empty(),
            forall|id: (Role, Seq<char>)|
                r.senders(id) == Map::<u32, oneshot::Sender<MessagePayload>>::empty(),
    {
        ReceiveBuffer::new()
    }
}

} // verus!
