//! The receiving ends of a gateway's channels.

use crate::ff::{Fp31, Fp32BitPrime, Gf2, Gf32Bit, Serializable};
use crate::secret_sharing::replicated::malicious::AdditiveShare as MaliciousAdditiveShare;
use crate::secret_sharing::replicated::semi_honest::AdditiveShare;
use crate::helpers::buffers::unordered_receiver::{
    without_served, ChannelState, UnorderedReceiver,
};
use crate::helpers::buffers::ReceiveBuffer;
use crate::helpers::{ChannelId, Error, MessagePayload, ReceiveFailure, Role};
use crate::protocol::RecordId;
use core::marker::PhantomData;
use dashmap::DashMap;
use tokio::sync::oneshot;
use vstd::prelude::*;

verus! {

/// `dashmap::DashMap`, of which the verifier sees nothing.
#[verifier::external_type_specification]
#[verifier::external_body]
#[verifier::reject_recursive_types(K)]
#[verifier::reject_recursive_types(V)]
#[verifier::reject_recursive_types(S)]
pub struct ExDashMap<K, V, S>(DashMap<K, V, S>);

/// What an index of channels holds: for each channel, given by the number
/// of its role and the name of its gate, a position.
pub uninterp spec fn index_contents(index: DashMap<(u8, String), usize>) -> Map<
    (u8, Seq<char>),
    usize,
>;

/// An index that holds nothing.
pub open spec fn empty_index() -> Map<(u8, Seq<char>), usize> {
    Map::empty()
}

/// `dashmap::DashMap::new` makes a map that holds nothing.
#[verifier::external_body]
fn index_new() -> (r: DashMap<(u8, String), usize>)
    ensures
        index_contents(r) == empty_index(),
{
    DashMap::new()
}

/// `dashmap::DashMap::get` looks a key up: it finds the value that was
/// inserted last under an equal key, or nothing if there was none. The
/// value is copied out, so no reference into the map stays behind.
#[verifier::external_body]
fn index_get(index: &DashMap<(u8, String), usize>, key: &(u8, String)) -> (r: Option<usize>)
    ensures
        r == (if index_contents(*index).contains_key((key.0, key.1@)) {
            Some(index_contents(*index)[(key.0, key.1@)])
        } else {
            None
        }),
{
    match index.get(key) {
        Some(entry) => Some(*entry.value()),
        None => None,
    }
}

/// `dashmap::DashMap::insert` puts a value under a key, in place of what
/// was there under an equal key, and leaves all other keys as they are.
#[verifier::external_body]
fn index_insert(index: &mut DashMap<(u8, String), usize>, key: (u8, String), position: usize)
    ensures
        index_contents(*final(index)) == index_contents(*old(index)).insert(
            (key.0, key.1@),
            position,
        ),
{
    index.insert(key, position);
}

/// A value that travels between helpers as one record.
pub trait Message: Serializable {
    /// The serialised form fits into one record.
    proof fn lemma_fits_payload()
        ensures
            0 < Self::size_spec() <= 8,
    ;
}

impl Message for Fp31 {
    proof fn lemma_fits_payload() {
    }
}

impl Message for Fp32BitPrime {
    proof fn lemma_fits_payload() {
    }
}

impl Message for Gf2 {
    proof fn lemma_fits_payload() {
    }
}

impl Message for Gf32Bit {
    proof fn lemma_fits_payload() {
    }
}

impl Message for AdditiveShare<Fp31> {
    proof fn lemma_fits_payload() {
    }
}

impl Message for AdditiveShare<Fp32BitPrime> {
    proof fn lemma_fits_payload() {
    }
}

impl Message for AdditiveShare<Gf2> {
    proof fn lemma_fits_payload() {
    }
}

impl Message for AdditiveShare<Gf32Bit> {
    proof fn lemma_fits_payload() {
    }
}

impl Message for MaliciousAdditiveShare<Fp31> {
    proof fn lemma_fits_payload() {
    }
}

/// The message that a record holds: the record's first bytes, as many as
/// the message is wide, are its serialised form.
pub open spec fn message_of<M: Message>(payload: Seq<u8>) -> M {
    M::from_bytes(payload.subrange(0, M::size_spec() as int))
}

/// The record that holds a message: its serialised form, filled up with
/// zeros.
pub open spec fn payload_of<M: Message>(message: M) -> Seq<u8> {
    message.to_bytes() + Seq::new((8 - M::size_spec()) as nat, |i: int| 0u8)
}

/// A record holds the message that was put into it.
pub proof fn lemma_message_round_trip<M: Message>(message: M)
    requires
        message.restorable(),
    ensures
        payload_of(message).len() == 8,
        message_of::<M>(payload_of(message)) == message,
{
    M::lemma_fits_payload();
    M::lemma_round_trip(message);
    assert(payload_of(message).subrange(0, M::size_spec() as int) =~= message.to_bytes());
}

/// Puts a message into a record.
pub fn to_payload<M: Message>(message: &M) -> (r: MessagePayload)
    ensures
        r@ == payload_of(*message),
{
    proof {
        M::lemma_fits_payload();
        M::lemma_round_trip(*message);
    }
    let mut payload: MessagePayload = [0, 0, 0, 0, 0, 0, 0, 0];
    let slice = vstd::array::ref_mut_array_unsizing_coercion(&mut payload);
    let (front, back) = slice.split_at_mut(M::size());
    message.serialize(front);
    assert(payload@ =~= payload_of(*message));
    payload
}

/// Takes a message out of a record.
pub fn from_payload<M: Message>(payload: &MessagePayload) -> (r: M)
    ensures
        r == message_of::<M>(payload@),
{
    proof {
        M::lemma_fits_payload();
    }
    let bytes = payload.as_slice();
    M::deserialize(&bytes[0..M::size()])
}

/// The handle of a channel's receiving side within the gateway.
#[derive(Clone, Copy, Debug, PartialEq, Eq, Structural)]
pub struct UR {
    position: usize,
}

impl UR {
    /// The position that the handle stands for.
    pub closed spec fn position_spec(self) -> int {
        self.position as int
    }
}

/// Receiving channels, indexed by role and step.
pub struct GatewayReceivers {
    inner: DashMap<(u8, String), usize>,
    receivers: ReceiveBuffer,
}

/// The key under which the index keeps a channel.
pub open spec fn key_of(id: (Role, Seq<char>)) -> (u8, Seq<char>) {
    (id.0.index_spec() as u8, id.1)
}

impl GatewayReceivers {
    /// Every channel is in order, and the index leads to every channel that
    /// there is and to nothing else.
    pub closed spec fn wf(&self) -> bool {
        &&& self.receivers.wf()
        &&& forall|id: (Role, Seq<char>)| #[trigger]
            self.receivers.knows(id) ==> {
                &&& index_contents(self.inner).contains_key(key_of(id))
                &&& index_contents(self.inner)[key_of(id)] == self.receivers.position_of(id)
            }
        &&& forall|id: (Role, Seq<char>)|
            index_contents(self.inner).contains_key(#[trigger] key_of(id)) ==> self.receivers.knows(
                id,
            )
    }

    /// The gateway has a receiving side for the channel `id`.
    pub closed spec fn knows(&self, id: (Role, Seq<char>)) -> bool {
        self.receivers.knows(id)
    }

    /// The state of the channel `id`. A channel without a receiving side is
    /// empty.
    pub closed spec fn channel(&self, id: (Role, Seq<char>)) -> ChannelState {
        self.receivers.channel(id)
    }

    /// `handle` is the handle of the channel `id`.
    pub closed spec fn leads_to(&self, handle: UR, id: (Role, Seq<char>)) -> bool {
        handle.position < self.receivers.count() && self.receivers.id_at(handle.position as int)
            == id
    }

    /// A handle leads to one channel only, and only to a channel that has a
    /// receiving side.
    pub proof fn lemma_leads_to(&self, handle: UR, id: (Role, Seq<char>), other: (Role, Seq<char>))
        requires
            self.leads_to(handle, id),
        ensures
            self.knows(id),
            self.leads_to(handle, other) ==> other == id,
    {
    }

    /// The senders that are kept for the channel `id`: for every record
    /// that a request waits for, the sender through which the record is to
    /// go to the step that asked.
    pub closed spec fn senders(&self, id: (Role, Seq<char>)) -> Map<
        u32,
        oneshot::Sender<MessagePayload>,
    > {
        self.receivers.senders(id)
    }

    /// A sender is kept for exactly the records that requests wait for.
    pub proof fn lemma_senders(&self, id: (Role, Seq<char>))
        ensures
            self.senders(id).dom() == self.channel(id).waiting(),
    {
        self.receivers.lemma_senders(id);
    }

    /// A channel without a receiving side is empty.
    pub proof fn lemma_unknown_is_empty(&self, id: (Role, Seq<char>))
        requires
            !self.knows(id),
        ensures
            self.channel(id) == ChannelState::empty(),
            self.senders(id) == Map::<u32, oneshot::Sender<MessagePayload>>::empty(),
    {
        self.receivers.lemma_unknown_is_empty(id);
    }

    /// Every channel of a gateway is in order.
    pub proof fn lemma_channels_wf(&self, id: (Role, Seq<char>))
        requires
            self.wf(),
        ensures
            self.channel(id).wf(),
            self.channel(id).arrived.len() <= u32::MAX,
    {
        self.receivers.lemma_channels_wf(id);
    }

    /// The receiving side of the channel `channel_id`. If there is none yet,
    /// `ctr` makes one, which is kept for the channel from now on; if there
    /// is one, `ctr` is not called and nothing changes.
    pub fn get_or_create<F: FnOnce() -> UnorderedReceiver>(
        &mut self,
        channel_id: &ChannelId,
        ctr: F,
    ) -> (r: UR)
        requires
            old(self).wf(),
            call_requires(ctr, ()),
            forall|made: UnorderedReceiver| call_ensures(ctr, (), made) ==> made.wf(),
        ensures
            final(self).wf(),
            final(self).leads_to(r, channel_id@),
            forall|id: (Role, Seq<char>)|
                final(self).knows(id) <==> old(self).knows(id) || id == channel_id@,
            forall|id: (Role, Seq<char>), handle: UR|
                old(self).leads_to(handle, id) ==> final(self).leads_to(handle, id),
            forall|id: (Role, Seq<char>)|
                id != channel_id@ ==> final(self).channel(id) == old(self).channel(id),
            forall|id: (Role, Seq<char>)|
                id != channel_id@ ==> final(self).senders(id) == old(self).senders(id),
            old(self).knows(channel_id@) ==> final(self).channel(channel_id@) == old(self).channel(
                channel_id@,
            ) && final(self).senders(channel_id@) == old(self).senders(channel_id@),
            !old(self).knows(channel_id@) ==> exists|made: UnorderedReceiver|
                call_ensures(ctr, (), made) && final(self).channel(channel_id@) == made@
                    && final(self).senders(channel_id@) == made.senders(),
    {
        let key = (channel_id.role.index(), channel_id.gate.to_string());
        assert(key_of(channel_id@) == (key.0, key.1@));
        match index_get(&self.inner, &key) {
            Some(position) => {
                assert(self.receivers.knows(channel_id@));
                UR { position }
            },
            None => {
                assert(!self.receivers.knows(channel_id@));
                let stream = ctr();
                let position = self.receivers.adopt(channel_id.duplicate(), stream);
                index_insert(&mut self.inner, key, position);
                proof {
                    final(self).receivers.lemma_position(position as int);
                    assert forall|id: (Role, Seq<char>)| #[trigger]
                        final(self).receivers.knows(id) implies {
                        &&& index_contents(final(self).inner).contains_key(key_of(id))
                        &&& index_contents(final(self).inner)[key_of(id)] == final(self).receivers.position_of(id)
                    } by {
                        let k = final(self).receivers.position_of(id);
                        if k < position {
                            assert(old(self).receivers.id_at(k) == id);
                            assert(old(self).receivers.knows(id));
                            old(self).receivers.lemma_position(k);
                            lemma_key_of_injective(id, channel_id@);
                        } else {
                            assert(id == channel_id@);
                        }
                    }
                    assert forall|id: (Role, Seq<char>)|
                        index_contents(final(self).inner).contains_key(
                            #[trigger] key_of(id),
                        ) implies final(self).receivers.knows(id) by {
                        lemma_key_of_injective(id, channel_id@);
                        if id != channel_id@ {
                            assert(old(self).receivers.knows(id));
                            let k = old(self).receivers.position_of(id);
                            assert(final(self).receivers.id_at(k) == id);
                        }
                    }
                    assert forall|id: (Role, Seq<char>)|
                        final(self).knows(id) <==> old(self).knows(id) || id == channel_id@ by {
                        if old(self).knows(id) {
                            let k = old(self).receivers.position_of(id);
                            assert(final(self).receivers.id_at(k) == id);
                        }
                        if final(self).knows(id) && id != channel_id@ {
                            let k = final(self).receivers.position_of(id);
                            assert(old(self).receivers.id_at(k) == id);
                        }
                    }
                    assert forall|id: (Role, Seq<char>), handle: UR|
                        old(self).leads_to(handle, id) implies final(self).leads_to(handle, id) by {
                        assert(final(self).receivers.id_at(handle.position as int) == old(self).receivers.id_at(handle.position as int));
                    }
                    assert(call_ensures(ctr, (), stream) && final(self).channel(channel_id@)
                        == stream@ && final(self).senders(channel_id@) == stream.senders());
                }
                UR { position }
            },
        }
    }

    /// Tells whether all channels are idle: nothing waits on any of them and
    /// nothing is on its way. Every channel is looked at, and on every
    /// channel what was on its way counts as taken afterwards.
    pub fn check_idle_and_reset(&mut self) -> (r: bool)
        requires
            old(self).wf(),
        ensures
            final(self).wf(),
            r == (forall|id: (Role, Seq<char>)| (#[trigger] old(self).channel(id)).idle()),
            forall|id: (Role, Seq<char>)|
                final(self).channel(id) == (#[trigger] old(self).channel(id)).rested(),
            forall|id: (Role, Seq<char>)| final(self).senders(id) == old(self).senders(id),
            forall|id: (Role, Seq<char>)| final(self).knows(id) == old(self).knows(id),
            forall|id: (Role, Seq<char>), handle: UR|
                old(self).leads_to(handle, id) ==> final(self).leads_to(handle, id),
    {
        let mut rst = true;
        let count = self.receivers.len();
        let mut i: usize = 0;
        while i < count
            invariant
                i <= count,
                count == old(self).receivers.count(),
                self.receivers.wf(),
                old(self).wf(),
                self.inner == old(self).inner,
                self.receivers.count() == count,
                forall|k: int|
                    0 <= k < count ==> #[trigger] self.receivers.id_at(k) == old(self).receivers.id_at(k),
                forall|k: int|
                    0 <= k < i ==> self.receivers.channel(#[trigger] old(self).receivers.id_at(k))
                        == old(self).receivers.channel(old(self).receivers.id_at(k)).rested(),
                forall|id: (Role, Seq<char>)|
                    (forall|k: int| 0 <= k < i ==> #[trigger] old(self).receivers.id_at(k) != id)
                        ==> self.receivers.channel(id) == old(self).receivers.channel(id),
                forall|id: (Role, Seq<char>)|
                    self.receivers.senders(id) == old(self).receivers.senders(id),
                rst == (forall|k: int|
                    0 <= k < i ==> old(self).receivers.channel(
                        #[trigger] old(self).receivers.id_at(k),
                    ).idle()),
            decreases count - i,
        {
            let ghost id = old(self).receivers.id_at(i as int);
            proof {
                old(self).receivers.lemma_position(i as int);
                assert forall|k: int| 0 <= k < i implies #[trigger] old(self).receivers.id_at(k)
                    != id by {
                    old(self).receivers.lemma_position(k);
                }
            }
            let idle = self.receivers.check_idle_and_reset_at(i);
            proof {
                assert forall|k: int| 0 <= k < i + 1 implies self.receivers.channel(
                    #[trigger] old(self).receivers.id_at(k),
                ) == old(self).receivers.channel(old(self).receivers.id_at(k)).rested() by {
                    if k < i {
                        old(self).receivers.lemma_position(k);
                        assert(old(self).receivers.id_at(k) != id);
                    }
                }
            }
            rst = rst && idle;
            i = i + 1;
        }
        proof {
            self.lemma_same_channels(old(self));
            assert forall|id: (Role, Seq<char>)|
                final(self).channel(id) == (#[trigger] old(self).channel(id)).rested() by {
                if old(self).knows(id) {
                    let k = old(self).receivers.position_of(id);
                    assert(old(self).receivers.id_at(k) == id);
                } else {
                    old(self).receivers.lemma_unknown_is_empty(id);
                    assert(ChannelState::empty().rested() == ChannelState::empty());
                }
            }
            if rst {
                assert forall|id: (Role, Seq<char>)| (#[trigger] old(self).channel(id)).idle() by {
                    if old(self).knows(id) {
                        let k = old(self).receivers.position_of(id);
                        assert(old(self).receivers.id_at(k) == id);
                    } else {
                        old(self).receivers.lemma_unknown_is_empty(id);
                    }
                }
            } else {
                let k = choose|k: int|
                    0 <= k < count && !old(self).receivers.channel(
                        #[trigger] old(self).receivers.id_at(k),
                    ).idle();
                assert(!old(self).channel(old(self).receivers.id_at(k)).idle());
            }
        }
        rst
    }
}

impl GatewayReceivers {
    /// Takes the request of a step for the record `record_id` of the channel
    /// behind `handle`. If the record has arrived, it is sent through
    /// `sender` at once; if not, `sender` is kept until the record arrives.
    ///
    /// Asking twice for a record that has not arrived is an error of the
    /// caller.
    pub fn recv(
        &mut self,
        handle: UR,
        channel_id: &ChannelId,
        record_id: RecordId,
        sender: oneshot::Sender<MessagePayload>,
    )
        requires
            old(self).wf(),
            old(self).leads_to(handle, channel_id@),
            !(old(self).channel(channel_id@).slots.contains_key(record_id.0) && old(self).channel(
                channel_id@,
            ).slots[record_id.0] is Requested),
        ensures
            final(self).wf(),
            final(self).channel(channel_id@) == old(self).channel(channel_id@).request(record_id.0),
            old(self).channel(channel_id@).slots.contains_key(record_id.0) ==> final(self).senders(
                channel_id@,
            ) == old(self).senders(channel_id@),
            !old(self).channel(channel_id@).slots.contains_key(record_id.0) ==> final(self).senders(
                channel_id@,
            ) == old(self).senders(channel_id@).insert(record_id.0, sender),
            forall|id: (Role, Seq<char>)|
                id != channel_id@ ==> final(self).channel(id) == old(self).channel(id),
            forall|id: (Role, Seq<char>)|
                id != channel_id@ ==> final(self).senders(id) == old(self).senders(id),
            forall|id: (Role, Seq<char>)| final(self).knows(id) == old(self).knows(id),
            forall|id: (Role, Seq<char>), other: UR|
                old(self).leads_to(other, id) ==> final(self).leads_to(other, id),
    {
        self.receivers.recv_at(handle.position, record_id, sender);
        proof {
            self.lemma_same_channels(old(self));
        }
    }

    /// Takes the bytes `messages` that arrived on the channel behind
    /// `handle`. Every eight bytes are one record; the records take the next
    /// numbers of the channel in their order.
    ///
    /// The bytes must be whole records, and record numbers must stay below
    /// 2^32 - 1.
    pub fn receive_messages(&mut self, handle: UR, channel_id: &ChannelId, messages: &[u8])
        requires
            old(self).wf(),
            old(self).leads_to(handle, channel_id@),
            messages@.len() % 8 == 0,
            old(self).channel(channel_id@).arrived.len() + messages@.len() / 8 <= u32::MAX,
        ensures
            final(self).wf(),
            final(self).channel(channel_id@) == old(self).channel(channel_id@).arrive_all(
                crate::helpers::buffers::unordered_receiver::payloads_of(messages@),
            ),
            final(self).senders(channel_id@) == without_served(
                old(self).senders(channel_id@),
                old(self).channel(channel_id@).arrived.len(),
                messages@.len() / 8,
            ),
            forall|id: (Role, Seq<char>)|
                id != channel_id@ ==> final(self).channel(id) == old(self).channel(id),
            forall|id: (Role, Seq<char>)|
                id != channel_id@ ==> final(self).senders(id) == old(self).senders(id),
            forall|id: (Role, Seq<char>)| final(self).knows(id) == old(self).knows(id),
            forall|id: (Role, Seq<char>), other: UR|
                old(self).leads_to(other, id) ==> final(self).leads_to(other, id),
    {
        self.receivers.receive_chunk_at(handle.position, messages);
        proof {
            self.lemma_same_channels(old(self));
        }
    }

    /// Takes the bytes `messages` that arrived on the channel `channel_id`,
    /// which gets a receiving side if it has none yet.
    ///
    /// The bytes must be whole records, and record numbers must stay below
    /// 2^32 - 1.
    pub fn deliver(&mut self, channel_id: &ChannelId, messages: &[u8])
        requires
            old(self).wf(),
            messages@.len() % 8 == 0,
            old(self).channel(channel_id@).arrived.len() + messages@.len() / 8 <= u32::MAX,
        ensures
            final(self).wf(),
            final(self).channel(channel_id@) == old(self).channel(channel_id@).arrive_all(
                crate::helpers::buffers::unordered_receiver::payloads_of(messages@),
            ),
            final(self).senders(channel_id@) == without_served(
                old(self).senders(channel_id@),
                old(self).channel(channel_id@).arrived.len(),
                messages@.len() / 8,
            ),
            forall|id: (Role, Seq<char>)|
                id != channel_id@ ==> final(self).channel(id) == old(self).channel(id),
            forall|id: (Role, Seq<char>)|
                id != channel_id@ ==> final(self).senders(id) == old(self).senders(id),
            forall|id: (Role, Seq<char>)|
                final(self).knows(id) <==> old(self).knows(id) || id == channel_id@,
            forall|id: (Role, Seq<char>), other: UR|
                old(self).leads_to(other, id) ==> final(self).leads_to(other, id),
    {
        proof {
            if !self.knows(channel_id@) {
                self.lemma_unknown_is_empty(channel_id@);
            }
        }
        let handle = self.get_or_create(channel_id, UnorderedReceiver::new);
        self.receive_messages(handle, channel_id, messages);
    }

    /// Takes the report of a step that it took the record that was on its
    /// way to it on the channel behind `handle`.
    pub fn acknowledge(&mut self, handle: UR, channel_id: &ChannelId)
        requires
            old(self).wf(),
            old(self).leads_to(handle, channel_id@),
        ensures
            final(self).wf(),
            final(self).channel(channel_id@) == old(self).channel(channel_id@).acknowledge(),
            forall|id: (Role, Seq<char>)|
                id != channel_id@ ==> final(self).channel(id) == old(self).channel(id),
            forall|id: (Role, Seq<char>)| final(self).senders(id) == old(self).senders(id),
            forall|id: (Role, Seq<char>)| final(self).knows(id) == old(self).knows(id),
            forall|id: (Role, Seq<char>), other: UR|
                old(self).leads_to(other, id) ==> final(self).leads_to(other, id),
    {
        self.receivers.acknowledge_at(handle.position);
        proof {
            self.lemma_same_channels(old(self));
        }
    }

    /// Whether a request waits for the record `record_id` of the channel
    /// `channel_id`.
    pub fn is_requested(&self, channel_id: &ChannelId, record_id: RecordId) -> (r: bool)
        requires
            self.wf(),
        ensures
            r == (self.channel(channel_id@).slots.contains_key(record_id.0) && self.channel(
                channel_id@,
            ).slots[record_id.0] is Requested),
    {
        self.receivers.is_requested(channel_id, record_id)
    }

    /// The number of the next record that is to arrive on the channel
    /// `channel_id`.
    pub fn next_record_id(&self, channel_id: &ChannelId) -> (r: RecordId)
        requires
            self.wf(),
        ensures
            r.0 == self.channel(channel_id@).arrived.len(),
    {
        self.receivers.next_record_id(channel_id)
    }

    /// The channels on which requests wait for records that have not
    /// arrived, each with the numbers of those records. Neither the channels
    /// nor the numbers come in a particular order.
    pub fn get_waiting_messages(&self) -> (r: Vec<(ChannelId, Vec<usize>)>)
        requires
            self.wf(),
        ensures
            forall|j: int|
                0 <= j < r@.len() ==> {
                    &&& (#[trigger] r@[j]).1@.len() > 0
                    &&& r@[j].1@.no_duplicates()
                    &&& lists(r@[j].1@, self.channel(r@[j].0@).waiting())
                },
            forall|j: int, k: int|
                0 <= j < k < r@.len() ==> (#[trigger] r@[j]).0@ != (#[trigger] r@[k]).0@,
            forall|id: (Role, Seq<char>), record: u32|
                self.channel(id).waiting().contains(record) ==> exists|j: int|
                    0 <= j < r@.len() && (#[trigger] r@[j]).0@ == id,
    {
        let mut result: Vec<(ChannelId, Vec<usize>)> = Vec::new();
        let ghost mut positions: Seq<int> = Seq::empty();
        let count = self.receivers.len();
        let mut i: usize = 0;
        while i < count
            invariant
                i <= count,
                count == self.receivers.count(),
                self.wf(),
                positions.len() == result@.len(),
                forall|j: int|
                    0 <= j < result@.len() ==> {
                        &&& 0 <= #[trigger] positions[j] < i
                        &&& result@[j].0@ == self.receivers.id_at(positions[j])
                        &&& result@[j].1@.len() > 0
                        &&& result@[j].1@.no_duplicates()
                        &&& lists(result@[j].1@, self.channel(result@[j].0@).waiting())
                    },
                forall|j: int, k: int|
                    0 <= j < k < result@.len() ==> #[trigger] positions[j] < #[trigger] positions[k],
                forall|k: int, record: u32|
                    0 <= k < i && #[trigger] self.receivers.channel(
                        self.receivers.id_at(k),
                    ).waiting().contains(record) ==> exists|j: int|
                        0 <= j < result@.len() && #[trigger] positions[j] == k,
            decreases count - i,
        {
            let message = self.receivers.waiting_at(i);
            let ghost before = result@;
            let ghost earlier = positions;
            if message.len() > 0 {
                let channel_id = self.receivers.channel_id_at(i).duplicate();
                result.push((channel_id, message));
                proof {
                    positions = positions.push(i as int);
                    assert forall|j: int| 0 <= j < result@.len() implies {
                        &&& 0 <= #[trigger] positions[j] < i + 1
                        &&& result@[j].0@ == self.receivers.id_at(positions[j])
                        &&& result@[j].1@.len() > 0
                        &&& result@[j].1@.no_duplicates()
                        &&& lists(result@[j].1@, self.channel(result@[j].0@).waiting())
                    } by {
                        if j < before.len() {
                            assert(result@[j] == before[j]);
                            assert(positions[j] == earlier[j]);
                        }
                    }
                    assert forall|j: int, k: int| 0 <= j < k < result@.len() implies #[trigger] positions[j]
                        < #[trigger] positions[k] by {
                        assert(positions[j] == earlier[j]);
                        if k < before.len() {
                            assert(positions[k] == earlier[k]);
                        }
                    }
                    assert forall|k: int, record: u32|
                        0 <= k < i + 1 && #[trigger] self.receivers.channel(
                            self.receivers.id_at(k),
                        ).waiting().contains(record) implies exists|j: int|
                        0 <= j < result@.len() && #[trigger] positions[j] == k by {
                        if k < i {
                            let j = choose|j: int| 0 <= j < before.len() && #[trigger] earlier[j] == k;
                            assert(positions[j] == k);
                        } else {
                            assert(positions[before.len() as int] == k);
                        }
                    }
                }
            } else {
                proof {
                    assert forall|k: int, record: u32|
                        0 <= k < i + 1 && #[trigger] self.receivers.channel(
                            self.receivers.id_at(k),
                        ).waiting().contains(record) implies exists|j: int|
                        0 <= j < result@.len() && #[trigger] positions[j] == k by {
                        if k == i {
                            assert(message@.contains(record as usize));
                            let at = choose|at: int|
                                0 <= at < message@.len() && message@[at] == record as usize;
                            assert(false);
                        }
                    }
                }
            }
            i = i + 1;
        }
        proof {
            assert forall|j: int| 0 <= j < result@.len() implies {
                &&& (#[trigger] result@[j]).1@.len() > 0
                &&& result@[j].1@.no_duplicates()
                &&& lists(result@[j].1@, self.channel(result@[j].0@).waiting())
            } by {
                assert(0 <= positions[j]);
            }
            assert forall|j: int, k: int| 0 <= j < k < result@.len() implies (
            #[trigger] result@[j]).0@ != (#[trigger] result@[k]).0@ by {
                assert(positions[j] < positions[k]);
                self.receivers.lemma_position(positions[j]);
                self.receivers.lemma_position(positions[k]);
            }
            assert forall|id: (Role, Seq<char>), record: u32|
                self.channel(id).waiting().contains(record) implies exists|j: int|
                0 <= j < result@.len() && (#[trigger] result@[j]).0@ == id by {
                if self.receivers.knows(id) {
                    let k = self.receivers.position_of(id);
                    assert(self.receivers.id_at(k) == id);
                    let j = choose|j: int| 0 <= j < result@.len() && #[trigger] positions[j] == k;
                    assert(result@[j].0@ == id);
                } else {
                    self.receivers.lemma_unknown_is_empty(id);
                }
            }
        }
        result
    }

    /// With the same index and the same channels at the same positions, the
    /// gateway is in order as it was before.
    proof fn lemma_same_channels(&self, before: &GatewayReceivers)
        requires
            before.wf(),
            self.receivers.wf(),
            self.inner == before.inner,
            self.receivers.count() == before.receivers.count(),
            forall|k: int|
                0 <= k < before.receivers.count() ==> #[trigger] self.receivers.id_at(k)
                    == before.receivers.id_at(k),
        ensures
            self.wf(),
            forall|id: (Role, Seq<char>)| self.knows(id) == before.knows(id),
            forall|id: (Role, Seq<char>), handle: UR|
                before.leads_to(handle, id) ==> self.leads_to(handle, id),
    {
        assert forall|id: (Role, Seq<char>)| self.knows(id) == before.knows(id) by {
            if before.knows(id) {
                let k = before.receivers.position_of(id);
                assert(self.receivers.id_at(k) == id);
            }
            if self.knows(id) {
                let k = self.receivers.position_of(id);
                assert(before.receivers.id_at(k) == id);
            }
        }
        assert forall|id: (Role, Seq<char>)| #[trigger] self.receivers.knows(id) implies {
            &&& index_contents(self.inner).contains_key(key_of(id))
            &&& index_contents(self.inner)[key_of(id)] == self.receivers.position_of(id)
        } by {
            assert(before.knows(id));
            let k = before.receivers.position_of(id);
            assert(self.receivers.id_at(k) == id);
            self.receivers.lemma_position(k);
        }
        assert forall|id: (Role, Seq<char>)|
            index_contents(self.inner).contains_key(#[trigger] key_of(id)) implies self.receivers.knows(
            id,
        ) by {
            assert(before.knows(id));
        }
        assert forall|id: (Role, Seq<char>), handle: UR| before.leads_to(handle, id) implies self.leads_to(
            handle,
            id,
        ) by {
            assert(self.receivers.id_at(handle.position as int) == before.receivers.id_at(
                handle.position as int,
            ));
        }
    }
}

/// The receiving end of one channel of the gateway, for messages of the
/// type `M`.
pub struct ReceivingEnd<M: Message> {
    channel_id: ChannelId,
    unordered_rx: UR,
    _phantom: PhantomData<M>,
}

impl<M: Message> ReceivingEnd<M> {
    /// The channel that the end belongs to.
    pub closed spec fn channel_spec(&self) -> (Role, Seq<char>) {
        self.channel_id@
    }

    /// The handle of the channel's receiving side.
    pub closed spec fn handle(&self) -> UR {
        self.unordered_rx
    }

    /// The receiving end of the channel `channel_id`, whose receiving side
    /// has the handle `rx`.
    pub fn new(channel_id: ChannelId, rx: UR) -> (r: ReceivingEnd<M>)
        ensures
            r.channel_spec() == channel_id@,
            r.handle() == rx,
    {
        ReceivingEnd { channel_id, unordered_rx: rx, _phantom: PhantomData }
    }

    /// The channel that the end belongs to.
    pub fn channel_id(&self) -> (r: &ChannelId)
        ensures
            r@ == self.channel_spec(),
    {
        &self.channel_id
    }

    /// Asks for the message with the given record number. The request is
    /// entered with the channel's receiving side; the message itself comes
    /// through the returned end of a single-use channel, at once if the
    /// record has arrived, and else when it arrives. What comes out of that
    /// end is to be handed to `received`. The senders that are kept for
    /// other records stay as they are.
    ///
    /// Asking twice for a record that has not arrived is an error of the
    /// caller.
    pub fn receive(&self, receivers: &mut GatewayReceivers, record_id: RecordId) -> (r:
        oneshot::Receiver<MessagePayload>)
        requires
            old(receivers).wf(),
            old(receivers).leads_to(self.handle(), self.channel_spec()),
            !(old(receivers).channel(self.channel_spec()).slots.contains_key(record_id.0) && old(receivers).channel(self.channel_spec()).slots[record_id.0] is Requested),
        ensures
            final(receivers).wf(),
            final(receivers).channel(self.channel_spec()) == old(receivers).channel(
                self.channel_spec(),
            ).request(record_id.0),
            final(receivers).senders(self.channel_spec()).remove(record_id.0) == old(receivers).senders(self.channel_spec()).remove(record_id.0),
            forall|id: (Role, Seq<char>)|
                id != self.channel_spec() ==> final(receivers).channel(id) == old(receivers).channel(id),
            forall|id: (Role, Seq<char>)|
                id != self.channel_spec() ==> final(receivers).senders(id) == old(receivers).senders(id),
            forall|id: (Role, Seq<char>), other: UR|
                old(receivers).leads_to(other, id) ==> final(receivers).leads_to(other, id),
    {
        let (sender, receiver) = oneshot::channel();
        receivers.recv(self.unordered_rx, &self.channel_id, record_id, sender);
        proof {
            let before = old(receivers).senders(self.channel_spec());
            old(receivers).lemma_senders(self.channel_spec());
            if old(receivers).channel(self.channel_spec()).slots.contains_key(record_id.0) {
                assert(!before.contains_key(record_id.0));
            } else {
                assert(before.insert(record_id.0, sender).remove(record_id.0) =~= before.remove(
                    record_id.0,
                ));
            }
        }
        receiver
    }

    /// What a finished wait means. A record that came is reported as taken
    /// to the channel's receiving side and read as a message; a wait that
    /// ended without a record becomes a `ReceiveError` that names the role
    /// and the step of the channel.
    pub fn received(
        &self,
        receivers: &mut GatewayReceivers,
        outcome: Result<MessagePayload, ReceiveFailure>,
    ) -> (r: Result<M, Error>)
        requires
            old(receivers).wf(),
            old(receivers).leads_to(self.handle(), self.channel_spec()),
        ensures
            final(receivers).wf(),
            forall|id: (Role, Seq<char>)|
                id != self.channel_spec() ==> final(receivers).channel(id) == old(receivers).channel(id),
            forall|id: (Role, Seq<char>)| final(receivers).senders(id) == old(receivers).senders(id),
            forall|id: (Role, Seq<char>), other: UR|
                old(receivers).leads_to(other, id) ==> final(receivers).leads_to(other, id),
            match outcome {
                Ok(payload) => {
                    &&& r == Ok::<M, Error>(message_of::<M>(payload@))
                    &&& final(receivers).channel(self.channel_spec()) == old(receivers).channel(
                        self.channel_spec(),
                    ).acknowledge()
                },
                Err(failure) => {
                    &&& r matches Err(Error::ReceiveError { source, step, inner })
                    &&& (source, step@) == self.channel_spec()
                    &&& inner == failure
                    &&& final(receivers).channel(self.channel_spec()) == old(receivers).channel(
                        self.channel_spec(),
                    )
                },
            },
    {
        match outcome {
            Ok(payload) => {
                receivers.acknowledge(self.unordered_rx, &self.channel_id);
                Ok(from_payload(&payload))
            },
            Err(failure) => Err(
                Error::ReceiveError {
                    source: self.channel_id.role,
                    step: self.channel_id.gate.to_string(),
                    inner: failure,
                },
            ),
        }
    }
}

/// The list `numbers` holds the record numbers `records` and nothing else.
pub open spec fn lists(numbers: Seq<usize>, records: Set<u32>) -> bool {
    &&& forall|x: usize| #[trigger] numbers.contains(x) ==> x <= u32::MAX && records.contains(x as u32)
    &&& forall|k: u32| #[trigger] records.contains(k) ==> numbers.contains(k as usize)
}

/// Different channels have different keys.
proof fn lemma_key_of_injective(a: (Role, Seq<char>), b: (Role, Seq<char>))
    ensures
        key_of(a) == key_of(b) ==> a == b,
{
}

impl Default for GatewayReceivers {
    fn default() -> (r: GatewayReceivers)
        ensures
            r.wf(),
            forall|id: (Role, Seq<char>)| !r.knows(id),
            forall|id: (Role, Seq<char>)| r.channel(id) == ChannelState::empty(),
            forall|id: (Role, Seq<char>)|
                r.senders(id) == Map::<u32, oneshot::Sender<MessagePayload>>::empty(),
    {
        GatewayReceivers { inner: index_new(), receivers: ReceiveBuffer::new() }
    }
}

} // verus!
