//! The receiving side of one channel: the rendezvous between records that
//! have arrived and steps that ask for them. Either may come first: a record
//! that nobody has asked for yet is kept, and a request for a record that has
//! not arrived yet is kept.

use crate::helpers::{MessagePayload, MESSAGE_PAYLOAD_SIZE_BYTES};
use crate::protocol::RecordId;
use std::collections::HashMap;
use tokio::sync::oneshot;
use vstd::prelude::*;
use vstd::std_specs::iter::IteratorSpec;

verus! {

broadcast use vstd::std_specs::hash::group_hash_axioms;

/// What the buffer keeps for one record of one channel.
pub enum ReceiveBufItem {
    /// There is an outstanding request for the record, which has not arrived
    /// yet.
    Requested(oneshot::Sender<MessagePayload>),
    /// The record has arrived and nobody has asked for it yet.
    Received(MessagePayload),
}

/// What the buffer keeps for one record, without the means of delivery.
pub enum Slot {
    /// A request waits for the record.
    Requested,
    /// The record waits for a request.
    Received(Seq<u8>),
}

/// A record that was handed to the step that asked for it.
pub struct Delivery {
    /// The position of the record on its channel.
    pub record: nat,
    /// What the record holds.
    pub payload: Seq<u8>,
}

/// One channel as the buffer sees it.
pub struct ChannelState {
    /// The records and requests that wait for each other.
    pub slots: Map<u32, Slot>,
    /// Every record that has arrived so far, in the order of arrival. The
    /// record at position `i` is record `i` of the channel.
    pub arrived: Seq<Seq<u8>>,
    /// Every record that has been handed to a step so far, in the order in
    /// which that happened.
    pub delivered: Seq<Delivery>,
    /// How many records are on their way to the step that asked for them:
    /// handed over since the last check for idleness, and not yet reported
    /// as taken.
    pub in_flight: nat,
}

impl ChannelState {
    /// A channel on which nothing has happened yet.
    pub open spec fn empty() -> ChannelState {
        ChannelState {
            slots: Map::empty(),
            arrived: Seq::empty(),
            delivered: Seq::empty(),
            in_flight: 0,
        }
    }

    /// What holds of every channel in a buffer:
    /// a record that waits has arrived, is kept as it arrived and has not
    /// been delivered; a delivered record has arrived and was delivered as it
    /// arrived; no record has been delivered twice; and no more records are
    /// on their way than have been delivered.
    pub open spec fn wf(self) -> bool {
        &&& self.in_flight <= self.delivered.len()
        &&& forall|r: u32| #[trigger]
            self.slots.contains_key(r) ==> (self.slots[r] matches Slot::Received(p) ==> {
                &&& r < self.arrived.len()
                &&& p == self.arrived[r as int]
                &&& forall|i: int|
                    0 <= i < self.delivered.len() ==> (#[trigger] self.delivered[i]).record != r
            })
        &&& forall|i: int|
            0 <= i < self.delivered.len() ==> {
                &&& (#[trigger] self.delivered[i]).record < self.arrived.len()
                &&& self.delivered[i].payload == self.arrived[self.delivered[i].record as int]
            }
        &&& forall|i: int, j: int|
            0 <= i < j < self.delivered.len() ==> (#[trigger] self.delivered[i]).record != (
            #[trigger] self.delivered[j]).record
    }

    /// The channel after a step has asked for the record `r`: a record that
    /// waits is handed over, and otherwise the request waits.
    pub open spec fn request(self, r: u32) -> ChannelState {
        if self.slots.contains_key(r) {
            match self.slots[r] {
                Slot::Received(payload) => ChannelState {
                    slots: self.slots.remove(r),
                    delivered: self.delivered.push(Delivery { record: r as nat, payload }),
                    in_flight: self.in_flight + 1,
                    ..self
                },
                Slot::Requested => self,
            }
        } else {
            ChannelState { slots: self.slots.insert(r, Slot::Requested), ..self }
        }
    }

    /// The channel after one more record has arrived. It takes the next
    /// position; a request that waits for that position gets it, and
    /// otherwise the record waits.
    pub open spec fn arrive(self, payload: Seq<u8>) -> ChannelState {
        let r = self.arrived.len() as u32;
        if self.slots.contains_key(r) && self.slots[r] is Requested {
            ChannelState {
                slots: self.slots.remove(r),
                arrived: self.arrived.push(payload),
                delivered: self.delivered.push(Delivery { record: r as nat, payload }),
                in_flight: self.in_flight + 1,
            }
        } else {
            ChannelState {
                slots: self.slots.insert(r, Slot::Received(payload)),
                arrived: self.arrived.push(payload),
                ..self
            }
        }
    }

    /// The channel after the records `payloads` have arrived one after the
    /// other.
    pub open spec fn arrive_all(self, payloads: Seq<Seq<u8>>) -> ChannelState
        decreases payloads.len(),
    {
        if payloads.len() == 0 {
            self
        } else {
            self.arrive_all(payloads.drop_last()).arrive(payloads.last())
        }
    }

    /// The channel after a step has reported that it took the record that
    /// was on its way to it.
    pub open spec fn acknowledge(self) -> ChannelState {
        ChannelState {
            in_flight: if self.in_flight > 0 {
                (self.in_flight - 1) as nat
            } else {
                0
            },
            ..self
        }
    }

    /// Nothing waits on the channel, neither a record nor a request, and no
    /// record is on its way to a step.
    pub open spec fn idle(self) -> bool {
        self.slots == Map::<u32, Slot>::empty() && self.in_flight == 0
    }

    /// The channel after a check for idleness: what was on its way counts as
    /// taken.
    pub open spec fn rested(self) -> ChannelState {
        ChannelState { in_flight: 0, ..self }
    }

    /// The numbers of the records that requests wait for.
    pub open spec fn waiting(self) -> Set<u32> {
        Set::new(|r: u32| self.slots.contains_key(r) && self.slots[r] is Requested)
    }

    /// No more records have been delivered than have arrived.
    pub proof fn lemma_deliveries_bounded(self)
        requires
            self.wf(),
        ensures
            self.delivered.len() <= self.arrived.len(),
    {
        let records = self.delivered.map_values(|d: Delivery| d.record as int);
        assert(records.no_duplicates()) by {
            assert forall|i: int, j: int|
                0 <= i < records.len() && 0 <= j < records.len() && i != j implies records[i]
                != records[j] by {
                if i < j {
                    assert(self.delivered[i].record != self.delivered[j].record);
                } else {
                    assert(self.delivered[j].record != self.delivered[i].record);
                }
            }
        }
        records.unique_seq_to_set();
        let range = vstd::set_lib::set_int_range(0, self.arrived.len() as int);
        vstd::set_lib::lemma_int_range(0, self.arrived.len() as int);
        assert(records.to_set().subset_of(range)) by {
            assert forall|x: int| records.to_set().contains(x) implies range.contains(x) by {
                let i = choose|i: int| 0 <= i < records.len() && records[i] == x;
                assert(self.delivered[i].record < self.arrived.len());
            }
        }
        vstd::set_lib::lemma_len_subset(records.to_set(), range);
    }

    /// A request keeps the channel in order.
    pub proof fn lemma_request_keeps_wf(self, r: u32)
        requires
            self.wf(),
        ensures
            self.request(r).wf(),
            self.request(r).arrived == self.arrived,
    {
        let after = self.request(r);
        if self.slots.contains_key(r) {
            if let Slot::Received(payload) = self.slots[r] {
                let n = self.delivered.len() as int;
                assert(after.delivered[n].record == r);
                assert forall|i: int| 0 <= i < after.delivered.len() implies {
                    &&& (#[trigger] after.delivered[i]).record < after.arrived.len()
                    &&& after.delivered[i].payload == after.arrived[after.delivered[i].record as int]
                } by {
                    if i < n {
                        assert(after.delivered[i] == self.delivered[i]);
                    }
                }
                assert forall|i: int, j: int| 0 <= i < j < after.delivered.len() implies (
                #[trigger] after.delivered[i]).record != (#[trigger] after.delivered[j]).record by {
                    assert(after.delivered[i] == self.delivered[i]);
                    if j < n {
                        assert(after.delivered[j] == self.delivered[j]);
                    }
                }
                assert forall|q: u32| #[trigger]
                    after.slots.contains_key(q) implies (after.slots[q] matches Slot::Received(p)
                    ==> {
                    &&& q < after.arrived.len()
                    &&& p == after.arrived[q as int]
                    &&& forall|i: int|
                        0 <= i < after.delivered.len() ==> (#[trigger] after.delivered[i]).record
                            != q
                }) by {
                    assert(self.slots.contains_key(q));
                    if let Slot::Received(p) = after.slots[q] {
                        assert forall|i: int| 0 <= i < after.delivered.len() implies (
                        #[trigger] after.delivered[i]).record != q by {
                            if i < n {
                                assert(after.delivered[i] == self.delivered[i]);
                            }
                        }
                    }
                }
            }
        } else {
            assert forall|q: u32| #[trigger]
                after.slots.contains_key(q) implies (after.slots[q] matches Slot::Received(p) ==> {
                &&& q < after.arrived.len()
                &&& p == after.arrived[q as int]
                &&& forall|i: int|
                    0 <= i < after.delivered.len() ==> (#[trigger] after.delivered[i]).record != q
            }) by {
                if q != r {
                    assert(self.slots.contains_key(q));
                }
            }
        }
    }

    /// An arrival keeps the channel in order, as long as record numbers fit
    /// into 32 bits.
    pub proof fn lemma_arrive_keeps_wf(self, payload: Seq<u8>)
        requires
            self.wf(),
            self.arrived.len() <= u32::MAX,
        ensures
            self.arrive(payload).wf(),
            self.arrive(payload).arrived == self.arrived.push(payload),
    {
        let after = self.arrive(payload);
        let r = self.arrived.len() as u32;
        let n = self.delivered.len() as int;
        assert forall|i: int| 0 <= i < after.delivered.len() implies {
            &&& (#[trigger] after.delivered[i]).record < after.arrived.len()
            &&& after.delivered[i].payload == after.arrived[after.delivered[i].record as int]
        } by {
            if i < n {
                assert(after.delivered[i] == self.delivered[i]);
            }
        }
        assert forall|i: int, j: int| 0 <= i < j < after.delivered.len() implies (
        #[trigger] after.delivered[i]).record != (#[trigger] after.delivered[j]).record by {
            assert(after.delivered[i] == self.delivered[i]);
            if j < n {
                assert(after.delivered[j] == self.delivered[j]);
            }
        }
        assert forall|q: u32| #[trigger]
            after.slots.contains_key(q) implies (after.slots[q] matches Slot::Received(p) ==> {
            &&& q < after.arrived.len()
            &&& p == after.arrived[q as int]
            &&& forall|i: int|
                0 <= i < after.delivered.len() ==> (#[trigger] after.delivered[i]).record != q
        }) by {
            if let Slot::Received(p) = after.slots[q] {
                if q != r {
                    assert(self.slots.contains_key(q));
                }
                assert forall|i: int| 0 <= i < after.delivered.len() implies (
                #[trigger] after.delivered[i]).record != q by {
                    if i < n {
                        assert(after.delivered[i] == self.delivered[i]);
                    }
                }
            }
        }
    }

    /// Arrivals keep the channel in order and are recorded in their order.
    pub proof fn lemma_arrive_all_keeps_wf(self, payloads: Seq<Seq<u8>>)
        requires
            self.wf(),
            self.arrived.len() + payloads.len() <= u32::MAX + 1,
        ensures
            self.arrive_all(payloads).wf(),
            self.arrive_all(payloads).arrived == self.arrived + payloads,
        decreases payloads.len(),
    {
        if payloads.len() == 0 {
            assert(self.arrived + payloads =~= self.arrived);
        } else {
            self.lemma_arrive_all_keeps_wf(payloads.drop_last());
            let before = self.arrive_all(payloads.drop_last());
            before.lemma_arrive_keeps_wf(payloads.last());
            assert((self.arrived + payloads.drop_last()).push(payloads.last()) =~= self.arrived
                + payloads);
        }
    }

    /// Whatever is handed to a step at record `r` is what arrived as record
    /// `r`: the records come out as they came in.
    pub proof fn lemma_delivered_as_arrived(self, i: int)
        requires
            self.wf(),
            0 <= i < self.delivered.len(),
        ensures
            self.delivered[i].record < self.arrived.len(),
            self.delivered[i].payload == self.arrived[self.delivered[i].record as int],
    {
    }

    /// No record is handed out twice.
    pub proof fn lemma_delivered_once(self, i: int, j: int)
        requires
            self.wf(),
            0 <= i < self.delivered.len(),
            0 <= j < self.delivered.len(),
            i != j,
        ensures
            self.delivered[i].record != self.delivered[j].record,
    {
        if i < j {
            assert(self.delivered[i].record != self.delivered[j].record);
        } else {
            assert(self.delivered[j].record != self.delivered[i].record);
        }
    }
}

/// The records that a run of bytes holds: one for every eight bytes.
pub open spec fn payloads_of(bytes: Seq<u8>) -> Seq<Seq<u8>> {
    Seq::new(bytes.len() / 8, |i: int| bytes.subrange(8 * i, 8 * i + 8))
}

/// The senders `senders` without those that waited for one of the `n`
/// records from the number `from` on.
pub open spec fn without_served(
    senders: Map<u32, oneshot::Sender<MessagePayload>>,
    from: nat,
    n: nat,
) -> Map<u32, oneshot::Sender<MessagePayload>> {
    Map::new(
        |r: u32| senders.contains_key(r) && !(from <= r < from + n),
        |r: u32| senders[r],
    )
}

/// What an item of the buffer is without the means of delivery.
pub open spec fn slot_of(item: ReceiveBufItem) -> Slot {
    match item {
        ReceiveBufItem::Requested(_) => Slot::Requested,
        ReceiveBufItem::Received(payload) => Slot::Received(payload@),
    }
}

/// The receiving side of one channel. Records arrive in their order, while
/// the steps of a protocol may ask for them in any order.
pub struct UnorderedReceiver {
    items: HashMap<u32, ReceiveBufItem>,
    next_record_id: u32,
    in_flight: u64,
    arrived: Ghost<Seq<Seq<u8>>>,
    delivered: Ghost<Seq<Delivery>>,
}

impl View for UnorderedReceiver {
    type V = ChannelState;

    closed spec fn view(&self) -> ChannelState {
        ChannelState {
            slots: Map::new(
                |r: u32| self.items@.contains_key(r),
                |r: u32| slot_of(self.items@[r]),
            ),
            arrived: self.arrived@,
            delivered: self.delivered@,
            in_flight: self.in_flight as nat,
        }
    }
}

impl UnorderedReceiver {
    /// The channel is in order, and the receiver's counters agree with it.
    pub closed spec fn wf(&self) -> bool {
        &&& self@.wf()
        &&& self.next_record_id == self.arrived@.len()
    }

    /// The senders that are kept: for every record that a request waits for,
    /// the sender through which the record is to go to the step that asked.
    pub closed spec fn senders(&self) -> Map<u32, oneshot::Sender<MessagePayload>> {
        Map::new(
            |r: u32| self.items@.contains_key(r) && self.items@[r] is Requested,
            |r: u32| self.items@[r]->Requested_0,
        )
    }

    /// A sender is kept for exactly the records that requests wait for.
    pub proof fn lemma_senders(&self)
        ensures
            self.senders().dom() == self@.waiting(),
    {
        assert(self.senders().dom() =~= self@.waiting());
    }

    /// A receiver that is in order stands for a channel that is in order.
    pub proof fn lemma_wf(&self)
        requires
            self.wf(),
        ensures
            self@.wf(),
            self@.arrived.len() <= u32::MAX,
    {
    }

    /// A receiver on whose channel nothing has happened yet.
    pub fn new() -> (r: UnorderedReceiver)
        ensures
            r.wf(),
            r@ == ChannelState::empty(),
            r.senders() == Map::<u32, oneshot::Sender<MessagePayload>>::empty(),
    {
        let r = UnorderedReceiver {
            items: HashMap::new(),
            next_record_id: 0,
            in_flight: 0,
            arrived: Ghost(Seq::empty()),
            delivered: Ghost(Seq::empty()),
        };
        assert(r@.slots =~= Map::<u32, Slot>::empty());
        assert(r.senders() =~= Map::<u32, oneshot::Sender<MessagePayload>>::empty());
        r
    }

    /// The number of the next record that is to arrive.
    pub fn next_record_id(&self) -> (r: RecordId)
        requires
            self.wf(),
        ensures
            r.0 == self@.arrived.len(),
    {
        RecordId(self.next_record_id)
    }

    /// Whether a request waits for the record `record_id`.
    pub fn is_requested(&self, record_id: RecordId) -> (r: bool)
        ensures
            r == (self@.slots.contains_key(record_id.0) && self@.slots[record_id.0] is Requested),
    {
        match self.items.get(&record_id.0) {
            Some(ReceiveBufItem::Requested(_)) => true,
            _ => false,
        }
    }

    /// Whether the record `record_id` has arrived and waits for a request.
    pub fn is_received(&self, record_id: RecordId) -> (r: bool)
        ensures
            r == (self@.slots.contains_key(record_id.0) && self@.slots[record_id.0] is Received),
    {
        match self.items.get(&record_id.0) {
            Some(ReceiveBufItem::Received(_)) => true,
            _ => false,
        }
    }

    /// Takes the request of a step for the record `record_id`. If the record
    /// has arrived, it is sent through `sender` at once; if not, `sender` is
    /// kept until the record arrives. The senders of other requests stay as
    /// they are.
    ///
    /// Asking twice for a record that has not arrived is an error of the
    /// caller.
    pub fn recv(&mut self, record_id: RecordId, sender: oneshot::Sender<MessagePayload>)
        requires
            old(self).wf(),
            !(old(self)@.slots.contains_key(record_id.0) && old(self)@.slots[record_id.0]
                is Requested),
        ensures
            final(self).wf(),
            final(self)@ == old(self)@.request(record_id.0),
            old(self)@.slots.contains_key(record_id.0) ==> final(self).senders() == old(self).senders(),
            !old(self)@.slots.contains_key(record_id.0) ==> final(self).senders() == old(self).senders().insert(record_id.0, sender),
    {
        let r = record_id.0;
        proof {
            old(self)@.lemma_request_keeps_wf(r);
            old(self)@.request(r).lemma_deliveries_bounded();
        }
        match self.items.remove(&r) {
            Some(ReceiveBufItem::Received(payload)) => {
                let _ = sender.send(payload);
                self.delivered = Ghost(
                    self.delivered@.push(Delivery { record: r as nat, payload: payload@ }),
                );
                self.in_flight = self.in_flight + 1;
                assert(self@.slots =~= old(self)@.slots.remove(r));
                assert(self.senders() =~= old(self).senders());
            },
            Some(ReceiveBufItem::Requested(earlier)) => {
                // Ruled out by the precondition; the earlier request stays.
                self.items.insert(r, ReceiveBufItem::Requested(earlier));
            },
            None => {
                self.items.insert(r, ReceiveBufItem::Requested(sender));
                assert(self@.slots =~= old(self)@.slots.insert(r, Slot::Requested));
                assert(self.senders() =~= old(self).senders().insert(r, sender));
            },
        }
    }

    /// Takes the next record that arrived. A request that waits for it gets
    /// it at once, through the sender that was kept for it, which is spent
    /// on that; otherwise the record is kept until it is asked for. The
    /// senders of other requests stay as they are.
    pub fn receive(&mut self, payload: MessagePayload)
        requires
            old(self).wf(),
            old(self)@.arrived.len() < u32::MAX,
        ensures
            final(self).wf(),
            final(self)@ == old(self)@.arrive(payload@),
            final(self).senders() == old(self).senders().remove(old(self)@.arrived.len() as u32),
    {
        let r = self.next_record_id;
        proof {
            old(self)@.lemma_arrive_keeps_wf(payload@);
            old(self)@.arrive(payload@).lemma_deliveries_bounded();
        }
        match self.items.remove(&r) {
            Some(ReceiveBufItem::Requested(sender)) => {
                let _ = sender.send(payload);
                self.delivered = Ghost(
                    self.delivered@.push(Delivery { record: r as nat, payload: payload@ }),
                );
                self.in_flight = self.in_flight + 1;
                assert(self@.slots =~= old(self)@.slots.remove(r));
                assert(self.senders() =~= old(self).senders().remove(r));
            },
            Some(ReceiveBufItem::Received(earlier)) => {
                // Cannot happen: a record that waits has a smaller number.
                assert(old(self)@.slots.contains_key(r));
                assert(old(self)@.slots[r] is Received);
                assert(false);
            },
            None => {
                self.items.insert(r, ReceiveBufItem::Received(payload));
                assert(self@.slots =~= old(self)@.slots.insert(r, Slot::Received(payload@)));
                assert(self.senders() =~= old(self).senders().remove(r));
            },
        }
        self.arrived = Ghost(self.arrived@.push(payload@));
        self.next_record_id = r + 1;
    }

    /// Takes the bytes `messages` that arrived. Every eight bytes are one
    /// record; the records take the next numbers of the channel in their
    /// order.
    ///
    /// The bytes must be whole records, and record numbers must stay below
    /// 2^32 - 1.
    pub fn receive_chunk(&mut self, messages: &[u8])
        requires
            old(self).wf(),
            messages@.len() % 8 == 0,
            old(self)@.arrived.len() + messages@.len() / 8 <= u32::MAX,
        ensures
            final(self).wf(),
            final(self)@ == old(self)@.arrive_all(payloads_of(messages@)),
            final(self).senders() == without_served(
                old(self).senders(),
                old(self)@.arrived.len(),
                messages@.len() / 8,
            ),
    {
        let ghost start = self@;
        let ghost kept = self.senders();
        assert(self.senders() =~= without_served(kept, start.arrived.len(), 0));
        let ghost payloads = payloads_of(messages@);
        let count = messages.len() / MESSAGE_PAYLOAD_SIZE_BYTES;
        let mut k: usize = 0;
        while k < count
            invariant
                k <= count,
                count == messages@.len() / 8,
                messages@.len() <= usize::MAX,
                messages@.len() % 8 == 0,
                payloads == payloads_of(messages@),
                start.wf(),
                start.arrived.len() + count <= u32::MAX,
                self.wf(),
                self@ == start.arrive_all(payloads.subrange(0, k as int)),
                self.senders() == without_served(kept, start.arrived.len(), k as nat),
            decreases count - k,
        {
            assert(messages@.len() == 8 * count);
            let offset = k * MESSAGE_PAYLOAD_SIZE_BYTES;
            let payload: MessagePayload = [
                messages[offset],
                messages[offset + 1],
                messages[offset + 2],
                messages[offset + 3],
                messages[offset + 4],
                messages[offset + 5],
                messages[offset + 6],
                messages[offset + 7],
            ];
            proof {
                assert(payload@ =~= messages@.subrange(8 * k, 8 * k + 8));
                assert(payloads[k as int] == payload@);
                let seen = payloads.subrange(0, k as int);
                let next = payloads.subrange(0, k + 1);
                assert(next.drop_last() =~= seen);
                assert(next.last() == payload@);
                start.lemma_arrive_all_keeps_wf(seen);
            }
            self.receive(payload);
            proof {
                assert(self.senders() =~= without_served(kept, start.arrived.len(), (k + 1) as nat));
            }
            k = k + 1;
        }
        proof {
            assert(payloads.subrange(0, count as int) =~= payloads);
        }
    }

    /// Takes the report of a step that it took the record that was on its
    /// way to it.
    pub fn acknowledge(&mut self)
        requires
            old(self).wf(),
        ensures
            final(self).wf(),
            final(self)@ == old(self)@.acknowledge(),
            final(self).senders() == old(self).senders(),
    {
        if self.in_flight > 0 {
            self.in_flight = self.in_flight - 1;
        }
        assert(self@.slots =~= old(self)@.slots);
    }

    /// Tells whether the channel is idle: nothing waits on it and nothing is
    /// on its way. After the check, what was on its way counts as taken.
    pub fn check_idle_and_reset(&mut self) -> (r: bool)
        requires
            old(self).wf(),
        ensures
            final(self).wf(),
            r == old(self)@.idle(),
            final(self)@ == old(self)@.rested(),
            final(self).senders() == old(self).senders(),
    {
        let r = self.items.len() == 0 && self.in_flight == 0;
        proof {
            if self.items@.dom().len() == 0 {
                assert(self.items@.dom().finite());
                assert(self.items@.dom() =~= Set::<u32>::empty());
                assert(self@.slots =~= Map::<u32, Slot>::empty());
            } else {
                let k = self.items@.dom().choose();
                assert(self.items@.dom().finite());
                assert(self.items@.dom().contains(k));
                assert(self@.slots.contains_key(k));
            }
        }
        self.in_flight = 0;
        assert(self@.slots =~= old(self)@.slots);
        r
    }

    /// The numbers of the records that requests wait for, in no particular
    /// order.
    pub fn get_waiting_messages(&self) -> (r: Vec<usize>)
        ensures
            r@.no_duplicates(),
            forall|x: usize| #[trigger]
                r@.contains(x) ==> x <= u32::MAX && self@.waiting().contains(x as u32),
            forall|k: u32| #[trigger] self@.waiting().contains(k) ==> r@.contains(k as usize),
    {
        let mut waiting: Vec<usize> = Vec::new();
        let ghost keys = vstd::std_specs::hash::spec_keys_iter(&self.items).remaining();
        let ghost mut seen: int = 0;
        for key in it: self.items.keys()
            invariant
                it.seq() == keys,
                it.index() == seen,
                keys.unref().to_set() == self.items@.dom(),
                keys.no_duplicates(),
                waiting@.no_duplicates(),
                forall|x: usize| #[trigger]
                    waiting@.contains(x) ==> x <= u32::MAX && listed(it.seq(), it.index(), x as u32)
                        && self@.waiting().contains(x as u32),
                forall|j: int|
                    0 <= j < it.index() && self@.waiting().contains(*#[trigger] it.seq()[j])
                        ==> waiting@.contains(*it.seq()[j] as usize),
        {
            let ghost before = waiting@;
            let ghost n = it.index();
            assert(*key == *it.seq()[n]);
            assert(it.seq().unref()[n] == *key);
            assert(self.items@.dom().contains(*key));
            match self.items.get(key) {
                Some(ReceiveBufItem::Requested(_)) => {
                    waiting.push(*key as usize);
                    proof {
                        assert(self@.slots.contains_key(*key));
                        assert(self@.waiting().contains(*key));
                        assert(!before.contains(*key as usize)) by {
                            if before.contains(*key as usize) {
                                assert(listed(it.seq(), n, *key));
                                let j = choose|j: int| 0 <= j < n && *it.seq()[j] == *key;
                                assert(it.seq()[j] == it.seq()[n]);
                            }
                        }
                        assert forall|x: usize| #[trigger] waiting@.contains(x) implies x
                            <= u32::MAX && listed(it.seq(), n + 1, x as u32)
                            && self@.waiting().contains(x as u32) by {
                            let i = choose|i: int| 0 <= i < waiting@.len() && waiting@[i] == x;
                            if i < before.len() {
                                assert(before[i] == x);
                                assert(before.contains(x));
                                let j = choose|j: int| 0 <= j < n && *it.seq()[j] == x as u32;
                                assert(0 <= j < n + 1 && *it.seq()[j] == x as u32);
                            } else {
                                assert(0 <= n < n + 1 && *it.seq()[n] == x as u32);
                            }
                        }
                        assert forall|j: int|
                            0 <= j < n + 1 && self@.waiting().contains(
                                *#[trigger] it.seq()[j],
                            ) implies waiting@.contains(*it.seq()[j] as usize) by {
                            if j < n {
                                let i = choose|i: int|
                                    0 <= i < before.len() && before[i] == *it.seq()[j] as usize;
                                assert(waiting@[i] == before[i]);
                            } else {
                                assert(waiting@[before.len() as int] == *key as usize);
                            }
                        }
                    }
                },
                _ => {
                    proof {
                        assert(self@.slots.contains_key(*key));
                        assert(!self@.waiting().contains(*key));
                        assert forall|x: usize| #[trigger] waiting@.contains(x) implies x
                            <= u32::MAX && listed(it.seq(), n + 1, x as u32)
                            && self@.waiting().contains(x as u32) by {
                            let j = choose|j: int| 0 <= j < n && *it.seq()[j] == x as u32;
                            assert(0 <= j < n + 1 && *it.seq()[j] == x as u32);
                        }
                    }
                },
            }
            proof {
                seen = seen + 1;
            }
        }
        proof {
            assert(seen == keys.len());
            assert forall|k: u32| #[trigger] self@.waiting().contains(k) implies waiting@.contains(
                k as usize,
            ) by {
                assert(self.items@.dom().contains(k));
                assert(keys.unref().to_set().contains(k));
                let j = choose|j: int| 0 <= j < keys.unref().len() && keys.unref()[j] == k;
                assert(*keys[j] == k);
                assert(waiting@.contains(*keys[j] as usize));
            }
        }
        waiting
    }
}

/// The number `k` is among the first `n` of the listed numbers.
spec fn listed(numbers: Seq<&u32>, n: int, k: u32) -> bool {
    exists|j: int| 0 <= j < n && *numbers[j] == k
}

} // verus!
