//! The sending side of a query's channels. Steps hand in records in any
//! order; the records of a channel leave in the order of their numbers.

use crate::helpers::{ChannelId, MessagePayload, Role};
use crate::protocol::RecordId;
use std::collections::HashMap;
use vstd::prelude::*;

verus! {

broadcast use vstd::std_specs::hash::group_hash_axioms;

/// Why a record was not taken in for sending.
#[derive(Clone, Copy, Debug, PartialEq, Eq, Structural)]
pub enum PushError {
    /// A record with this number was handed in before.
    Duplicate { record_id: RecordId },
    /// The record is too far ahead of the records that have left: the caller
    /// is to wait until earlier records have gone out, and to try again.
    OutOfRange { record_id: RecordId },
}

/// One channel as the send buffer sees it.
pub struct SendState {
    /// Every record that has left so far. The record at position `i` is
    /// record `i` of the channel.
    pub sent: Seq<Seq<u8>>,
    /// The records that wait for earlier ones, by their numbers.
    pub pending: Map<u32, Seq<u8>>,
}

/// The bytes of a run of records, one record after the other.
pub open spec fn bytes_of(payloads: Seq<Seq<u8>>) -> Seq<u8> {
    Seq::new(8 * payloads.len(), |i: int| payloads[i / 8][i % 8])
}

impl SendState {
    /// A channel on which nothing has happened yet.
    pub open spec fn empty() -> SendState {
        SendState { sent: Seq::empty(), pending: Map::empty() }
    }

    /// What holds of every channel in a send buffer that keeps at most
    /// `capacity` records ahead: record numbers fit into 32 bits, every
    /// record is eight bytes wide, and every record that waits is ahead of
    /// those that have left, by less than `capacity`, and waits for an
    /// earlier one.
    pub open spec fn wf(self, capacity: nat) -> bool {
        &&& self.sent.len() <= u32::MAX + 1
        &&& forall|i: int| 0 <= i < self.sent.len() ==> (#[trigger] self.sent[i]).len() == 8
        &&& forall|r: u32| #[trigger]
            self.pending.contains_key(r) ==> {
                &&& self.sent.len() < r < self.sent.len() + capacity
                &&& self.pending[r].len() == 8
            }
    }

    /// The record with the number `r`, if it was handed in.
    pub open spec fn record(self, r: u32) -> Option<Seq<u8>> {
        if r < self.sent.len() {
            Some(self.sent[r as int])
        } else if self.pending.contains_key(r) {
            Some(self.pending[r])
        } else {
            None
        }
    }

    /// How many of the records that wait can leave at once, beginning with
    /// the number `from` and below the number `upto`: those whose numbers
    /// follow one another without a gap.
    pub open spec fn ready(pending: Map<u32, Seq<u8>>, from: nat, upto: nat) -> nat
        decreases upto - from,
    {
        if from < upto && from <= u32::MAX && pending.contains_key(from as u32) {
            1 + Self::ready(pending, from + 1, upto)
        } else {
            0
        }
    }

    /// The `n` records that wait under the numbers from `from` on.
    pub open spec fn run(pending: Map<u32, Seq<u8>>, from: nat, n: nat) -> Seq<Seq<u8>> {
        Seq::new(n, |i: int| pending[(from + i) as u32])
    }

    /// What is answered to handing in the record `r`.
    pub open spec fn verdict(self, capacity: nat, r: u32) -> Option<PushError> {
        if self.record(r) is Some {
            Some(PushError::Duplicate { record_id: RecordId(r) })
        } else if r >= self.sent.len() + capacity {
            Some(PushError::OutOfRange { record_id: RecordId(r) })
        } else {
            None
        }
    }

    /// The records that leave when the record `r` with the content `payload`
    /// is handed in: the record itself and those that waited for it, if it
    /// is the next to leave, and none otherwise.
    pub open spec fn leaving(self, capacity: nat, r: u32, payload: Seq<u8>) -> Seq<Seq<u8>> {
        let taken = self.pending.insert(r, payload);
        Self::run(
            taken,
            self.sent.len(),
            Self::ready(taken, self.sent.len(), self.sent.len() + capacity),
        )
    }

    /// The channel after the record `r` with the content `payload` was
    /// handed in and accepted.
    pub open spec fn push(self, capacity: nat, r: u32, payload: Seq<u8>) -> SendState {
        let gone = self.leaving(capacity, r, payload);
        SendState {
            sent: self.sent + gone,
            pending: Map::new(
                |k: u32|
                    self.pending.insert(r, payload).contains_key(k) && k >= self.sent.len()
                        + gone.len(),
                |k: u32| self.pending.insert(r, payload)[k],
            ),
        }
    }

    /// The run of records that can leave ends where a number is missing.
    proof fn lemma_ready(pending: Map<u32, Seq<u8>>, from: nat, upto: nat, n: nat)
        requires
            from + n <= upto,
            from + n <= u32::MAX + 1,
            forall|i: nat| i < n ==> pending.contains_key(#[trigger] (from + i) as u32),
            from + n == upto || from + n > u32::MAX || !pending.contains_key((from + n) as u32),
        ensures
            Self::ready(pending, from, upto) == n,
        decreases n,
    {
        if n > 0 {
            assert(pending.contains_key((from + 0nat) as u32));
            assert forall|i: nat| i < n - 1 implies pending.contains_key(
                #[trigger] ((from + 1) + i) as u32,
            ) by {
                assert(pending.contains_key((from + (i + 1) as nat) as u32));
            }
            Self::lemma_ready(pending, from + 1, upto, (n - 1) as nat);
        }
    }

    /// Handing in a record keeps the channel in order. What has left stays
    /// as it left, what was handed in before stays as it was handed in, and
    /// the new record is kept as it was handed in.
    pub proof fn lemma_push(self, capacity: nat, r: u32, payload: Seq<u8>)
        requires
            self.wf(capacity),
            self.verdict(capacity, r) is None,
            payload.len() == 8,
        ensures
            self.push(capacity, r, payload).wf(capacity),
            self.sent.is_prefix_of(self.push(capacity, r, payload).sent),
            self.push(capacity, r, payload).record(r) == Some(payload),
            forall|q: u32|
                self.record(q) is Some ==> #[trigger] self.push(capacity, r, payload).record(q)
                    == self.record(q),
            forall|q: u32|
                q != r && self.record(q) is None ==> #[trigger] self.push(capacity, r, payload).record(q) is None,
            self.sent.len() != r ==> self.leaving(capacity, r, payload).len() == 0,
            self.sent.len() == r ==> self.leaving(capacity, r, payload).len() > 0,
    {
        let taken = self.pending.insert(r, payload);
        let from = self.sent.len();
        let upto = from + capacity;
        let n = Self::ready(taken, from, upto);
        Self::lemma_ready_bounds(taken, from, upto);
        let gone = self.leaving(capacity, r, payload);
        let after = self.push(capacity, r, payload);
        assert(gone.len() == n);
        assert forall|i: int| 0 <= i < after.sent.len() implies (#[trigger] after.sent[i]).len()
            == 8 by {
            if i >= from {
                assert(after.sent[i] == gone[i - from]);
                assert(taken.contains_key((from + (i - from) as nat) as u32));
                if (from + (i - from)) as u32 != r {
                    assert(self.pending.contains_key((from + (i - from)) as u32));
                }
            } else {
                assert(after.sent[i] == self.sent[i]);
            }
        }
        assert forall|q: u32| self.record(q) is Some implies #[trigger] after.record(q)
            == self.record(q) by {
            if q < from {
                assert(after.sent[q as int] == self.sent[q as int]);
            } else {
                assert(self.pending.contains_key(q));
                if q < from + n {
                    assert(after.sent[q as int] == gone[q - from]);
                    assert(taken[(from + (q - from) as nat) as u32] == self.pending[q]);
                }
            }
        }
        if r < from + n {
            assert(after.sent[r as int] == gone[r - from]);
        }
        assert forall|q: u32| q != r && self.record(q) is None implies #[trigger] after.record(
            q,
        ) is None by {
            if q < from + n {
                assert(taken.contains_key((from + (q - from) as nat) as u32));
            }
        }
        if from != r {
            assert(!self.pending.contains_key(from as u32)) by {
                if self.pending.contains_key(from as u32) {
                    assert(from < from as u32);
                }
            }
        }
    }

    /// The records that can leave are there, and the first number after
    /// them is missing or out of reach.
    proof fn lemma_ready_bounds(pending: Map<u32, Seq<u8>>, from: nat, upto: nat)
        ensures
            from + Self::ready(pending, from, upto) <= upto || Self::ready(pending, from, upto)
                == 0,
            from + Self::ready(pending, from, upto) <= u32::MAX + 1 || Self::ready(
                pending,
                from,
                upto,
            ) == 0,
            forall|i: nat|
                i < Self::ready(pending, from, upto) ==> pending.contains_key(
                    #[trigger] (from + i) as u32,
                ),
            from + Self::ready(pending, from, upto) >= upto || from + Self::ready(
                pending,
                from,
                upto,
            ) > u32::MAX || !pending.contains_key((from + Self::ready(pending, from, upto)) as u32),
        decreases upto - from,
    {
        if from < upto && from <= u32::MAX && pending.contains_key(from as u32) {
            Self::lemma_ready_bounds(pending, from + 1, upto);
            let n = Self::ready(pending, from + 1, upto);
            assert forall|i: nat| i < 1 + n implies pending.contains_key(
                #[trigger] (from + i) as u32,
            ) by {
                if i > 0 {
                    assert(pending.contains_key(((from + 1) + (i - 1) as nat) as u32));
                }
            }
        }
    }
}

/// A run of bytes that is made of records holds those records.
pub proof fn lemma_payloads_of_bytes(payloads: Seq<Seq<u8>>)
    requires
        forall|i: int| 0 <= i < payloads.len() ==> (#[trigger] payloads[i]).len() == 8,
    ensures
        bytes_of(payloads).len() == 8 * payloads.len(),
        crate::helpers::buffers::unordered_receiver::payloads_of(bytes_of(payloads)) == payloads,
{
    let bytes = bytes_of(payloads);
    let back = crate::helpers::buffers::unordered_receiver::payloads_of(bytes);
    assert(back.len() == payloads.len());
    assert forall|i: int| 0 <= i < payloads.len() implies back[i] == payloads[i] by {
        let chunk = bytes.subrange(8 * i, 8 * i + 8);
        assert forall|j: int| 0 <= j < 8 implies chunk[j] == payloads[i][j] by {
            assert((8 * i + j) / 8 == i && (8 * i + j) % 8 == j);
        }
        assert(chunk =~= payloads[i]);
    }
    assert(back =~= payloads);
}

/// The sending side of one channel.
struct SendChannel {
    channel_id: ChannelId,
    pending: HashMap<u32, MessagePayload>,
    frontier: u64,
    sent: Ghost<Seq<Seq<u8>>>,
}

impl SendChannel {
    spec fn state(&self) -> SendState {
        SendState {
            sent: self.sent@,
            pending: Map::new(
                |r: u32| self.pending@.contains_key(r),
                |r: u32| self.pending@[r]@,
            ),
        }
    }

    spec fn wf(&self, capacity: nat) -> bool {
        &&& self.state().wf(capacity)
        &&& self.frontier == self.sent@.len()
        &&& self.frontier <= u32::MAX + 1
    }

    fn new(channel_id: ChannelId) -> (r: SendChannel)
        ensures
            r.channel_id == channel_id,
            r.state() == SendState::empty(),
            forall|capacity: nat| r.wf(capacity),
    {
        let r = SendChannel {
            channel_id,
            pending: HashMap::new(),
            frontier: 0,
            sent: Ghost(Seq::empty()),
        };
        assert(r.state().pending =~= Map::<u32, Seq<u8>>::empty());
        r
    }

    /// Takes in a record and gives out the bytes that can leave.
    fn push(&mut self, capacity: usize, record_id: RecordId, payload: MessagePayload) -> (r: Result<
        Vec<u8>,
        PushError,
    >)
        requires
            old(self).wf(capacity as nat),
        ensures
            final(self).wf(capacity as nat),
            final(self).channel_id == old(self).channel_id,
            match old(self).state().verdict(capacity as nat, record_id.0) {
                Some(refusal) => r == Err::<Vec<u8>, PushError>(refusal) && final(self).state()
                    == old(self).state(),
                None => {
                    &&& r matches Ok(bytes)
                    &&& bytes@ == bytes_of(
                        old(self).state().leaving(capacity as nat, record_id.0, payload@),
                    )
                    &&& final(self).state() == old(self).state().push(
                        capacity as nat,
                        record_id.0,
                        payload@,
                    )
                },
            },
    {
        let r = record_id.0;
        if (r as u64) < self.frontier || self.pending.contains_key(&r) {
            return Err(PushError::Duplicate { record_id });
        }
        if r as u64 - self.frontier >= capacity as u64 {
            return Err(PushError::OutOfRange { record_id });
        }
        proof {
            old(self).state().lemma_push(capacity as nat, r, payload@);
        }
        self.pending.insert(r, payload);
        let ghost taken = old(self).state().pending.insert(r, payload@);
        let ghost from = old(self).sent@.len();
        let ghost upto = from + capacity as nat;
        assert(self.state().pending =~= taken);
        let mut chunk: Vec<u8> = Vec::new();
        let ghost mut n: nat = 0;
        assert(chunk@ =~= bytes_of(SendState::run(taken, from, 0)));
        assert(self.sent@ + SendState::run(taken, from, 0) =~= self.sent@);
        assert forall|k: u32| #[trigger] taken.contains_key(k) implies from <= k < upto
            && taken[k].len() == 8 by {
            if k != r {
                assert(old(self).state().pending.contains_key(k));
            }
        }
        while self.frontier <= u32::MAX as u64 && self.pending.contains_key(&(self.frontier as u32))
            invariant
                self.frontier == from + n,
                self.frontier <= u32::MAX + 1,
                self.channel_id == old(self).channel_id,
                from == old(self).sent@.len(),
                upto == from + capacity as nat,
                forall|k: u32| #[trigger] taken.contains_key(k) ==> from <= k < upto && taken[k].len() == 8,
                forall|i: nat| i < n ==> taken.contains_key(#[trigger] (from + i) as u32),
                chunk@ == bytes_of(SendState::run(taken, from, n)),
                self.sent@ == old(self).sent@ + SendState::run(taken, from, n),
                forall|k: u32|
                    self.pending@.contains_key(k) <==> #[trigger] taken.contains_key(k) && k
                        >= self.frontier,
                forall|k: u32| self.pending@.contains_key(k) ==> self.pending@[k]@ == taken[k],
            decreases u32::MAX + 1 - self.frontier,
        {
            let k = self.frontier as u32;
            let payload = self.pending.remove(&k).unwrap();
            let ghost before = chunk@;
            chunk.push(payload[0]);
            chunk.push(payload[1]);
            chunk.push(payload[2]);
            chunk.push(payload[3]);
            chunk.push(payload[4]);
            chunk.push(payload[5]);
            chunk.push(payload[6]);
            chunk.push(payload[7]);
            proof {
                assert(taken.contains_key(k));
                assert(payload@ == taken[k]);
                let shorter = SendState::run(taken, from, n);
                let longer = SendState::run(taken, from, n + 1);
                assert(longer =~= shorter.push(taken[k]));
                assert(chunk@ =~= before + payload@);
                assert(chunk@ =~= bytes_of(longer)) by {
                    assert(chunk@.len() == 8 * longer.len());
                    assert forall|i: int| 0 <= i < chunk@.len() implies chunk@[i] == longer[i
                        / 8][i % 8] by {
                        if i < 8 * n {
                            assert(chunk@[i] == before[i]);
                            assert(longer[i / 8] == shorter[i / 8]);
                        } else {
                            assert(i / 8 == n && i % 8 == i - 8 * n);
                            assert(chunk@[i] == payload@[i - 8 * n]);
                        }
                    }
                }
                assert((old(self).sent@ + shorter).push(taken[k]) =~= old(self).sent@ + longer);
                assert forall|i: nat| i < n + 1 implies taken.contains_key(
                    #[trigger] (from + i) as u32,
                ) by {
                    if i == n {
                        assert((from + i) as u32 == k);
                    }
                }
                n = n + 1;
            }
            self.sent = Ghost(self.sent@.push(payload@));
            self.frontier = self.frontier + 1;
        }
        proof {
            assert(from + n <= upto) by {
                if n > 0 {
                    assert(taken.contains_key((from + (n - 1) as nat) as u32));
                }
            }
            SendState::lemma_ready(taken, from, upto, n);
            let after = old(self).state().push(capacity as nat, r, payload@);
            let gone = old(self).state().leaving(capacity as nat, r, payload@);
            assert(gone == SendState::run(taken, from, n));
            assert(gone.len() == n);
            assert forall|k: u32| self.state().pending.contains_key(k) == after.pending.contains_key(
                k,
            ) by {
                assert(self.pending@.contains_key(k) <==> taken.contains_key(k) && k >= from + n);
            }
            assert forall|k: u32| self.state().pending.contains_key(k) implies self.state().pending[k]
                == after.pending[k] by {
                assert(taken.contains_key(k));
            }
            assert(self.state().pending =~= after.pending);
        }
        Ok(chunk)
    }
}

/// Takes in the records that the steps of a protocol send and gives them out
/// for the transport, channel by channel in the order of their numbers. A
/// record leaves as soon as every earlier record of its channel has left;
/// until then it waits. To keep the number of waiting records in bounds, a
/// record that is too far ahead is not taken in.
pub struct SendBuffer {
    capacity: usize,
    channels: Vec<SendChannel>,
}

impl SendBuffer {
    /// How far ahead of the records that have left a record may be.
    pub closed spec fn capacity_spec(&self) -> nat {
        self.capacity as nat
    }

    /// Every channel is in order, and no channel is kept twice.
    pub closed spec fn wf(&self) -> bool {
        &&& forall|i: int|
            0 <= i < self.channels@.len() ==> (#[trigger] self.channels@[i]).wf(self.capacity as nat)
        &&& forall|i: int, j: int|
            0 <= i < j < self.channels@.len() ==> (#[trigger] self.channels@[i]).channel_id@ != (
            #[trigger] self.channels@[j]).channel_id@
    }

    spec fn knows(&self, id: (Role, Seq<char>)) -> bool {
        exists|i: int| 0 <= i < self.channels@.len() && (#[trigger] self.channels@[i]).channel_id@ == id
    }

    spec fn position_of(&self, id: (Role, Seq<char>)) -> int {
        choose|i: int| 0 <= i < self.channels@.len() && (#[trigger] self.channels@[i]).channel_id@ == id
    }

    /// The state of the channel `id`. A channel that the buffer has not
    /// heard of is empty.
    pub closed spec fn channel(&self, id: (Role, Seq<char>)) -> SendState {
        if self.knows(id) {
            self.channels@[self.position_of(id)].state()
        } else {
            SendState::empty()
        }
    }

    /// Every channel of a buffer is in order.
    pub proof fn lemma_channels_wf(&self, id: (Role, Seq<char>))
        requires
            self.wf(),
        ensures
            self.channel(id).wf(self.capacity_spec()),
    {
        if self.knows(id) {
            assert(self.channels@[self.position_of(id)].wf(self.capacity as nat));
        }
    }

    proof fn lemma_channel_at(&self, i: int)
        requires
            self.wf(),
            0 <= i < self.channels@.len(),
        ensures
            self.knows(self.channels@[i].channel_id@),
            self.channel(self.channels@[i].channel_id@) == self.channels@[i].state(),
    {
        let id = self.channels@[i].channel_id@;
        let k = self.position_of(id);
        if k < i {
            assert(self.channels@[k].channel_id@ != self.channels@[i].channel_id@);
        } else if i < k {
            assert(self.channels@[i].channel_id@ != self.channels@[k].channel_id@);
        }
    }

    /// When one channel of a buffer changes and nothing else does, every
    /// other channel is in the state that it was in.
    proof fn lemma_one_channel_changed(&self, before: &SendBuffer, i: int)
        requires
            before.wf(),
            0 <= i < before.channels@.len(),
            self.capacity == before.capacity,
            self.channels@.len() == before.channels@.len(),
            self.channels@[i].wf(self.capacity as nat),
            self.channels@[i].channel_id == before.channels@[i].channel_id,
            forall|k: int|
                0 <= k < before.channels@.len() && k != i ==> #[trigger] self.channels@[k]
                    == before.channels@[k],
        ensures
            self.wf(),
            self.channel(before.channels@[i].channel_id@) == self.channels@[i].state(),
            forall|id: (Role, Seq<char>)|
                id != before.channels@[i].channel_id@ ==> self.channel(id) == before.channel(id),
    {
        assert forall|k: int| 0 <= k < self.channels@.len() implies (#[trigger] self.channels@[k]).wf(
            self.capacity as nat,
        ) by {
            if k != i {
                assert(self.channels@[k] == before.channels@[k]);
                assert(before.channels@[k].wf(before.capacity as nat));
            }
        }
        assert forall|k: int| 0 <= k < self.channels@.len() implies (
        #[trigger] self.channels@[k]).channel_id@ == before.channels@[k].channel_id@ by {
            if k != i {
                assert(self.channels@[k] == before.channels@[k]);
            }
        }
        assert forall|k: int, j: int| 0 <= k < j < self.channels@.len() implies (
        #[trigger] self.channels@[k]).channel_id@ != (#[trigger] self.channels@[j]).channel_id@ by {
            assert(before.channels@[k].channel_id@ != before.channels@[j].channel_id@);
        }
        self.lemma_channel_at(i);
        assert forall|id: (Role, Seq<char>)| id != before.channels@[i].channel_id@ implies self.channel(
            id,
        ) == before.channel(id) by {
            if before.knows(id) {
                let k = before.position_of(id);
                before.lemma_channel_at(k);
                assert(self.channels@[k] == before.channels@[k]);
                self.lemma_channel_at(k);
            } else if self.knows(id) {
                let k = self.position_of(id);
                assert(before.channels@[k].channel_id@ == id);
            }
        }
    }

    /// A buffer without channels that lets records be up to `capacity`
    /// numbers ahead of those that have left.
    pub fn new(capacity: usize) -> (r: SendBuffer)
        ensures
            r.wf(),
            r.capacity_spec() == capacity,
            forall|id: (Role, Seq<char>)| r.channel(id) == SendState::empty(),
    {
        SendBuffer { capacity, channels: Vec::new() }
    }

    /// The position of the channel `channel_id` in the buffer.
    fn find(&self, channel_id: &ChannelId) -> (r: Option<usize>)
        requires
            self.wf(),
        ensures
            r matches Some(i) ==> i < self.channels@.len() && self.channels@[i as int].channel_id@
                == channel_id@,
            r is None ==> !self.knows(channel_id@),
    {
        let mut i: usize = 0;
        while i < self.channels.len()
            invariant
                i <= self.channels@.len(),
                forall|k: int| 0 <= k < i ==> (#[trigger] self.channels@[k]).channel_id@ != channel_id@,
            decreases self.channels@.len() - i,
        {
            if self.channels[i].channel_id.same_as(channel_id) {
                return Some(i);
            }
            i = i + 1;
        }
        None
    }

    /// The number of the next record that is to leave on the channel
    /// `channel_id`.
    pub fn frontier(&self, channel_id: &ChannelId) -> (r: u64)
        requires
            self.wf(),
        ensures
            r == self.channel(channel_id@).sent.len(),
    {
        match self.find(channel_id) {
            Some(i) => {
                proof {
                    self.lemma_channel_at(i as int);
                }
                self.channels[i].frontier
            },
            None => 0,
        }
    }

    /// Takes in the record `record_id` of the channel `channel_id` and gives
    /// out the bytes that leave on that channel: the record and every later
    /// one that waited for it, if it is the next to leave, and nothing if
    /// it has to wait itself.
    ///
    /// A record that was handed in before is refused as `Duplicate`, and one
    /// that is a full window or more ahead of the next to leave as
    /// `OutOfRange`; nothing changes then. No other channel is touched.
    pub fn push(&mut self, channel_id: &ChannelId, record_id: RecordId, payload: MessagePayload) -> (r:
        Result<Vec<u8>, PushError>)
        requires
            old(self).wf(),
        ensures
            final(self).wf(),
            final(self).capacity_spec() == old(self).capacity_spec(),
            forall|id: (Role, Seq<char>)|
                id != channel_id@ ==> final(self).channel(id) == old(self).channel(id),
            match old(self).channel(channel_id@).verdict(old(self).capacity_spec(), record_id.0) {
                Some(refusal) => r == Err::<Vec<u8>, PushError>(refusal) && final(self).channel(
                    channel_id@,
                ) == old(self).channel(channel_id@),
                None => {
                    &&& r matches Ok(bytes)
                    &&& bytes@ == bytes_of(
                        old(self).channel(channel_id@).leaving(
                            old(self).capacity_spec(),
                            record_id.0,
                            payload@,
                        ),
                    )
                    &&& final(self).channel(channel_id@) == old(self).channel(channel_id@).push(
                        old(self).capacity_spec(),
                        record_id.0,
                        payload@,
                    )
                },
            },
    {
        let i = match self.find(channel_id) {
            Some(i) => i,
            None => {
                self.channels.push(SendChannel::new(channel_id.duplicate()));
                let i = self.channels.len() - 1;
                proof {
                    assert forall|k: int| 0 <= k < self.channels@.len() implies (
                    #[trigger] self.channels@[k]).wf(self.capacity as nat) by {
                        if k < i {
                            assert(self.channels@[k] == old(self).channels@[k]);
                        }
                    }
                    assert forall|k: int, j: int| 0 <= k < j < self.channels@.len() implies (
                    #[trigger] self.channels@[k]).channel_id@ != (
                    #[trigger] self.channels@[j]).channel_id@ by {
                        assert(self.channels@[k] == old(self).channels@[k]);
                        if j < i {
                            assert(self.channels@[j] == old(self).channels@[j]);
                        }
                    }
                    self.lemma_channel_at(i as int);
                    assert forall|id: (Role, Seq<char>)| id != channel_id@ implies self.channel(id)
                        == old(self).channel(id) by {
                        if old(self).knows(id) {
                            let k = old(self).position_of(id);
                            old(self).lemma_channel_at(k);
                            assert(self.channels@[k] == old(self).channels@[k]);
                            self.lemma_channel_at(k);
                        } else if self.knows(id) {
                            let k = self.position_of(id);
                            assert(self.channels@[k] == old(self).channels@[k]);
                        }
                    }
                }
                i
            },
        };
        let ghost before = *self;
        proof {
            before.lemma_channel_at(i as int);
        }
        let capacity = self.capacity;
        let r = self.channels[i].push(capacity, record_id, payload);
        proof {
            self.lemma_one_channel_changed(&before, i as int);
        }
        r
    }
}

} // verus!
