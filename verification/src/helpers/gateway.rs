//! The per-query fabric through which protocol steps exchange records.

pub mod receive;
pub mod send;

pub use receive::{GatewayReceivers, Message, ReceivingEnd, UR};
pub use send::SendingEnd;

use crate::helpers::query::QueryConfig;
use crate::helpers::buffers::send::SendState;
use crate::helpers::buffers::unordered_receiver::{ChannelState, UnorderedReceiver};
use crate::helpers::buffers::SendBuffer;
use crate::helpers::{ChannelId, HelperIdentity, Role, RoleAssignment};
use crate::protocol::QueryId;
use vstd::prelude::*;
use vstd::std_specs::convert::FromSpecImpl;

verus! {

/// How much work a gateway keeps in flight.
#[derive(Clone, Copy, Debug, PartialEq, Eq, Structural)]
pub struct GatewayConfig {
    active: usize,
}

impl GatewayConfig {
    #[verifier::type_invariant]
    spec fn positive(self) -> bool {
        self.active > 0
    }

    /// Number of records per channel that may be outstanding at a time.
    pub closed spec fn active_work_spec(self) -> nat {
        self.active as nat
    }

    /// The configuration that every query gets.
    pub closed spec fn standard() -> GatewayConfig {
        GatewayConfig { active: 1024 }
    }

    /// The standard configuration keeps 1024 records in flight.
    pub proof fn lemma_standard()
        ensures
            Self::standard().active_work_spec() == 1024,
    {
    }

    /// A configuration that keeps `active` records in flight; zero is turned
    /// down.
    pub fn new(active: usize) -> (r: Option<GatewayConfig>)
        ensures
            active > 0 ==> (r matches Some(c) && c.active_work_spec() == active),
            active == 0 ==> r is None,
    {
        if active > 0 {
            Some(GatewayConfig { active })
        } else {
            None
        }
    }

    /// Number of records per channel that may be outstanding at a time.
    pub fn active_work(&self) -> (r: usize)
        ensures
            r == self.active_work_spec(),
            r > 0,
    {
        proof {
            use_type_invariant(self);
        }
        self.active
    }
}

impl Default for GatewayConfig {
    fn default() -> (r: GatewayConfig)
        ensures
            r == GatewayConfig::standard(),
            r.active_work_spec() == 1024,
    {
        GatewayConfig { active: 1024 }
    }
}

impl<'a> From<&'a QueryConfig> for GatewayConfig {
    fn from(config: &'a QueryConfig) -> (r: GatewayConfig) {
        GatewayConfig { active: 1024 }
    }
}

impl<'a> FromSpecImpl<&'a QueryConfig> for GatewayConfig {
    open spec fn obeys_from_spec() -> bool {
        true
    }

    open spec fn from_spec(config: &'a QueryConfig) -> GatewayConfig {
        GatewayConfig::standard()
    }
}

/// The fabric of one query on one helper: it hands out the ends of the
/// channels on which the steps of the protocol exchange records with the
/// other helpers.
pub struct Gateway {
    query_id: QueryId,
    config: GatewayConfig,
    roles: RoleAssignment,
    role: Role,
    receivers: GatewayReceivers,
    senders: SendBuffer,
}

impl Gateway {
    /// The query that the gateway serves.
    pub closed spec fn query_id_spec(&self) -> QueryId {
        self.query_id
    }

    /// The gateway's configuration.
    pub closed spec fn config_spec(&self) -> GatewayConfig {
        self.config
    }

    /// The roles of the three helpers in the query.
    pub closed spec fn roles_spec(&self) -> RoleAssignment {
        self.roles
    }

    /// The role of this helper in the query.
    pub closed spec fn role_spec(&self) -> Role {
        self.role
    }

    /// The receiving sides of the gateway's channels.
    pub closed spec fn receivers_spec(&self) -> GatewayReceivers {
        self.receivers
    }

    /// The sending sides of the gateway's channels.
    pub closed spec fn senders_spec(&self) -> SendBuffer {
        self.senders
    }

    /// The gateway's channels are in order, and records may be as far ahead
    /// as the configuration lets work be in flight.
    pub open spec fn wf(&self) -> bool {
        &&& self.receivers_spec().wf()
        &&& self.senders_spec().wf()
        &&& self.senders_spec().capacity_spec() == self.config_spec().active_work_spec()
    }

    /// The state of the receiving side of the channel `id`.
    pub open spec fn channel(&self, id: (Role, Seq<char>)) -> ChannelState {
        self.receivers_spec().channel(id)
    }

    /// The state of the sending side of the channel `id`.
    pub open spec fn sending(&self, id: (Role, Seq<char>)) -> SendState {
        self.senders_spec().channel(id)
    }

    /// A gateway for the query `query_id` on the helper `me`.
    pub fn new(query_id: QueryId, config: GatewayConfig, roles: RoleAssignment, me: HelperIdentity) -> (r:
        Gateway)
        ensures
            r.query_id_spec() == query_id,
            r.config_spec() == config,
            r.roles_spec() == roles,
            r.role_spec() == roles.role_spec(me),
            r.wf(),
            forall|id: (Role, Seq<char>)| r.channel(id) == ChannelState::empty(),
            forall|id: (Role, Seq<char>)| r.sending(id) == SendState::empty(),
    {
        let role = roles.role(me);
        Gateway {
            query_id,
            config,
            roles,
            role,
            receivers: GatewayReceivers::default(),
            senders: SendBuffer::new(config.active_work()),
        }
    }

    /// The sending end of the channel `channel_id`. Asking again for the
    /// same channel gives an end of the same channel.
    pub fn get_sender<M: Message>(&self, channel_id: &ChannelId) -> (r: SendingEnd<M>)
        ensures
            r.channel_spec() == channel_id@,
    {
        SendingEnd::new(channel_id.duplicate())
    }

    /// The sending sides of the gateway's channels, for the sending ends to
    /// hand their records to.
    pub fn senders(&mut self) -> (r: &mut SendBuffer)
        ensures
            *r == old(self).senders_spec(),
            final(self).senders_spec() == *final(r),
            final(self).receivers_spec() == old(self).receivers_spec(),
            final(self).query_id_spec() == old(self).query_id_spec(),
            final(self).config_spec() == old(self).config_spec(),
            final(self).roles_spec() == old(self).roles_spec(),
            final(self).role_spec() == old(self).role_spec(),
    {
        &mut self.senders
    }

    /// The receiving end of the channel `channel_id`. Asking again for the
    /// same channel gives an end of the same channel: the channel's
    /// receiving side is made when it is asked for first and kept from then
    /// on.
    pub fn get_receiver<M: Message>(&mut self, channel_id: &ChannelId) -> (r: ReceivingEnd<M>)
        requires
            old(self).wf(),
        ensures
            final(self).wf(),
            final(self).query_id_spec() == old(self).query_id_spec(),
            final(self).config_spec() == old(self).config_spec(),
            final(self).roles_spec() == old(self).roles_spec(),
            final(self).role_spec() == old(self).role_spec(),
            r.channel_spec() == channel_id@,
            final(self).receivers_spec().leads_to(r.handle(), channel_id@),
            forall|id: (Role, Seq<char>)| final(self).channel(id) == old(self).channel(id),
            forall|id: (Role, Seq<char>)|
                final(self).receivers_spec().senders(id) == old(self).receivers_spec().senders(id),
            final(self).senders_spec() == old(self).senders_spec(),
            forall|id: (Role, Seq<char>), handle: UR|
                old(self).receivers_spec().leads_to(handle, id) ==> final(self).receivers_spec().leads_to(handle, id),
    {
        proof {
            if !self.receivers.knows(channel_id@) {
                self.receivers.lemma_unknown_is_empty(channel_id@);
            }
        }
        let handle = self.receivers.get_or_create(channel_id, UnorderedReceiver::new);
        ReceivingEnd::new(channel_id.duplicate(), handle)
    }

    /// The receiving sides of the gateway's channels, for taking in what
    /// arrives and for finishing what the receiving ends began.
    pub fn receivers(&mut self) -> (r: &mut GatewayReceivers)
        ensures
            *r == old(self).receivers_spec(),
            final(self).receivers_spec() == *final(r),
            final(self).senders_spec() == old(self).senders_spec(),
            final(self).query_id_spec() == old(self).query_id_spec(),
            final(self).config_spec() == old(self).config_spec(),
            final(self).roles_spec() == old(self).roles_spec(),
            final(self).role_spec() == old(self).role_spec(),
    {
        &mut self.receivers
    }

    /// The role of this helper in the query.
    pub fn role(&self) -> (r: Role)
        ensures
            r == self.role_spec(),
    {
        self.role
    }

    /// The query that the gateway serves.
    pub fn query_id(&self) -> (r: QueryId)
        ensures
            r == self.query_id_spec(),
    {
        self.query_id
    }

    /// The gateway's configuration.
    pub fn config(&self) -> (r: GatewayConfig)
        ensures
            r == self.config_spec(),
    {
        self.config
    }
}

} // verus!
