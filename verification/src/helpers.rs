//! The parties of a computation, the roles they take in a query and the
//! channels between them.

pub mod buffers;
pub mod gateway;
pub mod query;

pub use gateway::{Gateway, GatewayConfig};

use crate::query::processor::PrepareQueryError;
use vstd::prelude::*;

verus! {

/// Number of bytes in one record on the wire.
pub const MESSAGE_PAYLOAD_SIZE_BYTES: usize = 8;

/// One record as it travels between helpers.
pub type MessagePayload = [u8; 8];

/// Stable name of one of the three helper parties.
#[derive(Clone, Copy, Debug, PartialEq, Eq, Hash, Structural)]
pub enum HelperIdentity {
    One,
    Two,
    Three,
}

impl HelperIdentity {
    /// The party that follows `self` in the ring.
    pub open spec fn right_spec(self) -> HelperIdentity {
        match self {
            HelperIdentity::One => HelperIdentity::Two,
            HelperIdentity::Two => HelperIdentity::Three,
            HelperIdentity::Three => HelperIdentity::One,
        }
    }

    /// The party that precedes `self` in the ring.
    pub open spec fn left_spec(self) -> HelperIdentity {
        match self {
            HelperIdentity::One => HelperIdentity::Three,
            HelperIdentity::Two => HelperIdentity::One,
            HelperIdentity::Three => HelperIdentity::Two,
        }
    }

    /// All three parties, in ring order.
    pub fn make_three() -> (r: [HelperIdentity; 3])
        ensures
            r[0] == HelperIdentity::One,
            r[1] == HelperIdentity::Two,
            r[2] == HelperIdentity::Three,
    {
        [HelperIdentity::One, HelperIdentity::Two, HelperIdentity::Three]
    }

    /// The two other parties: first the right neighbour, then the left one.
    pub fn others(&self) -> (r: [HelperIdentity; 2])
        ensures
            r[0] == self.right_spec(),
            r[1] == self.left_spec(),
    {
        match self {
            HelperIdentity::One => [HelperIdentity::Two, HelperIdentity::Three],
            HelperIdentity::Two => [HelperIdentity::Three, HelperIdentity::One],
            HelperIdentity::Three => [HelperIdentity::One, HelperIdentity::Two],
        }
    }
}

/// Position of a helper within one query. `H1` coordinates the query.
#[derive(Clone, Copy, Debug, PartialEq, Eq, Hash, Structural)]
pub enum Role {
    H1,
    H2,
    H3,
}

impl Role {
    /// The three roles in order.
    pub fn all() -> (r: [Role; 3])
        ensures
            r[0] == Role::H1,
            r[1] == Role::H2,
            r[2] == Role::H3,
    {
        [Role::H1, Role::H2, Role::H3]
    }

    /// Zero-based position of the role.
    pub open spec fn index_spec(self) -> nat {
        match self {
            Role::H1 => 0,
            Role::H2 => 1,
            Role::H3 => 2,
        }
    }

    /// Zero-based position of the role.
    pub fn index(self) -> (r: u8)
        ensures
            r == self.index_spec(),
    {
        match self {
            Role::H1 => 0,
            Role::H2 => 1,
            Role::H3 => 2,
        }
    }
}

/// Names a point in the protocol circuit. Gates form a hierarchy whose levels
/// are written one after the other, with a slash between them.
#[derive(Clone, Debug, PartialEq, Eq, Hash)]
pub struct Gate {
    name: String,
}

impl View for Gate {
    type V = Seq<char>;

    closed spec fn view(&self) -> Seq<char> {
        self.name@
    }
}

impl Gate {
    /// A gate by its name.
    pub fn new(name: String) -> (r: Gate)
        ensures
            r@ == name@,
    {
        Gate { name }
    }

    /// A gate by its name.
    pub fn from_str(name: &str) -> (r: Gate)
        ensures
            r@ == name@,
    {
        Gate { name: name.to_owned() }
    }

    /// The name.
    pub fn as_str(&self) -> (r: &str)
        ensures
            r@ == self@,
    {
        self.name.as_str()
    }

    /// The name, as a string of its own.
    pub fn to_string(&self) -> (r: String)
        ensures
            r@ == self@,
    {
        self.name.clone()
    }

    /// Whether two gates have the same name.
    pub fn same_as(&self, other: &Gate) -> (r: bool)
        ensures
            r == (self@ == other@),
    {
        self.name == other.name
    }

    /// A copy.
    pub fn duplicate(&self) -> (r: Gate)
        ensures
            r@ == self@,
    {
        Gate { name: self.name.clone() }
    }
}

/// Names one wire of a query: the records that one step of the protocol
/// exchanges with the helper in the given role. Records on one channel are
/// ordered; different channels are independent of each other.
#[derive(Clone, Debug, PartialEq, Eq, Hash)]
pub struct ChannelId {
    pub role: Role,
    pub gate: Gate,
}

impl View for ChannelId {
    type V = (Role, Seq<char>);

    open spec fn view(&self) -> (Role, Seq<char>) {
        (self.role, self.gate@)
    }
}

impl ChannelId {
    /// The channel of the step `gate` with the helper in the role `role`.
    pub fn new(role: Role, gate: Gate) -> (r: ChannelId)
        ensures
            r@ == (role, gate@),
    {
        ChannelId { role, gate }
    }

    /// Whether two identifiers name the same channel.
    pub fn same_as(&self, other: &ChannelId) -> (r: bool)
        ensures
            r == (self@ == other@),
    {
        self.role == other.role && self.gate.same_as(&other.gate)
    }

    /// A copy of the identifier.
    pub fn duplicate(&self) -> (r: ChannelId)
        ensures
            r@ == self@,
    {
        ChannelId { role: self.role, gate: self.gate.duplicate() }
    }
}

/// Why a record did not come out of a channel.
#[derive(Clone, Copy, Debug, PartialEq, Eq, Structural)]
pub enum ReceiveFailure {
    /// The side that was to deliver the record went away.
    ChannelClosed,
}

/// Failures of the channel fabric.
#[derive(Clone, Debug, PartialEq, Eq)]
pub enum Error {
    /// A record that was asked for on the channel of the step `step` with
    /// the helper in the role `source` cannot come any more.
    ReceiveError { source: Role, step: String, inner: ReceiveFailure },
}

/// Why a command did not reach a helper, or what the helper had against it.
#[derive(Clone, Copy, Debug, PartialEq, Eq, Structural)]
pub enum TransportError {
    /// The helper could not be reached.
    Unreachable { dest: HelperIdentity },
    /// The helper received the announcement of a query and turned it down.
    Rejected { dest: HelperIdentity, inner: PrepareQueryError },
}

/// Why a proposed assignment of roles was turned down.
#[derive(Clone, Copy, Debug, PartialEq, Eq, Structural)]
pub enum AssignmentError {
    /// The role was given to no helper.
    RoleNotAssigned(Role),
    /// Two roles were given to the same helper.
    HelperAssignedTwice(HelperIdentity),
}

/// Which helper plays which role in a query: a one-to-one correspondence
/// between the three helpers and the three roles.
#[derive(Clone, Copy, Debug, PartialEq, Eq, Structural)]
pub struct RoleAssignment {
    h1: HelperIdentity,
    h2: HelperIdentity,
    h3: HelperIdentity,
}

impl RoleAssignment {
    #[verifier::type_invariant]
    spec fn one_to_one(self) -> bool {
        self.h1 != self.h2 && self.h2 != self.h3 && self.h1 != self.h3
    }

    /// The assignment that gives `H1` to `h1`, `H2` to `h2` and `H3` to `h3`.
    pub closed spec fn from_identities(
        h1: HelperIdentity,
        h2: HelperIdentity,
        h3: HelperIdentity,
    ) -> RoleAssignment {
        RoleAssignment { h1, h2, h3 }
    }

    /// An assignment is the three helpers that it names, role by role.
    pub broadcast proof fn lemma_from_identities(
        h1: HelperIdentity,
        h2: HelperIdentity,
        h3: HelperIdentity,
    )
        ensures
            (#[trigger] Self::from_identities(h1, h2, h3)).identity_spec(Role::H1) == h1,
            Self::from_identities(h1, h2, h3).identity_spec(Role::H2) == h2,
            Self::from_identities(h1, h2, h3).identity_spec(Role::H3) == h3,
    {
    }

    /// Two assignments that agree on every role are the same.
    pub proof fn lemma_determined_by_identities(self, other: RoleAssignment)
        requires
            forall|role: Role| self.identity_spec(role) == other.identity_spec(role),
        ensures
            self == other,
    {
        assert(self.identity_spec(Role::H1) == other.identity_spec(Role::H1));
        assert(self.identity_spec(Role::H2) == other.identity_spec(Role::H2));
        assert(self.identity_spec(Role::H3) == other.identity_spec(Role::H3));
    }

    /// The helper that plays `role`.
    pub closed spec fn identity_spec(self, role: Role) -> HelperIdentity {
        match role {
            Role::H1 => self.h1,
            Role::H2 => self.h2,
            Role::H3 => self.h3,
        }
    }

    /// The role that `id` plays.
    pub open spec fn role_spec(self, id: HelperIdentity) -> Role {
        if self.identity_spec(Role::H1) == id {
            Role::H1
        } else if self.identity_spec(Role::H2) == id {
            Role::H2
        } else {
            Role::H3
        }
    }

    /// No helper plays two roles.
    pub open spec fn is_bijection(self) -> bool {
        &&& self.identity_spec(Role::H1) != self.identity_spec(Role::H2)
        &&& self.identity_spec(Role::H2) != self.identity_spec(Role::H3)
        &&& self.identity_spec(Role::H1) != self.identity_spec(Role::H3)
    }

    /// Assigns `H1`, `H2` and `H3` to the three helpers in the order given.
    pub fn new(helper_roles: [HelperIdentity; 3]) -> (r: RoleAssignment)
        requires
            helper_roles[0] != helper_roles[1],
            helper_roles[1] != helper_roles[2],
            helper_roles[0] != helper_roles[2],
        ensures
            r == Self::from_identities(helper_roles[0], helper_roles[1], helper_roles[2]),
            r.is_bijection(),
    {
        RoleAssignment { h1: helper_roles[0], h2: helper_roles[1], h3: helper_roles[2] }
    }

    /// The helper to whom `pairs` give the role `role`: the first that is
    /// named together with it.
    pub open spec fn assigned(pairs: [(HelperIdentity, Role); 3], role: Role) -> Option<
        HelperIdentity,
    > {
        if pairs[0].1 == role {
            Some(pairs[0].0)
        } else if pairs[1].1 == role {
            Some(pairs[1].0)
        } else if pairs[2].1 == role {
            Some(pairs[2].0)
        } else {
            None
        }
    }

    /// What comes of three pairs of a helper and its role: the assignment
    /// that they describe, if every role is given to a helper and no helper
    /// has two roles. Otherwise the first role that nobody has is reported,
    /// or else a helper that has two.
    pub open spec fn try_from_spec(pairs: [(HelperIdentity, Role); 3]) -> Result<
        RoleAssignment,
        AssignmentError,
    > {
        match (
            Self::assigned(pairs, Role::H1),
            Self::assigned(pairs, Role::H2),
            Self::assigned(pairs, Role::H3),
        ) {
            (None, _, _) => Err(AssignmentError::RoleNotAssigned(Role::H1)),
            (Some(_), None, _) => Err(AssignmentError::RoleNotAssigned(Role::H2)),
            (Some(_), Some(_), None) => Err(AssignmentError::RoleNotAssigned(Role::H3)),
            (Some(h1), Some(h2), Some(h3)) => if h1 == h2 || h1 == h3 {
                Err(AssignmentError::HelperAssignedTwice(h1))
            } else if h2 == h3 {
                Err(AssignmentError::HelperAssignedTwice(h2))
            } else {
                Ok(Self::from_identities(h1, h2, h3))
            },
        }
    }

    /// The helper to whom `pairs` give the role `role`.
    fn find(pairs: &[(HelperIdentity, Role); 3], role: Role) -> (r: Option<HelperIdentity>)
        ensures
            r == Self::assigned(*pairs, role),
    {
        if pairs[0].1 == role {
            Some(pairs[0].0)
        } else if pairs[1].1 == role {
            Some(pairs[1].0)
        } else if pairs[2].1 == role {
            Some(pairs[2].0)
        } else {
            None
        }
    }

    /// Makes an assignment from three pairs of a helper and its role.
    pub fn try_from(pairs: [(HelperIdentity, Role); 3]) -> (r: Result<
        RoleAssignment,
        AssignmentError,
    >)
        ensures
            r == Self::try_from_spec(pairs),
            r matches Ok(roles) ==> roles.is_bijection(),
    {
        let h1 = match Self::find(&pairs, Role::H1) {
            Some(h) => h,
            None => {
                return Err(AssignmentError::RoleNotAssigned(Role::H1));
            },
        };
        let h2 = match Self::find(&pairs, Role::H2) {
            Some(h) => h,
            None => {
                return Err(AssignmentError::RoleNotAssigned(Role::H2));
            },
        };
        let h3 = match Self::find(&pairs, Role::H3) {
            Some(h) => h,
            None => {
                return Err(AssignmentError::RoleNotAssigned(Role::H3));
            },
        };
        if h1 == h2 || h1 == h3 {
            Err(AssignmentError::HelperAssignedTwice(h1))
        } else if h2 == h3 {
            Err(AssignmentError::HelperAssignedTwice(h2))
        } else {
            Ok(RoleAssignment { h1, h2, h3 })
        }
    }

    /// The role that `id` plays.
    pub fn role(&self, id: HelperIdentity) -> (r: Role)
        ensures
            r == self.role_spec(id),
            self.identity_spec(r) == id,
    {
        proof {
            use_type_invariant(self);
        }
        if self.h1 == id {
            Role::H1
        } else if self.h2 == id {
            Role::H2
        } else {
            Role::H3
        }
    }

    /// The helper that plays `role`.
    pub fn identity(&self, role: Role) -> (r: HelperIdentity)
        ensures
            r == self.identity_spec(role),
    {
        match role {
            Role::H1 => self.h1,
            Role::H2 => self.h2,
            Role::H3 => self.h3,
        }
    }
}

} // verus!
