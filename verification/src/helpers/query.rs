//! What helpers tell each other about a query before it runs.

use crate::helpers::RoleAssignment;
use crate::protocol::QueryId;
use vstd::prelude::*;

verus! {

/// The field in which a query computes.
#[derive(Clone, Copy, Debug, PartialEq, Eq, Hash, Structural)]
pub enum FieldType {
    Fp31,
    Fp32BitPrime,
}

/// Parameters of an attribution query.
#[derive(Clone, Copy, Debug, PartialEq, Eq, Hash, Structural)]
pub struct IpaQueryConfig {
    pub per_user_credit_cap: u32,
    pub max_breakdown_key: u32,
    /// Zero stands for an unbounded window.
    pub attribution_window_seconds: u32,
    pub num_multi_bits: u32,
    pub plaintext_match_keys: bool,
}

/// The computation a query asks for.
#[derive(Clone, Copy, Debug, PartialEq, Eq, Hash, Structural)]
pub enum QueryType {
    TestMultiply,
    SemiHonestIpa(IpaQueryConfig),
    MaliciousIpa(IpaQueryConfig),
}

/// A query size that is not positive.
#[derive(Clone, Copy, Debug, PartialEq, Eq, Structural)]
pub struct BadQuerySizeError(pub u32);

/// Number of input records of a query. Always positive.
#[derive(Clone, Copy, Debug, PartialEq, Eq, Hash, Structural)]
pub struct QuerySize(u32);

impl QuerySize {
    #[verifier::type_invariant]
    spec fn positive(self) -> bool {
        self.0 > 0
    }

    /// The number of records.
    pub closed spec fn value(self) -> nat {
        self.0 as nat
    }

    /// Accepts every positive size.
    pub fn new(size: u32) -> (r: Result<QuerySize, BadQuerySizeError>)
        ensures
            size > 0 ==> (r matches Ok(q) && q.value() == size),
            size == 0 ==> r == Err::<QuerySize, BadQuerySizeError>(BadQuerySizeError(size)),
    {
        if size > 0 {
            Ok(QuerySize(size))
        } else {
            Err(BadQuerySizeError(size))
        }
    }

    /// The number of records, which is never zero.
    pub fn get(self) -> (r: u32)
        ensures
            r == self.value(),
            r > 0,
    {
        proof {
            use_type_invariant(self);
        }
        self.0
    }
}

/// Everything that describes a query. Fixed once the query is created.
#[derive(Clone, Copy, Debug, PartialEq, Eq, Hash, Structural)]
pub struct QueryConfig {
    pub size: QuerySize,
    pub field_type: FieldType,
    pub query_type: QueryType,
}

impl QueryConfig {
    /// Builds a configuration; the size must be positive.
    pub fn new(query_type: QueryType, field_type: FieldType, size: u32) -> (r: Result<
        QueryConfig,
        BadQuerySizeError,
    >)
        ensures
            size > 0 ==> (r matches Ok(c) && c.size.value() == size && c.field_type == field_type
                && c.query_type == query_type),
            size == 0 ==> r == Err::<QueryConfig, BadQuerySizeError>(BadQuerySizeError(size)),
    {
        match QuerySize::new(size) {
            Ok(size) => Ok(QueryConfig { size, field_type, query_type }),
            Err(e) => Err(e),
        }
    }
}

/// What the coordinator sends to the two followers to announce a query.
#[derive(Clone, Copy, Debug, PartialEq, Eq, Structural)]
pub struct PrepareQuery {
    pub query_id: QueryId,
    pub config: QueryConfig,
    pub roles: RoleAssignment,
}

/// The secret-shared input of a query as one helper receives it: the records
/// laid end to end, each at the fixed width of its type.
#[derive(Debug)]
pub struct QueryInput {
    pub query_id: QueryId,
    pub input_stream: Vec<u8>,
}

} // verus!
