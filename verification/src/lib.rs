//! Coordination core of a three-party computation service: the query
//! lifecycle, the per-query channel fabric and replicated secret shares.

pub mod cli;
pub mod error;
pub mod ff;
pub mod helpers;
pub mod hpke;
pub mod protocol;
pub mod query;
pub mod rng;
pub mod secret_sharing;
pub mod std_specs;
pub mod sync;
pub mod test_fixture;
