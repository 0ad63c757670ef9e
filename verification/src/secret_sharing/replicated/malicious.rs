//! Shares that carry a check value against helpers that deviate.

pub mod additive_share;

pub use additive_share::{
    AdditiveShare, Downgrade, ExtendableField, ThisCodeIsAuthorizedToDowngradeFromMalicious,
    UnauthorizedDowngradeWrapper,
};
