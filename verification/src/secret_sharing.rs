//! Secret sharing among the three helpers.

pub mod decomposed;
pub mod into_shares;
pub mod replicated;

pub use decomposed::BitDecomposed;
pub use into_shares::IntoShares;
