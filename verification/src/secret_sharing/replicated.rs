//! Replicated sharing: each value is split into three parts that add up to
//! it, and each helper holds two of them.

pub mod malicious;
pub mod semi_honest;
