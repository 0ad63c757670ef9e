//! Driving a computation from prepared inputs.

pub mod input;
