//! Buffers between the transport and the steps of a protocol.

pub mod receive;
pub mod send;
pub mod unordered_receiver;

pub use receive::ReceiveBuffer;
pub use send::SendBuffer;
pub use unordered_receiver::UnorderedReceiver;
