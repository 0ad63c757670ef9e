//! Single-use channels: one side fulfils a promise once, the other side waits
//! for it or looks whether it has been kept.

use tokio::sync::oneshot;
use vstd::prelude::*;

verus! {

/// `tokio::sync::oneshot::Sender`, of which the verifier sees nothing.
#[verifier::external_type_specification]
#[verifier::external_body]
#[verifier::reject_recursive_types(T)]
pub struct ExOneshotSender<T>(oneshot::Sender<T>);

/// `tokio::sync::oneshot::Receiver`, of which the verifier sees nothing.
#[verifier::external_type_specification]
#[verifier::external_body]
#[verifier::reject_recursive_types(T)]
pub struct ExOneshotReceiver<T>(oneshot::Receiver<T>);

/// `tokio::sync::oneshot::error::RecvError`, the error of waiting on a
/// receiver, of which the verifier sees nothing.
#[verifier::external_type_specification]
#[verifier::external_body]
pub struct ExOneshotRecvError(oneshot::error::RecvError);

/// `tokio::sync::oneshot::channel` makes the two ends of a fresh channel.
/// Nothing is claimed about them.
pub assume_specification<T>[ oneshot::channel::<T> ]() -> (ends: (
    oneshot::Sender<T>,
    oneshot::Receiver<T>,
));

/// `tokio::sync::oneshot::Sender::send` hands `value` to the receiving end.
/// When that end is gone the call fails and gives the very same value back.
/// Whether it succeeds is up to the other side, so nothing is said of that.
pub assume_specification<T>[ oneshot::Sender::<T>::send ](
    sender: oneshot::Sender<T>,
    value: T,
) -> (r: Result<(), T>)
    ensures
        r matches Err(returned) ==> returned == value,
;

/// What one look into the receiving end of a single-use channel found.
#[derive(Debug)]
pub enum Polled<T> {
    /// The value that the sender left.
    Ready(T),
    /// Nothing has been sent yet.
    Empty,
    /// Nothing will ever come: the sender is gone, or the value was taken
    /// before.
    Closed,
}

/// `tokio::sync::oneshot::Receiver::try_recv` looks once, without waiting,
/// whether the sender has left a value. The three outcomes of that call are
/// handed on as they are; which of them occurs depends on the sender, so the
/// contract is silent about it. A look that finds nothing yet returns before
/// anything of the receiver is written, so the receiver is then as it was.
#[verifier::external_body]
pub(crate) fn try_recv<T>(receiver: &mut oneshot::Receiver<T>) -> (r: Polled<T>)
    ensures
        r is Empty ==> *final(receiver) == *old(receiver),
{
    match receiver.try_recv() {
        Ok(value) => Polled::Ready(value),
        Err(oneshot::error::TryRecvError::Empty) => Polled::Empty,
        Err(oneshot::error::TryRecvError::Closed) => Polled::Closed,
    }
}

} // verus!
