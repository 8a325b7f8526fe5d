use vstd::prelude::*;

verus! {

// The bounded mpsc channel of tokio (re-exported by lum_libs) carries the
// values that channel subscribers receive.  The sender and receiver types are
// opaque to the verifier; the registry stores them and hands them out, and
// every claim about what travels through a channel is made by the caller that
// drives the delivery, never here.

#[verifier::external_type_specification]
#[verifier::external_body]
#[verifier::reject_recursive_types(T)]
pub struct ExSender<T>(lum_libs::tokio::sync::mpsc::Sender<T>);

#[verifier::external_type_specification]
#[verifier::external_body]
#[verifier::reject_recursive_types(T)]
pub struct ExReceiver<T>(lum_libs::tokio::sync::mpsc::Receiver<T>);

/// The largest capacity a bounded channel may be built with: tokio's
/// semaphore cannot hold more permits.
pub const MAX_CHANNEL_CAPACITY: usize = usize::MAX >> 3;

/// What one non-blocking look at a receiver found.
#[derive(Debug, PartialEq)]
pub enum RecvPoll<T> {
    /// A value was waiting in the channel.
    Message(T),
    /// The channel is empty but senders are still alive.
    Empty,
    /// Every sender is gone and the buffer is drained.
    Closed,
}

/// Relies on tokio's `mpsc::channel`: builds a connected bounded
/// sender/receiver pair.  The call panics on a capacity of zero and on one
/// above the semaphore's permit limit, so both inputs are excluded here.
#[verifier::external_body]
pub(crate) fn open_channel<T>(capacity: usize) -> (r: (
    lum_libs::tokio::sync::mpsc::Sender<T>,
    lum_libs::tokio::sync::mpsc::Receiver<T>,
))
    requires
        1 <= capacity <= MAX_CHANNEL_CAPACITY,
{
    lum_libs::tokio::sync::mpsc::channel(capacity)
}

/// Relies on tokio's `Receiver::try_recv`: takes one queued value without
/// waiting, or reports the channel empty or closed.  What comes back depends
/// on what the senders did at run time, so nothing more is promised.
#[verifier::external_body]
pub(crate) fn poll_receiver<T>(receiver: &mut lum_libs::tokio::sync::mpsc::Receiver<T>) -> (p:
    RecvPoll<T>)
{
    match receiver.try_recv() {
        Ok(value) => RecvPoll::Message(value),
        Err(lum_libs::tokio::sync::mpsc::error::TryRecvError::Empty) => RecvPoll::Empty,
        Err(lum_libs::tokio::sync::mpsc::error::TryRecvError::Disconnected) => RecvPoll::Closed,
    }
}

/// Relies on tokio's `Sender::clone`: the clone is a handle to the same
/// channel as the original.
#[verifier::external_body]
pub(crate) fn clone_sender<T>(sender: &lum_libs::tokio::sync::mpsc::Sender<T>) -> (r:
    lum_libs::tokio::sync::mpsc::Sender<T>)
{
    sender.clone()
}

} // verus!
