use vstd::prelude::*;

verus! {

use lum_libs::tokio::sync::mpsc::Sender;

/// The delivery target of one subscriber.
///
/// A channel target owns the send end of a bounded channel.  The two closure
/// shapes carry no payload here: the callable itself lives with whatever
/// unverified shell performs the deliveries, keyed by the subscriber's
/// identifier, and this registry records only which shape the subscriber
/// has, so that failures are tagged correctly.
#[derive(Debug)]
#[verifier::reject_recursive_types(T)]
pub enum Callback<T> {
    Channel(Sender<T>),
    Closure,
    AsyncClosure,
}

/// Why one delivery failed, tagged by the shape of the target.
///
/// A failed channel send carries the undeliverable value back to the caller;
/// a failed closure carries the message of the underlying error.
#[derive(Debug, PartialEq)]
pub enum DispatchError<T> {
    ChannelSend(T),
    Closure(String),
    AsyncClosure(String),
}

/// What one delivery attempt came to, as reported by the caller that
/// performed it.
///
/// A channel send that found the receiver gone hands the value back; a
/// closure that failed hands back the message of its error.
#[derive(Debug, PartialEq)]
pub enum DeliveryOutcome<T> {
    Delivered,
    ChannelClosed(T),
    CallbackError(String),
}

/// One registered delivery target plus its error-handling policy.
#[derive(Debug)]
#[verifier::reject_recursive_types(T)]
pub struct Subscriber<T> {
    pub id: u64,
    pub name: String,
    pub log_on_error: bool,
    pub remove_on_error: bool,
    pub callback: Callback<T>,
}

/// Whether an outcome has the shape that a delivery to this callback can
/// produce: only channel sends hand a value back, and only closures hand an
/// error message back.
pub open spec fn outcome_matches<T>(callback: Callback<T>, outcome: DeliveryOutcome<T>) -> bool {
    match outcome {
        DeliveryOutcome::Delivered => true,
        DeliveryOutcome::ChannelClosed(_) => callback is Channel,
        DeliveryOutcome::CallbackError(_) => callback is Closure || callback is AsyncClosure,
    }
}

/// Whether the outcome is a failure.
pub open spec fn outcome_failed<T>(outcome: DeliveryOutcome<T>) -> bool {
    !(outcome is Delivered)
}

/// The error that a failed outcome turns into, tagged by the callback shape.
pub open spec fn error_of<T>(callback: Callback<T>, outcome: DeliveryOutcome<T>) -> DispatchError<
    T,
>
    recommends
        outcome_failed(outcome),
        outcome_matches(callback, outcome),
{
    match outcome {
        DeliveryOutcome::Delivered => arbitrary(),
        DeliveryOutcome::ChannelClosed(value) => DispatchError::ChannelSend(value),
        DeliveryOutcome::CallbackError(message) => if callback is AsyncClosure {
            DispatchError::AsyncClosure(message)
        } else {
            DispatchError::Closure(message)
        },
    }
}

impl<T> Subscriber<T> {
    pub fn new(
        id: u64,
        name: String,
        log_on_error: bool,
        remove_on_error: bool,
        callback: Callback<T>,
    ) -> (s: Subscriber<T>)
        ensures
            s.id == id,
            s.name == name,
            s.log_on_error == log_on_error,
            s.remove_on_error == remove_on_error,
            s.callback == callback,
    {
        Subscriber { id, name, log_on_error, remove_on_error, callback }
    }

    /// Settles one delivery attempt: a success stays `Ok`, and a failure
    /// becomes the dispatch error that this subscriber's callback shape
    /// produces.
    pub fn dispatch(&self, outcome: DeliveryOutcome<T>) -> (r: Result<(), DispatchError<T>>)
        requires
            outcome_matches(self.callback, outcome),
        ensures
            !outcome_failed(outcome) ==> r == Ok::<(), DispatchError<T>>(()),
            outcome_failed(outcome) ==> r == Err::<(), DispatchError<T>>(
                error_of(self.callback, outcome),
            ),
    {
        match outcome {
            DeliveryOutcome::Delivered => Ok(()),
            DeliveryOutcome::ChannelClosed(value) => Err(DispatchError::ChannelSend(value)),
            DeliveryOutcome::CallbackError(message) => match &self.callback {
                Callback::AsyncClosure => Err(DispatchError::AsyncClosure(message)),
                _ => Err(DispatchError::Closure(message)),
            },
        }
    }
}

impl<T> PartialEq for Subscriber<T> {
    /// Identity is by identifier alone.
    fn eq(&self, other: &Self) -> (r: bool) {
        self.id == other.id
    }
}

impl<T> vstd::std_specs::cmp::PartialEqSpecImpl for Subscriber<T> {
    open spec fn obeys_eq_spec() -> bool {
        true
    }

    open spec fn eq_spec(&self, other: &Self) -> bool {
        self.id == other.id
    }
}

impl<T> Eq for Subscriber<T> {

}

} // verus!
