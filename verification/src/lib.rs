use vstd::prelude::*;

verus! {

mod channel;
mod decimal;
mod event;
mod event_repeater;
mod id;
mod laws;
mod observable;
mod subscriber;

pub use crate::channel::MAX_CHANNEL_CAPACITY;
pub use crate::decimal::append_decimal;
pub use crate::decimal::dec_rep;
pub use crate::decimal::digit_char;
pub use crate::event::DeliveryTarget;
pub use crate::event::Event;
pub use crate::event::dispatch_errors;
pub use crate::event::event_display;
pub use crate::event::failed_count;
pub use crate::event::has_subscriber;
pub use crate::event::ids_bounded;
pub use crate::event::ids_strictly_increasing;
pub use crate::event::keyed_errors;
pub use crate::event::keyed_outcomes_match;
pub use crate::event::keyed_step;
pub use crate::event::keyed_surviving;
pub use crate::event::lemma_dispatch_error_count;
pub use crate::event::lemma_dispatch_failure_isolation;
pub use crate::event::lemma_dispatch_no_subscribers;
pub use crate::event::lemma_dispatch_subscriber_count;
pub use crate::event::lemma_remove_pushed;
pub use crate::event::outcomes_match;
pub use crate::event::remove_id;
pub use crate::event::removed_count;
pub use crate::event::subscriber_for;
pub use crate::event::surviving;
pub use crate::event_repeater::AttachError;
pub use crate::event_repeater::CloseError;
pub use crate::event_repeater::DetachError;
pub use crate::event_repeater::DrainReport;
pub use crate::event_repeater::EventRepeater;
pub use crate::event_repeater::ReceiveLoopAction;
pub use crate::event_repeater::receive_loop_action;
pub use crate::event_repeater::repeater_display;
pub use crate::event_repeater::source_index;
pub use crate::event_repeater::sources_distinct;
pub use crate::id::IdAllocator;
pub use crate::laws::RegistryStep;
pub use crate::laws::automatic_removal_count;
pub use crate::laws::lemma_subscriber_count_balance;
pub use crate::laws::registry_after;
pub use crate::laws::subscribe_count;
pub use crate::laws::successful_unsubscribe_count;
pub use crate::laws::trace_wf;
pub use crate::observable::Observable;
pub use crate::observable::SetResult;
pub use crate::subscriber::Callback;
pub use crate::subscriber::DeliveryOutcome;
pub use crate::subscriber::DispatchError;
pub use crate::subscriber::Subscriber;
pub use crate::subscriber::error_of;
pub use crate::subscriber::outcome_failed;
pub use crate::subscriber::outcome_matches;

} // verus!
