use vstd::prelude::*;

verus! {

use crate::event::has_subscriber;
use crate::event::remove_id;
use crate::event::removed_count;
use crate::event::surviving;
use crate::subscriber::DeliveryOutcome;
use crate::subscriber::Subscriber;

/// One step of registry bookkeeping, mirroring at the specification level
/// what the subscribe functions, `unsubscribe` and `dispatch` promise in
/// their contracts.
#[verifier::reject_recursive_types(T)]
pub enum RegistryStep<T> {
    Subscribe(Subscriber<T>),
    Unsubscribe(u64),
    Dispatch(Seq<DeliveryOutcome<T>>),
}

/// The registry contents after a sequence of bookkeeping steps.
pub open spec fn registry_after<T>(
    init: Seq<Subscriber<T>>,
    steps: Seq<RegistryStep<T>>,
) -> Seq<Subscriber<T>>
    decreases steps.len(),
{
    if steps.len() == 0 {
        init
    } else {
        let before = registry_after(init, steps.drop_last());
        match steps.last() {
            RegistryStep::Subscribe(subscriber) => before.push(subscriber),
            RegistryStep::Unsubscribe(id) => remove_id(before, id),
            RegistryStep::Dispatch(outcomes) => surviving(before, outcomes),
        }
    }
}

/// A trace is well formed when every dispatch step carries one outcome per
/// subscriber registered at that moment, as `dispatch` requires.
pub open spec fn trace_wf<T>(init: Seq<Subscriber<T>>, steps: Seq<RegistryStep<T>>) -> bool
    decreases steps.len(),
{
    if steps.len() == 0 {
        true
    } else {
        trace_wf(init, steps.drop_last()) && match steps.last() {
            RegistryStep::Dispatch(outcomes) => outcomes.len() == registry_after(
                init,
                steps.drop_last(),
            ).len(),
            _ => true,
        }
    }
}

/// How many subscriptions the trace makes.
pub open spec fn subscribe_count<T>(steps: Seq<RegistryStep<T>>) -> int
    decreases steps.len(),
{
    if steps.len() == 0 {
        0
    } else {
        subscribe_count(steps.drop_last()) + (if steps.last() is Subscribe {
            1int
        } else {
            0int
        })
    }
}

/// How many unsubscribe steps of the trace succeed: those naming an
/// identifier that is registered at that moment.
pub open spec fn successful_unsubscribe_count<T>(
    init: Seq<Subscriber<T>>,
    steps: Seq<RegistryStep<T>>,
) -> int
    decreases steps.len(),
{
    if steps.len() == 0 {
        0
    } else {
        successful_unsubscribe_count(init, steps.drop_last()) + match steps.last() {
            RegistryStep::Unsubscribe(id) => if has_subscriber(
                registry_after(init, steps.drop_last()),
                id,
            ) {
                1int
            } else {
                0int
            },
            _ => 0,
        }
    }
}

/// How many subscribers the trace's dispatch steps remove automatically:
/// those whose delivery failed while `remove_on_error` was set.
pub open spec fn automatic_removal_count<T>(
    init: Seq<Subscriber<T>>,
    steps: Seq<RegistryStep<T>>,
) -> int
    decreases steps.len(),
{
    if steps.len() == 0 {
        0
    } else {
        automatic_removal_count(init, steps.drop_last()) + match steps.last() {
            RegistryStep::Dispatch(outcomes) => removed_count(
                registry_after(init, steps.drop_last()),
                outcomes,
            ),
            _ => 0,
        }
    }
}

/// Removing an identifier shrinks the registry by one exactly when some
/// subscriber carries it, and not at all otherwise.
proof fn lemma_remove_id_len<T>(subs: Seq<Subscriber<T>>, id: u64)
    ensures
        remove_id(subs, id).len() == subs.len() - (if has_subscriber(subs, id) {
            1int
        } else {
            0int
        }),
    decreases subs.len(),
{
    if subs.len() == 0 {
        assert(!has_subscriber(subs, id));
    } else if subs[0].id == id {
        assert(has_subscriber(subs, id));
    } else {
        lemma_remove_id_len(subs.drop_first(), id);
        if has_subscriber(subs, id) {
            let i = choose|i: int| 0 <= i < subs.len() && subs[i].id == id;
            assert(subs.drop_first()[i - 1].id == id);
            assert(has_subscriber(subs.drop_first(), id));
        }
        if has_subscriber(subs.drop_first(), id) {
            let i = choose|i: int|
                0 <= i < subs.drop_first().len() && subs.drop_first()[i].id == id;
            assert(subs[i + 1].id == id);
            assert(has_subscriber(subs, id));
        }
    }
}

/// One dispatch pass keeps exactly the subscribers it does not remove.
proof fn lemma_surviving_len<T>(subs: Seq<Subscriber<T>>, outcomes: Seq<DeliveryOutcome<T>>)
    requires
        subs.len() == outcomes.len(),
    ensures
        surviving(subs, outcomes).len() == subs.len() - removed_count(subs, outcomes),
    decreases subs.len(),
{
    if subs.len() > 0 {
        lemma_surviving_len(subs.drop_first(), outcomes.drop_first());
    }
}

/// The subscriber count always balances: after any sequence of subscribe,
/// unsubscribe and dispatch steps, the registry holds its initial count
/// plus the subscriptions made, minus the unsubscribes that succeeded,
/// minus the automatic removals of failed subscribers that asked for
/// removal on error.
pub proof fn lemma_subscriber_count_balance<T>(
    init: Seq<Subscriber<T>>,
    steps: Seq<RegistryStep<T>>,
)
    requires
        trace_wf(init, steps),
    ensures
        registry_after(init, steps).len() == init.len() + subscribe_count(steps)
            - successful_unsubscribe_count(init, steps) - automatic_removal_count(init, steps),
    decreases steps.len(),
{
    if steps.len() > 0 {
        lemma_subscriber_count_balance(init, steps.drop_last());
        let before = registry_after(init, steps.drop_last());
        match steps.last() {
            RegistryStep::Subscribe(_) => {
            },
            RegistryStep::Unsubscribe(id) => {
                lemma_remove_id_len(before, id);
            },
            RegistryStep::Dispatch(outcomes) => {
                lemma_surviving_len(before, outcomes);
            },
        }
    }
}

} // verus!
