use vstd::prelude::*;

verus! {

use lum_libs::tokio::sync::mpsc::Receiver;
use lum_libs::tokio::sync::mpsc::Sender;
use vstd::string::StringExecFns;
use crate::channel::MAX_CHANNEL_CAPACITY;
use crate::channel::clone_sender;
use crate::channel::open_channel;
use crate::decimal::append_decimal;
use crate::decimal::dec_rep;
use crate::id::IdAllocator;
use crate::subscriber::Callback;
use crate::subscriber::DeliveryOutcome;
use crate::subscriber::DispatchError;
use crate::subscriber::Subscriber;
use crate::subscriber::error_of;
use crate::subscriber::outcome_failed;
use crate::subscriber::outcome_matches;

/// The subscriber identifiers grow strictly from front to back, so no
/// identifier names two registrations.
pub open spec fn ids_strictly_increasing<T>(subs: Seq<Subscriber<T>>) -> bool {
    forall|i: int, j: int| 0 <= i < j < subs.len() ==> subs[i].id < subs[j].id
}

/// Every subscriber identifier lies below the bound.
pub open spec fn ids_bounded<T>(subs: Seq<Subscriber<T>>, bound: u64) -> bool {
    forall|i: int| 0 <= i < subs.len() ==> subs[i].id < bound
}

/// Whether some subscriber carries this identifier.
pub open spec fn has_subscriber<T>(subs: Seq<Subscriber<T>>, id: u64) -> bool {
    exists|i: int| 0 <= i < subs.len() && subs[i].id == id
}

/// The registry without the first subscriber that carries this identifier;
/// in a well-formed registry there is at most one.
pub open spec fn remove_id<T>(subs: Seq<Subscriber<T>>, id: u64) -> Seq<Subscriber<T>>
    decreases subs.len(),
{
    if subs.len() == 0 {
        Seq::empty()
    } else if subs[0].id == id {
        subs.drop_first()
    } else {
        seq![subs[0]] + remove_id(subs.drop_first(), id)
    }
}

/// One delivery outcome per subscriber, each of the shape that the
/// subscriber's callback can produce.
pub open spec fn outcomes_match<T>(
    subs: Seq<Subscriber<T>>,
    outcomes: Seq<DeliveryOutcome<T>>,
) -> bool {
    &&& outcomes.len() == subs.len()
    &&& forall|i: int|
        0 <= i < subs.len() ==> outcome_matches(subs[i].callback, #[trigger] outcomes[i])
}

/// The errors that one dispatch pass collects: one per failed delivery, in
/// registry order.
pub open spec fn dispatch_errors<T>(
    subs: Seq<Subscriber<T>>,
    outcomes: Seq<DeliveryOutcome<T>>,
) -> Seq<DispatchError<T>>
    decreases subs.len(),
{
    if subs.len() == 0 || outcomes.len() == 0 {
        Seq::empty()
    } else {
        let rest = dispatch_errors(subs.drop_first(), outcomes.drop_first());
        if outcome_failed(outcomes[0]) {
            seq![error_of(subs[0].callback, outcomes[0])] + rest
        } else {
            rest
        }
    }
}

/// The registry after one dispatch pass: a subscriber stays unless its
/// delivery failed and it asked to be removed on error.
pub open spec fn surviving<T>(
    subs: Seq<Subscriber<T>>,
    outcomes: Seq<DeliveryOutcome<T>>,
) -> Seq<Subscriber<T>>
    decreases subs.len(),
{
    if subs.len() == 0 || outcomes.len() == 0 {
        Seq::empty()
    } else {
        let rest = surviving(subs.drop_first(), outcomes.drop_first());
        if outcome_failed(outcomes[0]) && subs[0].remove_on_error {
            rest
        } else {
            seq![subs[0]] + rest
        }
    }
}

/// How many subscribers one dispatch pass removes.
pub open spec fn removed_count<T>(
    subs: Seq<Subscriber<T>>,
    outcomes: Seq<DeliveryOutcome<T>>,
) -> int
    decreases subs.len(),
{
    if subs.len() == 0 || outcomes.len() == 0 {
        0
    } else {
        let rest = removed_count(subs.drop_first(), outcomes.drop_first());
        if outcome_failed(outcomes[0]) && subs[0].remove_on_error {
            1 + rest
        } else {
            rest
        }
    }
}

/// The display form of an event: its name and its subscriber count.
pub open spec fn event_display(name: Seq<char>, count: nat) -> Seq<char> {
    ("Event ")@ + name + (" (")@ + dec_rep(count) + (if count == 1 {
        (" subscriber)")@
    } else {
        (" subscribers)")@
    })
}

/// A typed broadcast channel: a named registry of subscribers plus the
/// dispatch bookkeeping over it.
///
/// Delivery itself suspends or runs foreign code, so it happens outside this
/// registry: a caller asks for the delivery targets, attempts each delivery,
/// and hands the outcomes back to `dispatch`, which settles errors and
/// removals exactly as the outcomes dictate.
#[derive(Debug)]
#[verifier::reject_recursive_types(T)]
pub struct Event<T> {
    pub name: String,
    pub id: u64,
    subscribers: Vec<Subscriber<T>>,
    subscriber_id_bound: u64,
}

impl<T> View for Event<T> {
    type V = Seq<Subscriber<T>>;

    /// The registry contents, in registration order.
    closed spec fn view(&self) -> Seq<Subscriber<T>> {
        self.subscribers@
    }
}

impl<T> Event<T> {
    /// A strict upper bound on every registered subscriber identifier;
    /// never above the allocator's cursor when the registry is used with
    /// one allocator, so a freshly allocated identifier is never taken.
    pub closed spec fn spec_subscriber_id_bound(&self) -> u64 {
        self.subscriber_id_bound
    }

    /// The diagnostic name this event was created with.
    pub closed spec fn spec_name(&self) -> String {
        self.name
    }

    /// The identifier this event was created with.
    pub closed spec fn spec_id(&self) -> u64 {
        self.id
    }

    /// Registered identifiers are unique and below the allocation cursor.
    pub open spec fn wf(&self) -> bool {
        ids_strictly_increasing(self@) && ids_bounded(self@, self.spec_subscriber_id_bound())
    }

    pub fn new(ids: &mut IdAllocator, name: String) -> (event: Event<T>)
        requires
            old(ids).spec_next() < u64::MAX,
        ensures
            event.wf(),
            event.spec_name() == name,
            event.spec_id() == old(ids).spec_next(),
            event@ =~= Seq::<Subscriber<T>>::empty(),
            event.spec_subscriber_id_bound() == 0,
            final(ids).spec_next() == old(ids).spec_next() + 1,
    {
        let id = ids.allocate();
        Event { name, id, subscribers: Vec::new(), subscriber_id_bound: 0 }
    }

    /// The event's diagnostic name.
    pub fn name(&self) -> (name: &String)
        ensures
            name == self.spec_name(),
    {
        &self.name
    }

    /// The event's identifier.
    pub fn id(&self) -> (id: u64)
        ensures
            id == self.spec_id(),
    {
        self.id
    }

    /// The registry's subscriber-identifier bound, for callers that must
    /// check it against their allocator before subscribing.
    pub fn subscriber_id_bound(&self) -> (bound: u64)
        ensures
            bound == self.spec_subscriber_id_bound(),
    {
        self.subscriber_id_bound
    }

    pub fn subscriber_count(&self) -> (count: usize)
        ensures
            count == self@.len(),
    {
        self.subscribers.len()
    }

    /// The display form, `Event {name} ({count} subscriber[s])`, built by
    /// hand because the verifier does not support std's formatter.
    pub fn display_string(&self) -> (s: String)
        ensures
            s@ == event_display(self.spec_name()@, self@.len()),
    {
        let mut s = String::from_str("Event ");
        s.append(self.name.as_str());
        s.append(" (");
        let count = self.subscribers.len();
        append_decimal(&mut s, count as u64);
        if count == 1 {
            s.append(" subscriber)");
        } else {
            s.append(" subscribers)");
        }
        proof {
            assert(s@ =~= event_display(self.spec_name()@, self@.len()));
        }
        s
    }

    /// Registers a channel subscriber: opens a bounded channel, stores its
    /// send end behind a fresh identifier, and returns the identifier with
    /// the receive end.
    pub fn subscribe_channel(
        &mut self,
        ids: &mut IdAllocator,
        name: String,
        capacity: usize,
        log_on_error: bool,
        remove_on_error: bool,
    ) -> (r: (u64, Receiver<T>))
        requires
            old(self).wf(),
            1 <= capacity <= MAX_CHANNEL_CAPACITY,
            old(ids).spec_next() < u64::MAX,
            old(self).spec_subscriber_id_bound() <= old(ids).spec_next(),
        ensures
            final(self).wf(),
            r.0 == old(ids).spec_next(),
            final(ids).spec_next() == old(ids).spec_next() + 1,
            !has_subscriber(old(self)@, r.0),
            final(self).spec_subscriber_id_bound() == r.0 + 1,
            final(self)@.len() == old(self)@.len() + 1,
            final(self)@.drop_last() == old(self)@,
            final(self)@.last().id == r.0,
            final(self)@.last().name == name,
            final(self)@.last().log_on_error == log_on_error,
            final(self)@.last().remove_on_error == remove_on_error,
            final(self)@.last().callback is Channel,
            final(self).spec_name() == old(self).spec_name(),
            final(self).spec_id() == old(self).spec_id(),
    {
        let id = ids.allocate();
        self.subscriber_id_bound = id + 1;
        let (sender, receiver) = open_channel(capacity);
        let subscriber = Subscriber::new(
            id,
            name,
            log_on_error,
            remove_on_error,
            Callback::Channel(sender),
        );
        self.subscribers.push(subscriber);
        proof {
            assert(final(self)@.drop_last() =~= old(self)@);
        }
        (id, receiver)
    }

    /// Registers a synchronous closure subscriber.  The registry records the
    /// shape and policy only; the closure itself stays with the caller that
    /// performs deliveries, keyed by the returned identifier.
    pub fn subscribe_closure(
        &mut self,
        ids: &mut IdAllocator,
        name: String,
        log_on_error: bool,
        remove_on_error: bool,
    ) -> (id: u64)
        requires
            old(self).wf(),
            old(ids).spec_next() < u64::MAX,
            old(self).spec_subscriber_id_bound() <= old(ids).spec_next(),
        ensures
            final(self).wf(),
            id == old(ids).spec_next(),
            final(ids).spec_next() == old(ids).spec_next() + 1,
            !has_subscriber(old(self)@, id),
            final(self).spec_subscriber_id_bound() == id + 1,
            final(self)@.len() == old(self)@.len() + 1,
            final(self)@.drop_last() == old(self)@,
            final(self)@.last() == (Subscriber {
                id,
                name,
                log_on_error,
                remove_on_error,
                callback: Callback::<T>::Closure,
            }),
            final(self).spec_name() == old(self).spec_name(),
            final(self).spec_id() == old(self).spec_id(),
    {
        let id = ids.allocate();
        self.subscriber_id_bound = id + 1;
        let subscriber = Subscriber::new(id, name, log_on_error, remove_on_error, Callback::Closure);
        self.subscribers.push(subscriber);
        proof {
            assert(final(self)@.drop_last() =~= old(self)@);
        }
        id
    }

    /// Registers an asynchronous closure subscriber, as `subscribe_closure`
    /// does for synchronous ones.
    pub fn subscribe_async_closure(
        &mut self,
        ids: &mut IdAllocator,
        name: String,
        log_on_error: bool,
        remove_on_error: bool,
    ) -> (id: u64)
        requires
            old(self).wf(),
            old(ids).spec_next() < u64::MAX,
            old(self).spec_subscriber_id_bound() <= old(ids).spec_next(),
        ensures
            final(self).wf(),
            id == old(ids).spec_next(),
            final(ids).spec_next() == old(ids).spec_next() + 1,
            !has_subscriber(old(self)@, id),
            final(self).spec_subscriber_id_bound() == id + 1,
            final(self)@.len() == old(self)@.len() + 1,
            final(self)@.drop_last() == old(self)@,
            final(self)@.last() == (Subscriber {
                id,
                name,
                log_on_error,
                remove_on_error,
                callback: Callback::<T>::AsyncClosure,
            }),
            final(self).spec_name() == old(self).spec_name(),
            final(self).spec_id() == old(self).spec_id(),
    {
        let id = ids.allocate();
        self.subscriber_id_bound = id + 1;
        let subscriber = Subscriber::new(
            id,
            name,
            log_on_error,
            remove_on_error,
            Callback::AsyncClosure,
        );
        self.subscribers.push(subscriber);
        proof {
            assert(final(self)@.drop_last() =~= old(self)@);
        }
        id
    }

    /// Removes the subscriber with this identifier if it is registered;
    /// `false` only means it was already absent.
    pub fn unsubscribe(&mut self, id: u64) -> (removed: bool)
        requires
            old(self).wf(),
        ensures
            final(self).wf(),
            removed == has_subscriber(old(self)@, id),
            final(self)@ == remove_id(old(self)@, id),
            final(self)@.len() == old(self)@.len() - (if removed { 1int } else { 0int }),
            final(self).spec_name() == old(self).spec_name(),
            final(self).spec_id() == old(self).spec_id(),
            final(self).spec_subscriber_id_bound() == old(self).spec_subscriber_id_bound(),
    {
        let n = self.subscribers.len();
        let mut i: usize = 0;
        while i < n
            invariant
                old(self).wf(),
                n == self.subscribers.len(),
                0 <= i <= n,
                forall|j: int| 0 <= j < i ==> self.subscribers@[j].id != id,
                *self == *old(self),
            decreases n - i,
        {
            if self.subscribers[i].id == id {
                self.subscribers.remove(i);
                proof {
                    lemma_remove_id_at(old(self)@, id, i as int);
                    lemma_wf_remove(old(self)@, i as int, old(self).spec_subscriber_id_bound());
                }
                return true;
            }
            i = i + 1;
        }
        proof {
            lemma_remove_id_absent(old(self)@, id);
        }
        false
    }
}

/// When the subscriber at index `i` is the first with this identifier,
/// removing by identifier removes exactly that index.
proof fn lemma_remove_id_at<T>(subs: Seq<Subscriber<T>>, id: u64, i: int)
    requires
        0 <= i < subs.len(),
        subs[i].id == id,
        forall|j: int| 0 <= j < i ==> subs[j].id != id,
    ensures
        remove_id(subs, id) =~= subs.remove(i),
        has_subscriber(subs, id),
    decreases i,
{
    if i == 0 {
        assert(remove_id(subs, id) =~= subs.remove(0));
    } else {
        lemma_remove_id_at(subs.drop_first(), id, i - 1);
        assert(remove_id(subs, id) =~= seq![subs[0]] + subs.drop_first().remove(i - 1));
        assert(seq![subs[0]] + subs.drop_first().remove(i - 1) =~= subs.remove(i));
    }
}

/// Removing an identifier that no subscriber carries changes nothing.
proof fn lemma_remove_id_absent<T>(subs: Seq<Subscriber<T>>, id: u64)
    requires
        forall|j: int| 0 <= j < subs.len() ==> subs[j].id != id,
    ensures
        remove_id(subs, id) =~= subs,
        !has_subscriber(subs, id),
    decreases subs.len(),
{
    if subs.len() > 0 {
        lemma_remove_id_absent(subs.drop_first(), id);
        assert(remove_id(subs, id) =~= seq![subs[0]] + subs.drop_first());
        assert(seq![subs[0]] + subs.drop_first() =~= subs);
    }
}

/// Removing one subscriber keeps identifiers unique and bounded.
proof fn lemma_wf_remove<T>(subs: Seq<Subscriber<T>>, i: int, bound: u64)
    requires
        0 <= i < subs.len(),
        ids_strictly_increasing(subs),
        ids_bounded(subs, bound),
    ensures
        ids_strictly_increasing(subs.remove(i)),
        ids_bounded(subs.remove(i), bound),
{
    let r = subs.remove(i);
    assert forall|j1: int, j2: int| 0 <= j1 < j2 < r.len() implies r[j1].id < r[j2].id by {
        assert(r[j1] == (if j1 < i { subs[j1] } else { subs[j1 + 1] }));
        assert(r[j2] == (if j2 < i { subs[j2] } else { subs[j2 + 1] }));
    }
    assert forall|j: int| 0 <= j < r.len() implies r[j].id < bound by {
        assert(r[j] == (if j < i { subs[j] } else { subs[j + 1] }));
    }
}

/// How many deliveries in one pass failed.
pub open spec fn failed_count<T>(outcomes: Seq<DeliveryOutcome<T>>) -> int
    decreases outcomes.len(),
{
    if outcomes.len() == 0 {
        0
    } else {
        (if outcome_failed(outcomes[0]) {
            1int
        } else {
            0int
        }) + failed_count(outcomes.drop_first())
    }
}

/// What one fan-out needs to know about each subscriber, in registry order:
/// its identifier, name and policy, and for a channel subscriber a fresh
/// handle to the channel's send end.
#[derive(Debug)]
#[verifier::reject_recursive_types(T)]
pub struct DeliveryTarget<T> {
    pub id: u64,
    pub name: String,
    pub log_on_error: bool,
    pub remove_on_error: bool,
    pub sender: Option<Sender<T>>,
}

impl<T> Event<T> {
    /// The delivery plan of one fan-out: one target per subscriber, in
    /// registry order.  The caller attempts each delivery and hands the
    /// outcomes, in the same order, to `dispatch`.
    pub fn delivery_targets(&self) -> (targets: Vec<DeliveryTarget<T>>)
        ensures
            targets@.len() == self@.len(),
            forall|i: int|
                0 <= i < self@.len() ==> {
                    &&& (#[trigger] targets@[i]).id == self@[i].id
                    &&& targets@[i].name == self@[i].name
                    &&& targets@[i].log_on_error == self@[i].log_on_error
                    &&& targets@[i].remove_on_error == self@[i].remove_on_error
                    &&& (targets@[i].sender is Some <==> self@[i].callback is Channel)
                },
    {
        let mut targets: Vec<DeliveryTarget<T>> = Vec::new();
        let n = self.subscribers.len();
        let mut i: usize = 0;
        while i < n
            invariant
                n == self.subscribers.len(),
                0 <= i <= n,
                targets@.len() == i,
                forall|j: int|
                    0 <= j < i ==> {
                        &&& (#[trigger] targets@[j]).id == self.subscribers@[j].id
                        &&& targets@[j].name == self.subscribers@[j].name
                        &&& targets@[j].log_on_error == self.subscribers@[j].log_on_error
                        &&& targets@[j].remove_on_error == self.subscribers@[j].remove_on_error
                        &&& (targets@[j].sender is Some <==> self.subscribers@[j].callback
                            is Channel)
                    },
            decreases n - i,
        {
            let subscriber = &self.subscribers[i];
            let sender = match &subscriber.callback {
                Callback::Channel(sender) => Some(clone_sender(sender)),
                Callback::Closure => None,
                Callback::AsyncClosure => None,
            };
            targets.push(
                DeliveryTarget {
                    id: subscriber.id,
                    name: subscriber.name.clone(),
                    log_on_error: subscriber.log_on_error,
                    remove_on_error: subscriber.remove_on_error,
                    sender,
                },
            );
            i = i + 1;
        }
        targets
    }

    /// Settles one fan-out pass from its delivery outcomes, one per
    /// subscriber in registry order: collects the error of every failed
    /// delivery, removes exactly the failed subscribers that asked for
    /// removal on error, and returns `Ok` precisely when nothing failed.
    pub fn dispatch(&mut self, outcomes: Vec<DeliveryOutcome<T>>) -> (r: Result<
        (),
        Vec<DispatchError<T>>,
    >)
        requires
            old(self).wf(),
            outcomes_match(old(self)@, outcomes@),
        ensures
            final(self).wf(),
            final(self)@ == surviving(old(self)@, outcomes@),
            final(self).spec_name() == old(self).spec_name(),
            final(self).spec_id() == old(self).spec_id(),
            final(self).spec_subscriber_id_bound() == old(self).spec_subscriber_id_bound(),
            (r is Ok) <==> dispatch_errors(old(self)@, outcomes@).len() == 0,
            r matches Err(errors) ==> errors@ == dispatch_errors(old(self)@, outcomes@),
    {
        let ghost all_subs = self.subscribers@;
        let ghost all_outs = outcomes@;
        let mut outcomes = outcomes;
        let mut survivors: Vec<Subscriber<T>> = Vec::new();
        let mut errors: Vec<DispatchError<T>> = Vec::new();
        while self.subscribers.len() > 0
            invariant
                all_subs == old(self)@,
                self.subscribers@.len() == outcomes@.len(),
                outcomes_match(self.subscribers@, outcomes@),
                surviving(all_subs, all_outs) == survivors@ + surviving(
                    self.subscribers@,
                    outcomes@,
                ),
                dispatch_errors(all_subs, all_outs) == errors@ + dispatch_errors(
                    self.subscribers@,
                    outcomes@,
                ),
                ids_strictly_increasing(survivors@ + self.subscribers@),
                ids_bounded(survivors@ + self.subscribers@, old(self).spec_subscriber_id_bound()),
                self.name == old(self).name,
                self.id == old(self).id,
                self.subscriber_id_bound == old(self).spec_subscriber_id_bound(),
            decreases self.subscribers.len(),
        {
            let ghost pre_subs = self.subscribers@;
            let ghost pre_outs = outcomes@;
            let ghost pre_survivors = survivors@;
            let ghost pre_errors = errors@;
            let subscriber = self.subscribers.remove(0);
            let outcome = outcomes.remove(0);
            proof {
                assert(pre_subs.drop_first() =~= self.subscribers@);
                assert(pre_outs.drop_first() =~= outcomes@);
                assert(outcome_matches(pre_subs[0].callback, pre_outs[0]));
            }
            let result = subscriber.dispatch(outcome);
            match result {
                Ok(_) => {
                    survivors.push(subscriber);
                },
                Err(error) => {
                    errors.push(error);
                    if !subscriber.remove_on_error {
                        survivors.push(subscriber);
                    }
                },
            }
            proof {
                let rest_surviving = surviving(self.subscribers@, outcomes@);
                let rest_errors = dispatch_errors(self.subscribers@, outcomes@);
                if outcome_failed(pre_outs[0]) {
                    assert(errors@ =~= pre_errors.push(error_of(pre_subs[0].callback, pre_outs[0])));
                    assert(dispatch_errors(pre_subs, pre_outs) == seq![
                        error_of(pre_subs[0].callback, pre_outs[0]),
                    ] + rest_errors);
                    assert(pre_errors.push(error_of(pre_subs[0].callback, pre_outs[0]))
                        + rest_errors =~= pre_errors + dispatch_errors(pre_subs, pre_outs));
                } else {
                    assert(errors@ == pre_errors);
                }
                if outcome_failed(pre_outs[0]) && pre_subs[0].remove_on_error {
                    assert(survivors@ == pre_survivors);
                    assert(surviving(pre_subs, pre_outs) == rest_surviving);
                    let k = pre_survivors.len() as int;
                    assert((pre_survivors + pre_subs).remove(k) =~= pre_survivors
                        + self.subscribers@);
                    lemma_wf_remove(
                        pre_survivors + pre_subs,
                        k,
                        old(self).spec_subscriber_id_bound(),
                    );
                } else {
                    assert(survivors@ =~= pre_survivors.push(pre_subs[0]));
                    assert(surviving(pre_subs, pre_outs) == seq![pre_subs[0]] + rest_surviving);
                    assert(pre_survivors.push(pre_subs[0]) + rest_surviving =~= pre_survivors
                        + surviving(pre_subs, pre_outs));
                    assert(pre_survivors.push(pre_subs[0]) + self.subscribers@ =~= pre_survivors
                        + pre_subs);
                }
            }
        }
        proof {
            assert(surviving(self.subscribers@, outcomes@) =~= Seq::<Subscriber<T>>::empty());
            assert(dispatch_errors(self.subscribers@, outcomes@) =~= Seq::<
                DispatchError<T>,
            >::empty());
            assert(surviving(all_subs, all_outs) =~= survivors@);
            assert(dispatch_errors(all_subs, all_outs) =~= errors@);
            assert(survivors@ + self.subscribers@ =~= survivors@);
        }
        self.subscribers = survivors;
        if errors.len() > 0 {
            Err(errors)
        } else {
            Ok(())
        }
    }
}


impl<T> Event<T> {
    /// The position of the first subscriber carrying this identifier.
    fn find_subscriber(&self, id: u64) -> (r: Option<usize>)
        ensures
            r matches Some(i) ==> {
                &&& i < self@.len()
                &&& self@[i as int].id == id
                &&& forall|j: int| 0 <= j < i ==> self@[j].id != id
            },
            r is None ==> !has_subscriber(self@, id),
    {
        let n = self.subscribers.len();
        let mut i: usize = 0;
        while i < n
            invariant
                n == self.subscribers.len(),
                0 <= i <= n,
                forall|j: int| 0 <= j < i ==> self.subscribers@[j].id != id,
            decreases n - i,
        {
            if self.subscribers[i].id == id {
                return Some(i);
            }
            i = i + 1;
        }
        None
    }

    /// Settles one fan-out pass whose outcomes are keyed by subscriber
    /// identifier rather than by position, for a caller that performed the
    /// deliveries while the registry could change: an entry whose
    /// subscriber is no longer registered is ignored, and a subscriber
    /// without an entry is kept untouched.  Entries settle in order, each
    /// against the registry as the earlier ones left it.
    pub fn dispatch_keyed(&mut self, outcomes: Vec<(u64, DeliveryOutcome<T>)>) -> (r: Result<
        (),
        Vec<DispatchError<T>>,
    >)
        requires
            old(self).wf(),
            keyed_outcomes_match(old(self)@, outcomes@),
        ensures
            final(self).wf(),
            final(self)@ == keyed_surviving(old(self)@, outcomes@),
            final(self).spec_name() == old(self).spec_name(),
            final(self).spec_id() == old(self).spec_id(),
            final(self).spec_subscriber_id_bound() == old(self).spec_subscriber_id_bound(),
            (r is Ok) <==> keyed_errors(old(self)@, outcomes@).len() == 0,
            r matches Err(errors) ==> errors@ == keyed_errors(old(self)@, outcomes@),
    {
        let ghost subs0 = self.subscribers@;
        let ghost outs0 = outcomes@;
        let mut outcomes = outcomes;
        let mut errors: Vec<DispatchError<T>> = Vec::new();
        while outcomes.len() > 0
            invariant
                subs0 == old(self)@,
                self.wf(),
                keyed_outcomes_match(self@, outcomes@),
                keyed_surviving(subs0, outs0) == keyed_surviving(self@, outcomes@),
                keyed_errors(subs0, outs0) == errors@ + keyed_errors(self@, outcomes@),
                self.name == old(self).name,
                self.id == old(self).id,
                self.subscriber_id_bound == old(self).spec_subscriber_id_bound(),
            decreases outcomes.len(),
        {
            let ghost pre_subs = self.subscribers@;
            let ghost pre_outs = outcomes@;
            let ghost pre_errors = errors@;
            let (id, outcome) = outcomes.remove(0);
            let ghost entry = pre_outs[0];
            proof {
                assert(pre_outs.drop_first() =~= outcomes@);
            }
            match self.find_subscriber(id) {
                None => {
                    proof {
                        assert(keyed_step(pre_subs, entry) == pre_subs);
                        assert(keyed_errors(pre_subs, pre_outs) =~= keyed_errors(
                            self.subscribers@,
                            outcomes@,
                        ));
                    }
                },
                Some(i) => {
                    proof {
                        let w = choose|w: int|
                            0 <= w < pre_subs.len() && pre_subs[w].id == id;
                        assert(pre_subs[w].id == id);
                        if w != i as int {
                            assert(false);
                        }
                        assert(subscriber_for(pre_subs, id) == pre_subs[i as int]);
                        assert(has_subscriber(pre_subs, id));
                        assert(outcome_matches(pre_subs[i as int].callback, entry.1));
                    }
                    let result = self.subscribers[i].dispatch(outcome);
                    match result {
                        Ok(_) => {
                            proof {
                                assert(keyed_step(pre_subs, entry) == pre_subs);
                                assert(keyed_errors(pre_subs, pre_outs) =~= keyed_errors(
                                    self.subscribers@,
                                    outcomes@,
                                ));
                            }
                        },
                        Err(error) => {
                            errors.push(error);
                            let removing = self.subscribers[i].remove_on_error;
                            if removing {
                                self.subscribers.remove(i);
                                proof {
                                    lemma_remove_id_at(pre_subs, id, i as int);
                                    lemma_wf_remove(
                                        pre_subs,
                                        i as int,
                                        old(self).spec_subscriber_id_bound(),
                                    );
                                    assert(keyed_step(pre_subs, entry) =~= self.subscribers@);
                                }
                            } else {
                                proof {
                                    assert(keyed_step(pre_subs, entry) == pre_subs);
                                }
                            }
                            proof {
                                let e = error_of(pre_subs[i as int].callback, entry.1);
                                assert(errors@ =~= pre_errors.push(e));
                                assert(keyed_errors(pre_subs, pre_outs) == seq![e] + keyed_errors(
                                    keyed_step(pre_subs, entry),
                                    pre_outs.drop_first(),
                                ));
                                assert(pre_errors.push(e) + keyed_errors(
                                    self.subscribers@,
                                    outcomes@,
                                ) =~= pre_errors + keyed_errors(pre_subs, pre_outs));
                            }
                        },
                    }
                },
            }
        }
        proof {
            assert(keyed_surviving(self.subscribers@, outcomes@) == self.subscribers@);
            assert(keyed_errors(self.subscribers@, outcomes@) =~= Seq::<
                DispatchError<T>,
            >::empty());
            assert(keyed_errors(subs0, outs0) =~= errors@);
        }
        if errors.len() > 0 {
            Err(errors)
        } else {
            Ok(())
        }
    }
}

impl<T> PartialEq for Event<T> {
    /// Identity is by identifier alone, as for subscribers.
    fn eq(&self, other: &Self) -> (r: bool) {
        self.id == other.id
    }
}

impl<T> vstd::std_specs::cmp::PartialEqSpecImpl for Event<T> {
    open spec fn obeys_eq_spec() -> bool {
        true
    }

    open spec fn eq_spec(&self, other: &Self) -> bool {
        self.spec_id() == other.spec_id()
    }
}

impl<T> Eq for Event<T> {

}


/// The first registered subscriber carrying this identifier.
pub open spec fn subscriber_for<T>(subs: Seq<Subscriber<T>>, id: u64) -> Subscriber<T>
    recommends
        has_subscriber(subs, id),
{
    subs[choose|i: int| 0 <= i < subs.len() && subs[i].id == id]
}

/// One keyed settlement step: the registry after settling one (identifier,
/// outcome) entry.  An entry whose subscriber is absent changes nothing.
pub open spec fn keyed_step<T>(
    subs: Seq<Subscriber<T>>,
    entry: (u64, DeliveryOutcome<T>),
) -> Seq<Subscriber<T>> {
    if has_subscriber(subs, entry.0) && outcome_failed(entry.1) && subscriber_for(
        subs,
        entry.0,
    ).remove_on_error {
        remove_id(subs, entry.0)
    } else {
        subs
    }
}

/// The registry after settling keyed entries in order, each against the
/// registry as the earlier entries left it.
pub open spec fn keyed_surviving<T>(
    subs: Seq<Subscriber<T>>,
    entries: Seq<(u64, DeliveryOutcome<T>)>,
) -> Seq<Subscriber<T>>
    decreases entries.len(),
{
    if entries.len() == 0 {
        subs
    } else {
        keyed_surviving(keyed_step(subs, entries[0]), entries.drop_first())
    }
}

/// The errors a keyed settlement collects: one per failed entry whose
/// subscriber is still registered when the entry is settled, in entry
/// order.
pub open spec fn keyed_errors<T>(
    subs: Seq<Subscriber<T>>,
    entries: Seq<(u64, DeliveryOutcome<T>)>,
) -> Seq<DispatchError<T>>
    decreases entries.len(),
{
    if entries.len() == 0 {
        Seq::empty()
    } else {
        let head = if has_subscriber(subs, entries[0].0) && outcome_failed(entries[0].1) {
            seq![error_of(subscriber_for(subs, entries[0].0).callback, entries[0].1)]
        } else {
            Seq::<DispatchError<T>>::empty()
        };
        head + keyed_errors(keyed_step(subs, entries[0]), entries.drop_first())
    }
}

/// Every keyed entry whose subscriber is registered when the entry is
/// settled has the shape that its subscriber's callback can produce.
pub open spec fn keyed_outcomes_match<T>(
    subs: Seq<Subscriber<T>>,
    entries: Seq<(u64, DeliveryOutcome<T>)>,
) -> bool
    decreases entries.len(),
{
    if entries.len() == 0 {
        true
    } else {
        &&& (has_subscriber(subs, entries[0].0) ==> outcome_matches(
            subscriber_for(subs, entries[0].0).callback,
            entries[0].1,
        ))
        &&& keyed_outcomes_match(keyed_step(subs, entries[0]), entries.drop_first())
    }
}

/// One dispatch pass removes exactly the subscribers whose delivery failed
/// with `remove_on_error` set, and nothing else: the counts balance.
/// Together with the contracts of the subscribe functions (each adds one
/// subscriber) and of `unsubscribe` (removes one when present), the
/// subscriber count of any event equals its registrations minus its
/// explicit and automatic removals.
pub proof fn lemma_dispatch_subscriber_count<T>(
    subs: Seq<Subscriber<T>>,
    outcomes: Seq<DeliveryOutcome<T>>,
)
    requires
        subs.len() == outcomes.len(),
    ensures
        surviving(subs, outcomes).len() + removed_count(subs, outcomes) == subs.len(),
        0 <= removed_count(subs, outcomes) <= subs.len(),
    decreases subs.len(),
{
    if subs.len() > 0 {
        lemma_dispatch_subscriber_count(subs.drop_first(), outcomes.drop_first());
    }
}

/// Dispatching on an event with no subscribers has no observable effect:
/// no errors are collected and the registry stays empty, so `dispatch`
/// returns `Ok`.
pub proof fn lemma_dispatch_no_subscribers<T>(outcomes: Seq<DeliveryOutcome<T>>)
    ensures
        dispatch_errors(Seq::<Subscriber<T>>::empty(), outcomes) =~= Seq::<
            DispatchError<T>,
        >::empty(),
        surviving(Seq::<Subscriber<T>>::empty(), outcomes) =~= Seq::<Subscriber<T>>::empty(),
{
}

/// Failure isolation: one subscriber failing never disturbs another.  A
/// subscriber whose own delivery succeeded, or which did not ask for
/// removal on error, survives the dispatch pass.
pub proof fn lemma_dispatch_failure_isolation<T>(
    subs: Seq<Subscriber<T>>,
    outcomes: Seq<DeliveryOutcome<T>>,
    i: int,
)
    requires
        subs.len() == outcomes.len(),
        0 <= i < subs.len(),
        !(outcome_failed(outcomes[i]) && subs[i].remove_on_error),
    ensures
        surviving(subs, outcomes).contains(subs[i]),
    decreases i,
{
    if i == 0 {
        assert(surviving(subs, outcomes)[0] == subs[0]);
    } else {
        lemma_dispatch_failure_isolation(subs.drop_first(), outcomes.drop_first(), i - 1);
        let rest = surviving(subs.drop_first(), outcomes.drop_first());
        let j = choose|j: int| 0 <= j < rest.len() && rest[j] == subs.drop_first()[i - 1];
        if outcome_failed(outcomes[0]) && subs[0].remove_on_error {
            assert(surviving(subs, outcomes)[j] == subs[i]);
        } else {
            assert(surviving(subs, outcomes)[j + 1] == subs[i]);
        }
    }
}

/// Exactly one error is collected per failed delivery, so `dispatch`
/// returns `Ok` precisely when every delivery succeeded.
pub proof fn lemma_dispatch_error_count<T>(
    subs: Seq<Subscriber<T>>,
    outcomes: Seq<DeliveryOutcome<T>>,
)
    requires
        subs.len() == outcomes.len(),
    ensures
        dispatch_errors(subs, outcomes).len() == failed_count(outcomes),
    decreases subs.len(),
{
    if subs.len() > 0 {
        lemma_dispatch_error_count(subs.drop_first(), outcomes.drop_first());
    }
}

/// Removing a freshly registered subscriber restores the registry exactly:
/// an attach immediately followed by a detach leaves the source event's
/// subscribers as they were.
pub proof fn lemma_remove_pushed<T>(subs: Seq<Subscriber<T>>, s: Subscriber<T>)
    requires
        !has_subscriber(subs, s.id),
    ensures
        remove_id(subs.push(s), s.id) =~= subs,
    decreases subs.len(),
{
    let pushed = subs.push(s);
    if subs.len() == 0 {
        assert(pushed[0] == s);
        assert(remove_id(pushed, s.id) =~= pushed.drop_first());
    } else {
        assert(pushed[0] == subs[0]);
        assert(subs[0].id != s.id);
        assert(!has_subscriber(subs.drop_first(), s.id)) by {
            if has_subscriber(subs.drop_first(), s.id) {
                let w = choose|w: int|
                    0 <= w < subs.drop_first().len() && subs.drop_first()[w].id == s.id;
                assert(subs[w + 1].id == s.id);
            }
        }
        lemma_remove_pushed(subs.drop_first(), s);
        assert(pushed.drop_first() =~= subs.drop_first().push(s));
        assert(remove_id(pushed, s.id) == seq![subs[0]] + remove_id(pushed.drop_first(), s.id));
        assert(seq![subs[0]] + subs.drop_first() =~= subs);
    }
}


} // verus!
