use vstd::prelude::*;

verus! {

use vstd::pervasive::cloned;
use vstd::std_specs::cmp::PartialEqSpec;
use crate::event::Event;
use crate::event::dispatch_errors;
use crate::event::outcomes_match;
use crate::event::surviving;
use crate::id::IdAllocator;
use crate::subscriber::DeliveryOutcome;
use crate::subscriber::DispatchError;
use crate::subscriber::Subscriber;

/// What a `set` call came to: either the new value equalled the stored one
/// and nothing happened, or the value changed and the change was
/// dispatched, with that dispatch's own result.
#[derive(Debug)]
pub enum SetResult<T> {
    Unchanged,
    Changed(Result<(), Vec<DispatchError<T>>>),
}

/// A stored value whose changes are broadcast: setting a value that differs
/// from the stored one (by `==`) replaces it and dispatches the new value
/// through the `on_change` event; setting an equal value does nothing.
#[derive(Debug)]
#[verifier::reject_recursive_types(T)]
pub struct Observable<T: PartialEq> {
    pub on_change: Event<T>,
    value: T,
}

impl<T: PartialEq> Observable<T> {
    /// The stored value.
    pub closed spec fn spec_value(&self) -> T {
        self.value
    }

    /// The change-notification event.
    pub closed spec fn spec_on_change(&self) -> Event<T> {
        self.on_change
    }

    pub open spec fn wf(&self) -> bool {
        self.spec_on_change().wf()
    }

    pub fn new(ids: &mut IdAllocator, value: T, event_name: String) -> (observable: Observable<T>)
        requires
            old(ids).spec_next() < u64::MAX,
        ensures
            observable.wf(),
            observable.spec_value() == value,
            observable.spec_on_change().spec_name() == event_name,
            observable.spec_on_change().spec_id() == old(ids).spec_next(),
            observable.spec_on_change()@ =~= Seq::<Subscriber<T>>::empty(),
            observable.spec_on_change().spec_subscriber_id_bound() == 0,
            final(ids).spec_next() == old(ids).spec_next() + 1,
    {
        Observable { on_change: Event::new(ids, event_name), value }
    }

    /// A reference to the stored value.
    pub fn value_ref(&self) -> (r: &T)
        ensures
            *r == self.spec_value(),
    {
        &self.value
    }

    /// Whether setting this value would replace the stored one: the
    /// decision a delivering shell needs before it can attempt the
    /// deliveries whose outcomes `set` settles.
    pub fn would_change(&self, value: &T) -> (r: bool)
        ensures
            T::obeys_eq_spec() ==> (r <==> !self.spec_value().eq_spec(value)),
    {
        !(self.value == *value)
    }

    /// Replaces the stored value if it differs from the old one, and
    /// settles the dispatch of the change from the given delivery outcomes
    /// exactly as `Event::dispatch` does.  When the values compare equal,
    /// nothing happens and the outcomes are not consulted.
    pub fn set(&mut self, value: T, outcomes: Vec<DeliveryOutcome<T>>) -> (r: SetResult<T>)
        requires
            old(self).wf(),
            outcomes_match(old(self).spec_on_change()@, outcomes@),
        ensures
            final(self).wf(),
            T::obeys_eq_spec() ==> ((r is Unchanged) <==> old(self).spec_value().eq_spec(&value)),
            r is Unchanged ==> *final(self) == *old(self),
            r is Changed ==> {
                &&& final(self).spec_value() == value
                &&& final(self).spec_on_change()@ == surviving(
                    old(self).spec_on_change()@,
                    outcomes@,
                )
                &&& final(self).spec_on_change().spec_name() == old(
                    self,
                ).spec_on_change().spec_name()
                &&& final(self).spec_on_change().spec_id() == old(self).spec_on_change().spec_id()
                &&& final(self).spec_on_change().spec_subscriber_id_bound() == old(
                    self,
                ).spec_on_change().spec_subscriber_id_bound()
            },
            r matches SetResult::Changed(result) ==> {
                &&& (result is Ok <==> dispatch_errors(
                    old(self).spec_on_change()@,
                    outcomes@,
                ).len() == 0)
                &&& (result matches Err(errors) ==> errors@ == dispatch_errors(
                    old(self).spec_on_change()@,
                    outcomes@,
                ))
            },
    {
        if self.value == value {
            return SetResult::Unchanged;
        }
        self.value = value;
        let result = self.on_change.dispatch(outcomes);
        SetResult::Changed(result)
    }
}

impl<T: PartialEq + Clone> Observable<T> {
    /// A clone of the stored value.
    pub fn get(&self) -> (r: T)
        ensures
            cloned(self.spec_value(), r),
    {
        self.value.clone()
    }
}

impl<T: PartialEq> PartialEq for Observable<T> {
    /// Two observables compare by their stored values, as their values do.
    fn eq(&self, other: &Self) -> (r: bool) {
        self.value == other.value
    }
}

impl<T: PartialEq> vstd::std_specs::cmp::PartialEqSpecImpl for Observable<T> {
    open spec fn obeys_eq_spec() -> bool {
        T::obeys_eq_spec()
    }

    open spec fn eq_spec(&self, other: &Self) -> bool {
        self.spec_value().eq_spec(&other.spec_value())
    }
}

impl<T: PartialEq> PartialEq<T> for Observable<T> {
    /// An observable compares against a bare value by its stored value.
    fn eq(&self, other: &T) -> (r: bool) {
        self.value == *other
    }
}

impl<T: PartialEq> vstd::std_specs::cmp::PartialEqSpecImpl<T> for Observable<T> {
    open spec fn obeys_eq_spec() -> bool {
        T::obeys_eq_spec()
    }

    open spec fn eq_spec(&self, other: &T) -> bool {
        self.spec_value().eq_spec(other)
    }
}

} // verus!
