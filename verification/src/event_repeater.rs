use vstd::prelude::*;

verus! {

use lum_libs::tokio::sync::mpsc::Receiver;
use vstd::string::StringExecFns;
use crate::channel::MAX_CHANNEL_CAPACITY;
use crate::channel::RecvPoll;
use crate::channel::poll_receiver;
use crate::event::Event;
use crate::decimal::append_decimal;
use crate::decimal::dec_rep;
use crate::event::remove_id;
use crate::id::IdAllocator;

/// Bookkeeping for one source this repeater bridges: the source event's
/// identifier, the identifier of the channel subscriber registered on that
/// source, and the receive end that the forwarding loop drains.
#[derive(Debug)]
#[verifier::reject_recursive_types(T)]
struct Attachment<T> {
    source_id: u64,
    subscriber_id: u64,
    receiver: Receiver<T>,
}

#[derive(Debug)]
pub enum AttachError {
    /// The repeater's self-reference was not recorded yet, so it cannot
    /// hand its forwarding tasks a live handle to itself.  Unreachable
    /// through the public constructor, which completes both phases.
    NotInitialized { event_repeater_name: String, event_name: String },
    /// The source event is already attached.
    AlreadyAttached { event_repeater_name: String, event_name: String },
}

#[derive(Debug)]
pub enum DetachError {
    /// The source event is not attached.
    NotAttached { event_repeater_name: String, event_name: String },
}

#[derive(Debug)]
#[verifier::reject_recursive_types(T)]
pub enum CloseError<T> {
    /// Sources are still attached; the untouched repeater comes back so the
    /// caller can detach them and retry.
    AttachedEvents(EventRepeater<T>),
}

/// What one drain pass over the attached channels found: the values to
/// republish through the repeater's own event, in receipt order per source;
/// the sources whose channels have closed and should be detached; and
/// whether the pass found nothing, so the forwarding loop may rest.
#[derive(Debug)]
pub struct DrainReport<T> {
    pub data: Vec<T>,
    pub closed: Vec<u64>,
    pub idle: bool,
}

/// The forwarding-loop management decision.
#[derive(Debug, PartialEq)]
pub enum ReceiveLoopAction {
    Start,
    Stop,
    Keep,
}

/// With no attachments left a running forwarding loop is stopped; with
/// attachments present a missing loop is started; otherwise nothing is
/// done.  The repeater's live forwarding work thereby tracks its
/// attachment count.
pub fn receive_loop_action(attachment_count: usize, loop_running: bool) -> (action:
    ReceiveLoopAction)
    ensures
        action is Stop <==> (attachment_count == 0 && loop_running),
        action is Start <==> (attachment_count > 0 && !loop_running),
        action is Keep <==> (loop_running <==> attachment_count > 0),
{
    if attachment_count == 0 {
        if loop_running {
            ReceiveLoopAction::Stop
        } else {
            ReceiveLoopAction::Keep
        }
    } else {
        if loop_running {
            ReceiveLoopAction::Keep
        } else {
            ReceiveLoopAction::Start
        }
    }
}

/// The source and subscriber identifiers of each attachment, in attachment
/// order.
spec fn pairs_of<T>(attachments: Seq<Attachment<T>>) -> Seq<(u64, u64)> {
    Seq::new(attachments.len(), |i: int| (attachments[i].source_id, attachments[i].subscriber_id))
}

/// No source is attached twice.
pub open spec fn sources_distinct(pairs: Seq<(u64, u64)>) -> bool {
    forall|i: int, j: int| 0 <= i < j < pairs.len() ==> pairs[i].0 != pairs[j].0
}

/// The position of the attachment for this source.
pub open spec fn source_index(pairs: Seq<(u64, u64)>, source_id: u64) -> int {
    choose|i: int| 0 <= i < pairs.len() && pairs[i].0 == source_id
}

/// The display form of a repeater: its name and its attachment count.
pub open spec fn repeater_display(name: Seq<char>, count: nat) -> Seq<char> {
    ("EventRepeater ")@ + name + (" (")@ + dec_rep(count) + (if count == 1 {
        (" subscription)")@
    } else {
        (" subscriptions)")@
    })
}

/// Bridges several source events into one: subscribes a channel on every
/// attached source and republishes everything received through its own
/// event, so downstream code subscribes to the fan-in exactly as to any
/// ordinary event.
///
/// Draining the channels and republishing is split the same way as event
/// dispatch: `drain_attachments` performs the non-blocking part here, and
/// the caller that owns the scheduling republishes the drained values and
/// detaches the sources whose channels closed.
#[derive(Debug)]
#[verifier::reject_recursive_types(T)]
pub struct EventRepeater<T> {
    pub event: Event<T>,
    initialized: bool,
    attachments: Vec<Attachment<T>>,
}

impl<T> EventRepeater<T> {
    /// The repeater's own output event.
    pub closed spec fn spec_event(&self) -> Event<T> {
        self.event
    }

    /// Whether the self-reference was recorded (the second construction
    /// phase).
    pub closed spec fn spec_initialized(&self) -> bool {
        self.initialized
    }

    /// The (source identifier, subscriber identifier) pairs of the current
    /// attachments, in attachment order.
    pub closed spec fn attachments_view(&self) -> Seq<(u64, u64)> {
        pairs_of(self.attachments@)
    }

    /// Whether this source is attached.
    pub open spec fn is_attached(&self, source_id: u64) -> bool {
        exists|i: int|
            0 <= i < self.attachments_view().len() && self.attachments_view()[i].0 == source_id
    }

    pub open spec fn wf(&self) -> bool {
        self.spec_event().wf() && sources_distinct(self.attachments_view())
    }

    /// The first construction phase: the repeater exists but has not
    /// recorded its self-reference yet, so `attach` refuses to spawn
    /// forwarding work for it.
    pub fn new_uninitialized(ids: &mut IdAllocator, name: String) -> (repeater: EventRepeater<T>)
        requires
            old(ids).spec_next() < u64::MAX,
        ensures
            repeater.wf(),
            !repeater.spec_initialized(),
            repeater.attachments_view() =~= Seq::<(u64, u64)>::empty(),
            repeater.spec_event().spec_name() == name,
            repeater.spec_event().spec_id() == old(ids).spec_next(),
            repeater.spec_event()@ =~= Seq::<crate::subscriber::Subscriber<T>>::empty(),
            repeater.spec_event().spec_subscriber_id_bound() == 0,
            final(ids).spec_next() == old(ids).spec_next() + 1,
    {
        let event = Event::new(ids, name);
        EventRepeater { event, initialized: false, attachments: Vec::new() }
    }

    /// The second construction phase: records the repeater's self-reference,
    /// after which forwarding work may be spawned for it.
    pub fn initialize(&mut self)
        ensures
            final(self).spec_initialized(),
            final(self).spec_event() == old(self).spec_event(),
            final(self).attachments_view() == old(self).attachments_view(),
            old(self).wf() ==> final(self).wf(),
    {
        self.initialized = true;
    }

    /// Builds a repeater with the given name.  Both construction phases
    /// complete before the repeater is handed out, so the uninitialized
    /// state is never observable through this constructor.
    pub fn new(ids: &mut IdAllocator, name: String) -> (repeater: EventRepeater<T>)
        requires
            old(ids).spec_next() < u64::MAX,
        ensures
            repeater.wf(),
            repeater.spec_initialized(),
            repeater.attachments_view() =~= Seq::<(u64, u64)>::empty(),
            repeater.spec_event().spec_name() == name,
            repeater.spec_event().spec_id() == old(ids).spec_next(),
            repeater.spec_event()@ =~= Seq::<crate::subscriber::Subscriber<T>>::empty(),
            repeater.spec_event().spec_subscriber_id_bound() == 0,
            final(ids).spec_next() == old(ids).spec_next() + 1,
    {
        let mut repeater = Self::new_uninitialized(ids, name);
        repeater.initialize();
        repeater
    }

    pub fn name(&self) -> (name: &str)
        ensures
            name@ == self.spec_event().spec_name()@,
    {
        self.event.name().as_str()
    }

    pub fn attachment_count(&self) -> (count: usize)
        ensures
            count == self.attachments_view().len(),
    {
        self.attachments.len()
    }

    /// The display form, `EventRepeater {name} ({count} subscription[s])`,
    /// built by hand because the verifier does not support std's formatter.
    pub fn display_string(&self) -> (s: String)
        ensures
            s@ == repeater_display(self.spec_event().spec_name()@, self.attachments_view().len()),
    {
        let mut s = String::from_str("EventRepeater ");
        s.append(self.event.name().as_str());
        s.append(" (");
        let count = self.attachments.len();
        append_decimal(&mut s, count as u64);
        if count == 1 {
            s.append(" subscription)");
        } else {
            s.append(" subscriptions)");
        }
        proof {
            assert(s@ =~= repeater_display(
                self.spec_event().spec_name()@,
                self.attachments_view().len(),
            ));
        }
        s
    }

    /// Whether this source is attached, by its identifier.
    fn contains_source(&self, source_id: u64) -> (r: bool)
        ensures
            r == self.is_attached(source_id),
    {
        let n = self.attachments.len();
        let mut i: usize = 0;
        while i < n
            invariant
                n == self.attachments.len(),
                0 <= i <= n,
                forall|j: int| 0 <= j < i ==> self.attachments@[j].source_id != source_id,
            decreases n - i,
        {
            if self.attachments[i].source_id == source_id {
                assert(self.attachments_view()[i as int].0 == source_id);
                return true;
            }
            i = i + 1;
        }
        assert forall|j: int|
            0 <= j < self.attachments_view().len() implies self.attachments_view()[j].0
            != source_id by {
            assert(self.attachments@[j].source_id != source_id);
        }
        false
    }

    /// Attaches a source event: subscribes a channel on it whose failures
    /// remove the subscription (a broken upstream subscription must not
    /// linger), and records the attachment.  Refused while uninitialized
    /// and for a source already attached.
    pub fn attach(
        &mut self,
        ids: &mut IdAllocator,
        source: &mut Event<T>,
        capacity: usize,
    ) -> (r: Result<(), AttachError>)
        requires
            old(self).wf(),
            old(source).wf(),
            1 <= capacity <= MAX_CHANNEL_CAPACITY,
            old(ids).spec_next() < u64::MAX,
            old(source).spec_subscriber_id_bound() <= old(ids).spec_next(),
        ensures
            final(self).wf(),
            final(source).wf(),
            final(self).spec_initialized() == old(self).spec_initialized(),
            final(self).spec_event() == old(self).spec_event(),
            !old(self).spec_initialized() ==> {
                &&& r matches Err(AttachError::NotInitialized {
                    event_repeater_name,
                    event_name,
                }) && event_repeater_name == old(self).spec_event().spec_name()
                    && event_name == old(source).spec_name()
                &&& *final(self) == *old(self)
                &&& *final(source) == *old(source)
                &&& *final(ids) == *old(ids)
            },
            old(self).spec_initialized() && old(self).is_attached(old(source).spec_id()) ==> {
                &&& r matches Err(AttachError::AlreadyAttached {
                    event_repeater_name,
                    event_name,
                }) && event_repeater_name == old(self).spec_event().spec_name()
                    && event_name == old(source).spec_name()
                &&& *final(self) == *old(self)
                &&& *final(source) == *old(source)
                &&& *final(ids) == *old(ids)
            },
            old(self).spec_initialized() && !old(self).is_attached(old(source).spec_id()) ==> {
                &&& r is Ok
                &&& final(ids).spec_next() == old(ids).spec_next() + 1
                &&& final(self).attachments_view() == old(self).attachments_view().push(
                    (old(source).spec_id(), old(ids).spec_next()),
                )
                &&& final(source)@.len() == old(source)@.len() + 1
                &&& final(source)@.drop_last() == old(source)@
                &&& final(source)@.last().id == old(ids).spec_next()
                &&& final(source)@.last().name == old(self).spec_event().spec_name()
                &&& final(source)@.last().log_on_error == true
                &&& final(source)@.last().remove_on_error == true
                &&& final(source)@.last().callback is Channel
                &&& final(source).spec_subscriber_id_bound() == old(ids).spec_next() + 1
                &&& final(source).spec_name() == old(source).spec_name()
                &&& final(source).spec_id() == old(source).spec_id()
            },
    {
        if !self.initialized {
            return Err(
                AttachError::NotInitialized {
                    event_repeater_name: self.event.name().clone(),
                    event_name: source.name().clone(),
                },
            );
        }
        if self.contains_source(source.id()) {
            return Err(
                AttachError::AlreadyAttached {
                    event_repeater_name: self.event.name().clone(),
                    event_name: source.name().clone(),
                },
            );
        }
        let (subscriber_id, receiver) = source.subscribe_channel(
            ids,
            self.event.name().clone(),
            capacity,
            true,
            true,
        );
        let ghost pre_pairs = self.attachments_view();
        self.attachments.push(Attachment { source_id: source.id(), subscriber_id, receiver });
        proof {
            assert(self.attachments_view() =~= pre_pairs.push(
                (old(source).spec_id(), old(ids).spec_next()),
            ));
        }
        Ok(())
    }

    /// Detaches a source event: removes the attachment and unsubscribes the
    /// repeater's channel from the source, together.  Dropping the
    /// attachment closes the receive end, so forwarding from that source
    /// ends.
    pub fn detach(&mut self, source: &mut Event<T>) -> (r: Result<(), DetachError>)
        requires
            old(self).wf(),
            old(source).wf(),
        ensures
            final(self).wf(),
            final(source).wf(),
            final(self).spec_initialized() == old(self).spec_initialized(),
            final(self).spec_event() == old(self).spec_event(),
            !old(self).is_attached(old(source).spec_id()) ==> {
                &&& r matches Err(DetachError::NotAttached { event_repeater_name, event_name })
                    && event_repeater_name == old(self).spec_event().spec_name() && event_name
                    == old(source).spec_name()
                &&& *final(self) == *old(self)
                &&& *final(source) == *old(source)
            },
            old(self).is_attached(old(source).spec_id()) ==> {
                let i = source_index(old(self).attachments_view(), old(source).spec_id());
                &&& r is Ok
                &&& final(self).attachments_view() == old(self).attachments_view().remove(i)
                &&& final(source)@ == remove_id(
                    old(source)@,
                    old(self).attachments_view()[i].1,
                )
                &&& final(source).spec_name() == old(source).spec_name()
                &&& final(source).spec_id() == old(source).spec_id()
                &&& final(source).spec_subscriber_id_bound() == old(source).spec_subscriber_id_bound()
            },
    {
        let n = self.attachments.len();
        let mut i: usize = 0;
        while i < n
            invariant
                old(self).wf(),
                old(source).wf(),
                *self == *old(self),
                *source == *old(source),
                n == self.attachments.len(),
                0 <= i <= n,
                forall|j: int| 0 <= j < i ==> self.attachments@[j].source_id != old(source).spec_id(),
            decreases n - i,
        {
            if self.attachments[i].source_id == source.id() {
                proof {
                    assert(old(self).attachments_view()[i as int].0 == old(source).spec_id());
                    let w = source_index(old(self).attachments_view(), old(source).spec_id());
                    assert(old(self).attachments_view()[w].0 == old(source).spec_id());
                    if w != i as int {
                        assert(false);
                    }
                }
                let attachment = self.attachments.remove(i);
                source.unsubscribe(attachment.subscriber_id);
                proof {
                    assert(self.attachments_view() =~= old(self).attachments_view().remove(
                        i as int,
                    ));
                    let v = self.attachments_view();
                    let u = old(self).attachments_view();
                    assert forall|j1: int, j2: int|
                        0 <= j1 < j2 < v.len() implies v[j1].0 != v[j2].0 by {
                        assert(v[j1] == (if j1 < i as int {
                            u[j1]
                        } else {
                            u[j1 + 1]
                        }));
                        assert(v[j2] == (if j2 < i as int {
                            u[j2]
                        } else {
                            u[j2 + 1]
                        }));
                    }
                }
                return Ok(());
            }
            i = i + 1;
        }
        assert forall|j: int|
            0 <= j < self.attachments_view().len() implies self.attachments_view()[j].0
            != old(source).spec_id() by {
            assert(self.attachments@[j].source_id != old(source).spec_id());
        }
        Err(
            DetachError::NotAttached {
                event_repeater_name: self.event.name().clone(),
                event_name: source.name().clone(),
            },
        )
    }

    /// Detaches a source by its identifier alone and returns the identifier
    /// of the channel subscriber that was registered on it, so a caller
    /// that still holds the source can unsubscribe it there.  This is the
    /// cleanup path for sources whose channels closed.
    pub fn detach_by_id(&mut self, source_id: u64) -> (r: Result<u64, DetachError>)
        requires
            old(self).wf(),
        ensures
            final(self).wf(),
            final(self).spec_initialized() == old(self).spec_initialized(),
            final(self).spec_event() == old(self).spec_event(),
            !old(self).is_attached(source_id) ==> {
                &&& r matches Err(DetachError::NotAttached { event_repeater_name, event_name })
                    && event_repeater_name == old(self).spec_event().spec_name()
                    && event_name@ == dec_rep(source_id as nat)
                &&& *final(self) == *old(self)
            },
            old(self).is_attached(source_id) ==> {
                let i = source_index(old(self).attachments_view(), source_id);
                &&& r == Ok::<u64, DetachError>(old(self).attachments_view()[i].1)
                &&& final(self).attachments_view() == old(self).attachments_view().remove(i)
            },
    {
        let n = self.attachments.len();
        let mut i: usize = 0;
        while i < n
            invariant
                old(self).wf(),
                *self == *old(self),
                n == self.attachments.len(),
                0 <= i <= n,
                forall|j: int| 0 <= j < i ==> self.attachments@[j].source_id != source_id,
            decreases n - i,
        {
            if self.attachments[i].source_id == source_id {
                proof {
                    assert(old(self).attachments_view()[i as int].0 == source_id);
                    let w = source_index(old(self).attachments_view(), source_id);
                    assert(old(self).attachments_view()[w].0 == source_id);
                    if w != i as int {
                        assert(false);
                    }
                }
                let attachment = self.attachments.remove(i);
                proof {
                    assert(self.attachments_view() =~= old(self).attachments_view().remove(
                        i as int,
                    ));
                    let v = self.attachments_view();
                    let u = old(self).attachments_view();
                    assert forall|j1: int, j2: int|
                        0 <= j1 < j2 < v.len() implies v[j1].0 != v[j2].0 by {
                        assert(v[j1] == (if j1 < i as int {
                            u[j1]
                        } else {
                            u[j1 + 1]
                        }));
                        assert(v[j2] == (if j2 < i as int {
                            u[j2]
                        } else {
                            u[j2 + 1]
                        }));
                    }
                }
                return Ok(attachment.subscriber_id);
            }
            i = i + 1;
        }
        assert forall|j: int|
            0 <= j < self.attachments_view().len() implies self.attachments_view()[j].0
            != source_id by {
            assert(self.attachments@[j].source_id != source_id);
        }
        let mut rendered_id = String::new();
        append_decimal(&mut rendered_id, source_id);
        Err(
            DetachError::NotAttached {
                event_repeater_name: self.event.name().clone(),
                event_name: rendered_id,
            },
        )
    }

    /// Consumes the repeater.  Refused while sources are still attached:
    /// the untouched repeater comes back inside the error, so the caller
    /// can detach them and retry.
    pub fn close(self) -> (r: Result<(), CloseError<T>>)
        ensures
            (r is Ok) <==> self.attachments_view().len() == 0,
            r matches Err(CloseError::AttachedEvents(repeater)) ==> repeater == self,
    {
        if self.attachments.len() > 0 {
            Err(CloseError::AttachedEvents(self))
        } else {
            Ok(())
        }
    }

    /// One non-blocking drain pass over every attached channel, taking at
    /// most `budget_per_source` values from each: collects the received
    /// values for republishing, and reports the sources whose channels have
    /// closed so the caller can detach them.  The attachments themselves
    /// are left as they were.
    pub fn drain_attachments(&mut self, budget_per_source: usize) -> (report: DrainReport<T>)
        requires
            old(self).wf(),
        ensures
            final(self).wf(),
            final(self).spec_initialized() == old(self).spec_initialized(),
            final(self).spec_event() == old(self).spec_event(),
            final(self).attachments_view() == old(self).attachments_view(),
            report.idle <==> report.data@.len() == 0,
            old(self).attachments_view().len() == 0 ==> report.data@.len() == 0,
            report.data@.len() <= budget_per_source * old(self).attachments_view().len(),
            forall|k: int|
                0 <= k < report.closed@.len() ==> old(self).is_attached(
                    #[trigger] report.closed@[k],
                ),
            forall|k1: int, k2: int|
                0 <= k1 < k2 < report.closed@.len() ==> report.closed@[k1] != report.closed@[k2],
    {
        let ghost pairs0 = old(self).attachments_view();
        let mut data: Vec<T> = Vec::new();
        let mut closed: Vec<u64> = Vec::new();
        let n = self.attachments.len();
        let mut i: usize = 0;
        while i < n
            invariant
                old(self).wf(),
                pairs0 == old(self).attachments_view(),
                self.event == old(self).event,
                self.initialized == old(self).initialized,
                n == pairs0.len(),
                n == self.attachments.len(),
                0 <= i <= n,
                pairs_of(self.attachments@) =~= pairs0.subrange(i as int, n as int)
                    + pairs0.subrange(0, i as int),
                data@.len() <= budget_per_source * (i as int),
                forall|k: int|
                    0 <= k < closed@.len() ==> exists|j: int|
                        0 <= j < i && pairs0[j].0 == #[trigger] closed@[k],
                forall|k1: int, k2: int|
                    0 <= k1 < k2 < closed@.len() ==> closed@[k1] != closed@[k2],
            decreases n - i,
        {
            let ghost pre = pairs_of(self.attachments@);
            let mut attachment = self.attachments.remove(0);
            let ghost mid = pairs_of(self.attachments@);
            proof {
                assert(mid =~= pre.drop_first());
            }
            let mut is_closed = false;
            let mut budget: usize = budget_per_source;
            let ghost data_floor = data@.len();
            while budget > 0
                invariant
                    budget <= budget_per_source,
                    data@.len() + budget <= data_floor + budget_per_source,
                    attachment.source_id == pre[0].0,
                    attachment.subscriber_id == pre[0].1,
                decreases budget,
            {
                match poll_receiver(&mut attachment.receiver) {
                    RecvPoll::Message(value) => {
                        data.push(value);
                        budget = budget - 1;
                    },
                    RecvPoll::Empty => {
                        break ;
                    },
                    RecvPoll::Closed => {
                        is_closed = true;
                        break ;
                    },
                }
            }
            if is_closed {
                proof {
                    assert(pre[0] == pairs0[i as int]);
                    assert forall|k: int|
                        0 <= k < closed@.len() implies closed@[k] != attachment.source_id by {
                        let j = choose|j: int|
                            0 <= j < i && pairs0[j].0 == closed@[k];
                        assert(pairs0[j].0 != pairs0[i as int].0);
                    }
                }
                closed.push(attachment.source_id);
            }
            self.attachments.push(attachment);
            proof {
                assert(pairs_of(self.attachments@) =~= mid.push(pairs0[i as int]));
                assert(mid.push(pairs0[i as int]) =~= pairs0.subrange(i as int + 1, n as int)
                    + pairs0.subrange(0, i as int + 1));
                assert(budget_per_source * (i as int) + budget_per_source == budget_per_source * (
                i as int + 1)) by (nonlinear_arith);
            }
            i = i + 1;
        }
        proof {
            assert(pairs_of(self.attachments@) =~= pairs0);
        }
        let idle = data.len() == 0;
        DrainReport { data, closed, idle }
    }
}

impl<T> PartialEq for EventRepeater<T> {
    /// Identity follows the repeater's own event, which is identified by
    /// its identifier alone.
    fn eq(&self, other: &Self) -> (r: bool) {
        self.event.id() == other.event.id()
    }
}

impl<T> vstd::std_specs::cmp::PartialEqSpecImpl for EventRepeater<T> {
    open spec fn obeys_eq_spec() -> bool {
        true
    }

    open spec fn eq_spec(&self, other: &Self) -> bool {
        self.spec_event().spec_id() == other.spec_event().spec_id()
    }
}

impl<T> Eq for EventRepeater<T> {

}

} // verus!
