use lum_event::AttachError;
use lum_event::CloseError;
use lum_event::DeliveryOutcome;
use lum_event::DetachError;
use lum_event::Event;
use lum_event::EventRepeater;
use lum_event::IdAllocator;
use lum_event::ReceiveLoopAction;
use lum_event::receive_loop_action;

static REPEATER_NAME: &str = "test_repeater";
static EVENT_NAME: &str = "test_event";
static RECEIVER_NAME: &str = "test_receiver";
static BUFFER_SIZE: usize = 10;
static DATA: u16 = 3120;

/// Dispatches one value on an event by driving the deliveries the way an
/// asynchronous shell would: send to every channel subscriber, then settle.
fn drive_dispatch(event: &mut Event<u16>, value: u16) {
    let targets = event.delivery_targets();
    let mut outcomes = Vec::new();
    for target in &targets {
        match &target.sender {
            Some(sender) => match sender.try_send(value) {
                Ok(()) => outcomes.push(DeliveryOutcome::Delivered),
                Err(error) => outcomes.push(DeliveryOutcome::ChannelClosed(error.into_inner())),
            },
            None => outcomes.push(DeliveryOutcome::Delivered),
        }
    }
    let _ = event.dispatch(outcomes);
}

#[test]
fn subscribe_and_unsubscribe_event() {
    let mut ids = IdAllocator::new();
    let mut repeater = EventRepeater::<u16>::new(&mut ids, REPEATER_NAME.to_string());
    let mut event1 = Event::<u16>::new(&mut ids, EVENT_NAME.to_string());

    repeater.attach(&mut ids, &mut event1, BUFFER_SIZE).unwrap();
    assert_eq!(repeater.attachment_count(), 1);
    assert_eq!(event1.subscriber_count(), 1);

    repeater.detach(&mut event1).unwrap();
    assert_eq!(repeater.attachment_count(), 0);
    assert_eq!(event1.subscriber_count(), 0);
}

#[test]
fn attach_twice_and_detach_unattached() {
    let mut ids = IdAllocator::new();
    let mut repeater = EventRepeater::<u16>::new(&mut ids, REPEATER_NAME.to_string());
    let mut source_a = Event::<u16>::new(&mut ids, "source_a".to_string());
    let mut source_b = Event::<u16>::new(&mut ids, "source_b".to_string());

    repeater.attach(&mut ids, &mut source_a, BUFFER_SIZE).unwrap();
    match repeater.attach(&mut ids, &mut source_a, BUFFER_SIZE) {
        Err(AttachError::AlreadyAttached { event_repeater_name, event_name }) => {
            assert_eq!(event_repeater_name, REPEATER_NAME);
            assert_eq!(event_name, "source_a");
        }
        other => panic!("expected AlreadyAttached, got {other:?}"),
    }
    assert_eq!(repeater.attachment_count(), 1);
    assert_eq!(source_a.subscriber_count(), 1);

    match repeater.detach(&mut source_b) {
        Err(DetachError::NotAttached { event_repeater_name, event_name }) => {
            assert_eq!(event_repeater_name, REPEATER_NAME);
            assert_eq!(event_name, "source_b");
        }
        other => panic!("expected NotAttached, got {other:?}"),
    }
    assert_eq!(repeater.attachment_count(), 1);

    // Attach immediately followed by detach restores the source.
    repeater.attach(&mut ids, &mut source_b, BUFFER_SIZE).unwrap();
    assert_eq!(source_b.subscriber_count(), 1);
    repeater.detach(&mut source_b).unwrap();
    assert_eq!(source_b.subscriber_count(), 0);
}

#[test]
fn attach_before_initialization_is_refused() {
    let mut ids = IdAllocator::new();
    let mut repeater = EventRepeater::<u16>::new_uninitialized(&mut ids, REPEATER_NAME.to_string());
    let mut event1 = Event::<u16>::new(&mut ids, EVENT_NAME.to_string());

    match repeater.attach(&mut ids, &mut event1, BUFFER_SIZE) {
        Err(AttachError::NotInitialized { event_repeater_name, event_name }) => {
            assert_eq!(event_repeater_name, REPEATER_NAME);
            assert_eq!(event_name, EVENT_NAME);
        }
        other => panic!("expected NotInitialized, got {other:?}"),
    }
    assert_eq!(repeater.attachment_count(), 0);
    assert_eq!(event1.subscriber_count(), 0);

    repeater.initialize();
    repeater.attach(&mut ids, &mut event1, BUFFER_SIZE).unwrap();
    assert_eq!(repeater.attachment_count(), 1);
}

#[test]
fn close_with_attachments_returns_repeater() {
    let mut ids = IdAllocator::new();
    let mut repeater = EventRepeater::<u16>::new(&mut ids, REPEATER_NAME.to_string());
    let mut event1 = Event::<u16>::new(&mut ids, EVENT_NAME.to_string());
    repeater.attach(&mut ids, &mut event1, BUFFER_SIZE).unwrap();

    // Closing with a remaining attachment fails and hands the repeater
    // back untouched, so it stays usable.
    let mut repeater = match repeater.close() {
        Err(CloseError::AttachedEvents(repeater)) => repeater,
        Ok(()) => panic!("close must be refused while sources are attached"),
    };
    assert_eq!(repeater.attachment_count(), 1);

    repeater.detach(&mut event1).unwrap();
    assert!(repeater.close().is_ok());
}

#[test]
fn repeat_data() {
    let mut ids = IdAllocator::new();
    let mut repeater = EventRepeater::<u16>::new(&mut ids, REPEATER_NAME.to_string());
    let mut event1 = Event::<u16>::new(&mut ids, EVENT_NAME.to_string());
    repeater.attach(&mut ids, &mut event1, BUFFER_SIZE).unwrap();

    let (_, mut receiver) =
        repeater.event.subscribe_channel(&mut ids, RECEIVER_NAME.to_string(), BUFFER_SIZE, true, true);

    // A value dispatched on the source lands in the repeater's channel;
    // the forwarding pass republishes it through the repeater's own event.
    drive_dispatch(&mut event1, DATA);
    let report = repeater.drain_attachments(BUFFER_SIZE);
    assert_eq!(report.data, vec![DATA]);
    assert!(!report.idle);
    assert!(report.closed.is_empty());
    for value in report.data {
        drive_dispatch(&mut repeater.event, value);
    }

    assert_eq!(receiver.try_recv().unwrap(), DATA);
}

#[test]
fn repeats_from_both_sources_exactly_once() {
    let mut ids = IdAllocator::new();
    let mut repeater = EventRepeater::<u16>::new(&mut ids, REPEATER_NAME.to_string());
    let mut source_a = Event::<u16>::new(&mut ids, "source_a".to_string());
    let mut source_b = Event::<u16>::new(&mut ids, "source_b".to_string());
    repeater.attach(&mut ids, &mut source_a, BUFFER_SIZE).unwrap();
    repeater.attach(&mut ids, &mut source_b, BUFFER_SIZE).unwrap();

    let (_, mut receiver) =
        repeater.event.subscribe_channel(&mut ids, RECEIVER_NAME.to_string(), BUFFER_SIZE, true, true);

    // Dispatch distinct values in one interleaving, then the other; each
    // value reaches the repeater's subscribers exactly once either way.
    drive_dispatch(&mut source_a, 1);
    drive_dispatch(&mut source_b, 2);
    let mut first = repeater.drain_attachments(BUFFER_SIZE).data;
    drive_dispatch(&mut source_b, 4);
    drive_dispatch(&mut source_a, 3);
    first.extend(repeater.drain_attachments(BUFFER_SIZE).data);
    for value in first {
        drive_dispatch(&mut repeater.event, value);
    }

    let mut received = Vec::new();
    while let Ok(value) = receiver.try_recv() {
        received.push(value);
    }
    received.sort();
    assert_eq!(received, vec![1, 2, 3, 4]);
}

#[test]
fn remove_closed_attachments() {
    let mut ids = IdAllocator::new();
    let mut repeater = EventRepeater::<u16>::new(&mut ids, REPEATER_NAME.to_string());
    let mut event1 = Event::<u16>::new(&mut ids, EVENT_NAME.to_string());
    repeater.attach(&mut ids, &mut event1, BUFFER_SIZE).unwrap();
    let source_id = event1.id;

    // Destroying the source drops the send end the repeater subscribed, so
    // the next drain pass reports the closed channel for detachment.
    drop(event1);
    let report = repeater.drain_attachments(BUFFER_SIZE);
    assert!(report.idle);
    assert_eq!(report.closed, vec![source_id]);

    repeater.detach_by_id(source_id).unwrap();
    assert_eq!(repeater.attachment_count(), 0);
    match repeater.detach_by_id(source_id) {
        Err(DetachError::NotAttached { event_name, .. }) => {
            assert_eq!(event_name, source_id.to_string());
        }
        other => panic!("expected NotAttached, got {other:?}"),
    }
}

#[test]
fn receive_loop_management() {
    // The forwarding loop runs exactly while attachments exist.
    assert_eq!(receive_loop_action(0, false), ReceiveLoopAction::Keep);
    assert_eq!(receive_loop_action(1, false), ReceiveLoopAction::Start);
    assert_eq!(receive_loop_action(2, true), ReceiveLoopAction::Keep);
    assert_eq!(receive_loop_action(0, true), ReceiveLoopAction::Stop);
}

#[test]
fn display() {
    let mut ids = IdAllocator::new();
    let mut event_repeater = EventRepeater::<u16>::new(&mut ids, REPEATER_NAME.to_string());
    let display_str = event_repeater.display_string();
    assert_eq!(
        display_str,
        format!("EventRepeater {} (0 subscriptions)", REPEATER_NAME)
    );

    let mut event1 = Event::<u16>::new(&mut ids, EVENT_NAME.to_string());
    event_repeater.attach(&mut ids, &mut event1, BUFFER_SIZE).unwrap();
    let display_str = event_repeater.display_string();
    assert_eq!(
        display_str,
        format!("EventRepeater {} (1 subscription)", REPEATER_NAME)
    );

    let mut event2 = Event::<u16>::new(&mut ids, EVENT_NAME.to_string());
    event_repeater.attach(&mut ids, &mut event2, BUFFER_SIZE).unwrap();
    let display_str = event_repeater.display_string();
    assert_eq!(
        display_str,
        format!("EventRepeater {} (2 subscriptions)", REPEATER_NAME)
    );

    event_repeater.detach(&mut event2).unwrap();
    let display_str = event_repeater.display_string();
    assert_eq!(
        display_str,
        format!("EventRepeater {} (1 subscription)", REPEATER_NAME)
    );

    event_repeater.detach(&mut event1).unwrap();
    let display_str = event_repeater.display_string();
    assert_eq!(
        display_str,
        format!("EventRepeater {} (0 subscriptions)", REPEATER_NAME)
    );
}
