use lum_event::DeliveryOutcome;
use lum_event::DispatchError;
use lum_event::Event;
use lum_event::IdAllocator;

static TEST_EVENT_NAME: &str = "test_event";
static TEST_CHANNEL_NAME: &str = "test_channel";
static TEST_CLOSURE_NAME: &str = "test_closure";
static TEST_ERROR: &str = "test_error";

#[test]
fn event_new() {
    let mut ids = IdAllocator::new();
    let event = Event::<String>::new(&mut ids, TEST_EVENT_NAME.to_string());

    assert_eq!(event.name, TEST_EVENT_NAME);
    assert_eq!(event.subscriber_count(), 0);
}

#[test]
fn event_partial_eq() {
    let mut ids = IdAllocator::new();
    let event1 = Event::<String>::new(&mut ids, format!("{}-{}", TEST_EVENT_NAME, 1));
    let event2 = Event::<String>::new(&mut ids, format!("{}-{}", TEST_EVENT_NAME, 2));
    assert_ne!(event1, event2);
    assert_eq!(event1, event1);
    assert_eq!(event2, event2);
}

#[test]
fn id_allocator_hands_out_distinct_ids() {
    let mut ids = IdAllocator::new();
    let a = ids.allocate();
    let b = ids.allocate();
    let c = ids.allocate();
    assert_ne!(a, b);
    assert_ne!(b, c);
    assert_ne!(a, c);
}

#[test]
fn dispatch_with_no_subscribers_is_ok() {
    let mut ids = IdAllocator::new();
    let mut event = Event::<u32>::new(&mut ids, TEST_EVENT_NAME.to_string());

    let result = event.dispatch(Vec::new());

    assert!(result.is_ok());
    assert_eq!(event.subscriber_count(), 0);
}

#[test]
fn dispatch_failure_removes_only_offender() {
    let mut ids = IdAllocator::new();
    let mut event = Event::<u32>::new(&mut ids, TEST_EVENT_NAME.to_string());
    let (channel_id, mut receiver) =
        event.subscribe_channel(&mut ids, TEST_CHANNEL_NAME.to_string(), 4, false, false);
    let closure_id = event.subscribe_closure(&mut ids, TEST_CLOSURE_NAME.to_string(), true, true);
    assert_eq!(event.subscriber_count(), 2);

    // Perform the deliveries as a driving shell would: the channel send
    // succeeds, the closure fails.
    let targets = event.delivery_targets();
    assert_eq!(targets.len(), 2);
    let mut outcomes = Vec::new();
    for target in &targets {
        match &target.sender {
            Some(sender) => {
                sender.try_send(42).unwrap();
                outcomes.push(DeliveryOutcome::Delivered);
            }
            None => outcomes.push(DeliveryOutcome::CallbackError(TEST_ERROR.to_string())),
        }
    }

    let errors = event.dispatch(outcomes).unwrap_err();
    assert_eq!(errors.len(), 1);
    assert_eq!(errors[0], DispatchError::Closure(TEST_ERROR.to_string()));

    // The well-behaved subscriber received the value and survives; the
    // failing one was removed automatically.
    assert_eq!(receiver.try_recv().unwrap(), 42);
    assert_eq!(event.subscriber_count(), 1);
    assert!(!event.unsubscribe(closure_id));
    assert!(event.unsubscribe(channel_id));
}

#[test]
fn async_closure_failure_is_tagged_as_async() {
    let mut ids = IdAllocator::new();
    let mut event = Event::<u32>::new(&mut ids, TEST_EVENT_NAME.to_string());
    event.subscribe_async_closure(&mut ids, TEST_CLOSURE_NAME.to_string(), false, false);

    let errors = event
        .dispatch(vec![DeliveryOutcome::CallbackError(TEST_ERROR.to_string())])
        .unwrap_err();

    assert_eq!(errors.len(), 1);
    assert_eq!(errors[0], DispatchError::AsyncClosure(TEST_ERROR.to_string()));
    // Without remove_on_error the failing subscriber stays registered.
    assert_eq!(event.subscriber_count(), 1);
}

#[test]
fn channel_send_error_carries_value_back() {
    let mut ids = IdAllocator::new();
    let mut event = Event::<u32>::new(&mut ids, TEST_EVENT_NAME.to_string());
    let (_, receiver) = event.subscribe_channel(&mut ids, TEST_CHANNEL_NAME.to_string(), 4, false, true);
    drop(receiver);

    let targets = event.delivery_targets();
    let sender = targets[0].sender.as_ref().unwrap();
    let outcome = match sender.try_send(7) {
        Err(lum_libs::tokio::sync::mpsc::error::TrySendError::Closed(value)) => {
            DeliveryOutcome::ChannelClosed(value)
        }
        other => panic!("expected the channel to be closed, got {other:?}"),
    };

    let errors = event.dispatch(vec![outcome]).unwrap_err();
    assert_eq!(errors.len(), 1);
    assert_eq!(errors[0], DispatchError::ChannelSend(7));
    // remove_on_error was set, so the dead channel subscriber is gone.
    assert_eq!(event.subscriber_count(), 0);
}

#[test]
fn subscriber_count_balances() {
    // Registrations minus explicit removals minus automatic removals.
    let mut ids = IdAllocator::new();
    let mut event = Event::<u32>::new(&mut ids, TEST_EVENT_NAME.to_string());

    let a = event.subscribe_closure(&mut ids, "a".to_string(), false, false);
    let b = event.subscribe_closure(&mut ids, "b".to_string(), false, true);
    let c = event.subscribe_closure(&mut ids, "c".to_string(), false, false);
    assert_eq!(event.subscriber_count(), 3);

    // One failed dispatch: only b asked to be removed on error.
    let outcomes = vec![
        DeliveryOutcome::Delivered,
        DeliveryOutcome::CallbackError(TEST_ERROR.to_string()),
        DeliveryOutcome::Delivered,
    ];
    assert!(event.dispatch(outcomes).is_err());
    assert_eq!(event.subscriber_count(), 2);

    // One explicit removal; removing the already-gone subscriber is no
    // error and changes nothing.
    assert!(event.unsubscribe(a));
    assert_eq!(event.subscriber_count(), 1);
    assert!(!event.unsubscribe(b));
    assert_eq!(event.subscriber_count(), 1);
    assert!(event.unsubscribe(c));
    assert_eq!(event.subscriber_count(), 0);
}

#[test]
fn delivery_targets_follow_registry_order() {
    let mut ids = IdAllocator::new();
    let mut event = Event::<u32>::new(&mut ids, TEST_EVENT_NAME.to_string());
    let (channel_id, _receiver) =
        event.subscribe_channel(&mut ids, TEST_CHANNEL_NAME.to_string(), 2, true, false);
    let closure_id = event.subscribe_closure(&mut ids, TEST_CLOSURE_NAME.to_string(), false, true);

    let targets = event.delivery_targets();
    assert_eq!(targets.len(), 2);
    assert_eq!(targets[0].id, channel_id);
    assert_eq!(targets[0].name, TEST_CHANNEL_NAME);
    assert!(targets[0].log_on_error);
    assert!(!targets[0].remove_on_error);
    assert!(targets[0].sender.is_some());
    assert_eq!(targets[1].id, closure_id);
    assert_eq!(targets[1].name, TEST_CLOSURE_NAME);
    assert!(!targets[1].log_on_error);
    assert!(targets[1].remove_on_error);
    assert!(targets[1].sender.is_none());
}

#[test]
fn test_display() {
    let mut ids = IdAllocator::new();
    let mut event = Event::<String>::new(&mut ids, TEST_EVENT_NAME.to_string());
    let display_str = event.display_string();
    assert_eq!(display_str, "Event test_event (0 subscribers)");

    let subscriber1 = event.subscribe_channel(&mut ids, "Test".to_string(), 100, false, false);
    let display_str = event.display_string();
    assert_eq!(display_str, "Event test_event (1 subscriber)");

    let subscriber2 = event.subscribe_channel(&mut ids, "Test2".to_string(), 100, false, false);
    let display_str = event.display_string();
    assert_eq!(display_str, "Event test_event (2 subscribers)");

    event.unsubscribe(subscriber2.0);
    let display_str = event.display_string();
    assert_eq!(display_str, "Event test_event (1 subscriber)");

    event.unsubscribe(subscriber1.0);
    let display_str = event.display_string();
    assert_eq!(display_str, "Event test_event (0 subscribers)");
}

#[test]
fn display_counts_many_subscribers() {
    let mut ids = IdAllocator::new();
    let mut event = Event::<u32>::new(&mut ids, TEST_EVENT_NAME.to_string());
    for i in 0..12 {
        event.subscribe_closure(&mut ids, format!("listener-{i}"), false, false);
    }
    assert_eq!(event.display_string(), "Event test_event (12 subscribers)");
}

#[test]
fn event_debug() {
    let mut ids = IdAllocator::new();
    let event = Event::<String>::new(&mut ids, TEST_EVENT_NAME.to_string());
    let debug_str = format!("{event:?}");
    assert!(debug_str.contains("Event"));
    assert!(debug_str.contains("id"));
    assert!(debug_str.contains("name"));
    assert!(debug_str.contains("subscribers"));
}

#[test]
fn keyed_dispatch_tolerates_registry_drift() {
    let mut ids = IdAllocator::new();
    let mut event = Event::<u32>::new(&mut ids, TEST_EVENT_NAME.to_string());
    let a = event.subscribe_closure(&mut ids, "a".to_string(), false, true);
    let b = event.subscribe_closure(&mut ids, "b".to_string(), false, false);

    // The registry drifts between planning and settlement: a third
    // subscriber arrives and b leaves.
    let c = event.subscribe_closure(&mut ids, "c".to_string(), false, false);
    assert!(event.unsubscribe(b));

    let outcomes = vec![
        (a, DeliveryOutcome::CallbackError(TEST_ERROR.to_string())),
        (b, DeliveryOutcome::Delivered),
    ];
    let errors = event.dispatch_keyed(outcomes).unwrap_err();

    // Only a's failure counts; b's stale entry is ignored; c, which had no
    // entry, is kept untouched; a asked to be removed on error.
    assert_eq!(errors.len(), 1);
    assert_eq!(errors[0], DispatchError::Closure(TEST_ERROR.to_string()));
    assert_eq!(event.subscriber_count(), 1);
    assert!(!event.unsubscribe(a));
    assert!(event.unsubscribe(c));
}
