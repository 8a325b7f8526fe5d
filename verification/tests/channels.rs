use lum_event::Event;
use lum_event::IdAllocator;
use lum_libs::tokio::sync::mpsc::error::TryRecvError;
use lum_libs::tokio::sync::mpsc::error::TrySendError;

static TEST_EVENT_NAME: &str = "test_event";

#[test]
fn channel_capacity_gives_backpressure() {
    let mut ids = IdAllocator::new();
    let mut event = Event::<String>::new(&mut ids, TEST_EVENT_NAME.to_string());
    let (_, mut receiver) = event.subscribe_channel(&mut ids, "c".to_string(), 1, false, false);

    let targets = event.delivery_targets();
    let sender = targets[0].sender.as_ref().unwrap();

    // The first value fills the capacity-1 buffer; a second dispatch cannot
    // proceed until the receiver consumes the first value.
    sender.try_send("hello".to_string()).unwrap();
    match sender.try_send("world".to_string()) {
        Err(TrySendError::Full(value)) => assert_eq!(value, "world"),
        other => panic!("expected the buffer to be full, got {other:?}"),
    }

    assert_eq!(receiver.try_recv().unwrap(), "hello");
    sender.try_send("world".to_string()).unwrap();
    assert_eq!(receiver.try_recv().unwrap(), "world");
}

#[test]
fn dropping_event_closes_subscriber_channels() {
    let mut ids = IdAllocator::new();
    let mut event = Event::<u8>::new(&mut ids, TEST_EVENT_NAME.to_string());
    let (_, mut receiver) = event.subscribe_channel(&mut ids, "c".to_string(), 4, false, false);

    drop(event);

    // The registry owned the only send end, so its destruction closes the
    // channel: the receiver observes closure, not a hang.
    assert!(matches!(receiver.try_recv(), Err(TryRecvError::Disconnected)));
}

#[test]
fn unsubscribing_closes_the_subscriber_channel() {
    let mut ids = IdAllocator::new();
    let mut event = Event::<u8>::new(&mut ids, TEST_EVENT_NAME.to_string());
    let (id, mut receiver) = event.subscribe_channel(&mut ids, "c".to_string(), 4, false, false);

    assert!(event.unsubscribe(id));

    assert!(matches!(receiver.try_recv(), Err(TryRecvError::Disconnected)));
}
