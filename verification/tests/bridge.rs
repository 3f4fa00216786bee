use gdble::event_bridge::{EventBridge, QueuedEvent};
use gdble::types::{drain_logs, enqueue_log, BleError, LogLevel};

#[test]
fn a_new_bridge_is_empty() {
    let mut bridge = EventBridge::new();
    assert_eq!(bridge.pending(), 0);
    assert!(bridge.drain_events().is_empty());
    assert!(drain_logs(&mut bridge.logs).is_empty());
}

#[test]
fn events_come_out_in_the_order_they_went_in() {
    let mut bridge = EventBridge::new();
    bridge.push_event(QueuedEvent::ConnectSucceeded);
    bridge.push_event(QueuedEvent::CharacteristicWritten(String::from("2a00")));
    bridge.push_event(QueuedEvent::ConnectFailed(BleError::Timeout(String::from("t"))));
    assert_eq!(bridge.pending(), 3);
    assert_eq!(
        bridge.drain_events(),
        vec![
            QueuedEvent::ConnectSucceeded,
            QueuedEvent::CharacteristicWritten(String::from("2a00")),
            QueuedEvent::ConnectFailed(BleError::Timeout(String::from("t"))),
        ]
    );
}

#[test]
fn draining_twice_yields_the_events_then_nothing() {
    let mut bridge = EventBridge::new();
    bridge.push_event(QueuedEvent::CharacteristicRead(String::from("2a19"), vec![1, 2, 3]));
    bridge.push_event(QueuedEvent::ScanCompleted(Ok(())));
    let first = bridge.drain_events();
    let second = bridge.drain_events();
    assert_eq!(first.len(), 2);
    assert_eq!(first[0], QueuedEvent::CharacteristicRead(String::from("2a19"), vec![1, 2, 3]));
    assert_eq!(first[1], QueuedEvent::ScanCompleted(Ok(())));
    assert!(second.is_empty());
    assert_eq!(bridge.pending(), 0);
}

#[test]
fn events_pushed_after_a_drain_come_out_at_the_next() {
    let mut bridge = EventBridge::new();
    bridge.push_event(QueuedEvent::ConnectSucceeded);
    let _ = bridge.drain_events();
    bridge.push_event(QueuedEvent::CharacteristicWritten(String::from("a")));
    assert_eq!(
        bridge.drain_events(),
        vec![QueuedEvent::CharacteristicWritten(String::from("a"))]
    );
}

#[test]
fn draining_events_leaves_the_log_alone() {
    let mut bridge = EventBridge::new();
    enqueue_log(&mut bridge.logs, LogLevel::Info, String::from("kept"));
    bridge.push_event(QueuedEvent::ConnectSucceeded);
    let _ = bridge.drain_events();
    assert_eq!(drain_logs(&mut bridge.logs), vec![(LogLevel::Info, String::from("kept"))]);
}
