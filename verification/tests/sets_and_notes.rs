use gdble::ble_service::{clone_services, BleServiceInfo};
use gdble::event_bridge::QueuedEvent;
use gdble::notification::{
    publish_device_event, publish_device_events, publish_scan_event, publish_scan_events,
    Notification,
};
use gdble::text::{clone_bytes, clone_optional_text, clone_texts};
use gdble::text_set::TextSet;
use gdble::types::{BleError, DeviceInfo};
use std::collections::HashMap;

fn record(address: &str) -> DeviceInfo {
    DeviceInfo::new(
        String::from(address),
        None,
        None,
        Vec::new(),
        HashMap::new(),
        HashMap::new(),
        None,
    )
}

#[test]
fn a_text_set_holds_each_text_once() {
    let mut set = TextSet::new();
    assert!(set.is_empty());
    assert!(set.insert(String::from("a")));
    assert!(set.insert(String::from("b")));
    assert!(!set.insert(String::from("a")));
    assert_eq!(set.len(), 2);
    assert!(set.contains(&String::from("a")));
    assert!(!set.contains(&String::from("A")));
    assert_eq!(set.to_vec(), vec![String::from("a"), String::from("b")]);
}

#[test]
fn a_text_set_forgets_what_is_removed() {
    let mut set = TextSet::new();
    for t in ["a", "b", "c"] {
        let _ = set.insert(String::from(t));
    }
    assert!(set.remove(&String::from("b")));
    assert!(!set.remove(&String::from("b")));
    assert!(!set.remove(&String::from("z")));
    assert_eq!(set.to_vec(), vec![String::from("a"), String::from("c")]);
    set.clear();
    assert!(set.is_empty());
    assert_eq!(set.len(), 0);
    assert!(!set.contains(&String::from("a")));
}

#[test]
fn copies_are_equal_to_what_they_copy() {
    let texts = vec![String::from("x"), String::new(), String::from("y")];
    assert_eq!(clone_texts(&texts), texts);
    assert_eq!(clone_optional_text(&Some(String::from("n"))), Some(String::from("n")));
    assert_eq!(clone_optional_text(&None), None);
    assert_eq!(clone_bytes(&vec![0, 255, 7]), vec![0, 255, 7]);
    let services = vec![BleServiceInfo::new(String::from("s"), Vec::new())];
    assert_eq!(clone_services(&services), services);
    assert_eq!(services[0].clone(), services[0]);
}

#[test]
fn scan_events_are_published_as_scan_notifications() {
    let failure = BleError::ScanFailed(String::from("x"));
    let events = vec![
        QueuedEvent::DeviceDiscovered(record("A")),
        QueuedEvent::ConnectSucceeded,
        QueuedEvent::DeviceUpdated(record("A")),
        QueuedEvent::ScanCompleted(Err(failure)),
        QueuedEvent::CharacteristicWritten(String::from("u")),
        QueuedEvent::ScanCompleted(Ok(())),
    ];
    let mut out = vec![Notification::ScanStarted];
    publish_scan_events(&events, &mut out);
    assert_eq!(
        out,
        vec![
            Notification::ScanStarted,
            Notification::DeviceDiscovered(record("A")),
            Notification::DeviceUpdated(record("A")),
            Notification::ErrorOccurred(String::from("Scan failed: x")),
            Notification::ScanStopped,
            Notification::ScanStopped,
        ]
    );
    let mut one = Vec::new();
    publish_scan_event(&QueuedEvent::ScanCompleted(Ok(())), &mut one);
    assert_eq!(one, vec![Notification::ScanStopped]);
}

#[test]
fn device_events_are_published_under_the_address() {
    let key = String::from("K");
    let events = vec![
        QueuedEvent::ConnectSucceeded,
        QueuedEvent::ConnectFailed(BleError::ConnectionFailed(String::from("c"))),
        QueuedEvent::ServicesDiscovered(vec![BleServiceInfo::new(String::from("s"), Vec::new())]),
        QueuedEvent::CharacteristicRead(String::from("u"), vec![1]),
        QueuedEvent::CharacteristicWritten(String::from("u")),
        QueuedEvent::CharacteristicNotified(String::from("u"), vec![2, 3]),
        QueuedEvent::OperationFailed(String::from("op"), BleError::NotConnected),
        QueuedEvent::DeviceDiscovered(record("A")),
        QueuedEvent::ScanCompleted(Ok(())),
    ];
    let mut out = Vec::new();
    publish_device_events(&key, &events, &mut out);
    assert_eq!(
        out,
        vec![
            Notification::Connected(key.clone()),
            Notification::DeviceConnected(key.clone()),
            Notification::ConnectionFailed(key.clone(), String::from("Connection failed: c")),
            Notification::ServicesDiscovered(
                key.clone(),
                vec![BleServiceInfo::new(String::from("s"), Vec::new())]
            ),
            Notification::CharacteristicRead(key.clone(), String::from("u"), vec![1]),
            Notification::CharacteristicWritten(key.clone(), String::from("u")),
            Notification::CharacteristicNotified(key.clone(), String::from("u"), vec![2, 3]),
            Notification::OperationFailed(
                key.clone(),
                String::from("op"),
                String::from("Device is not connected; connect the device first")
            ),
        ]
    );
    let mut one = vec![Notification::ScanStopped];
    publish_device_event(&key, &QueuedEvent::CharacteristicWritten(String::from("w")), &mut one);
    assert_eq!(
        one,
        vec![
            Notification::ScanStopped,
            Notification::CharacteristicWritten(key, String::from("w"))
        ]
    );
}
