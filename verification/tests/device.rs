use gdble::ble_characteristic::{BleCharacteristicInfo, CharacteristicProperties};
use gdble::ble_device::{
    build_services, operation_text, stack_failure, BleDevice, ConnectionState, DeviceCommand,
    DiscoveredCharacteristic, DiscoveredService, Operation,
};
use gdble::ble_service::BleServiceInfo;
use gdble::event_bridge::{EventBridge, QueuedEvent};
use gdble::types::{drain_logs, BleError, LogLevel};

const HEART_SERVICE: &str = "0000180d-0000-1000-8000-00805f9b34fb";
const HEART_RATE: &str = "00002a37-0000-1000-8000-00805f9b34fb";
const BODY_SENSOR: &str = "00002a38-0000-1000-8000-00805f9b34fb";
const BATTERY_SERVICE: &str = "0000180f-0000-1000-8000-00805f9b34fb";
const BATTERY_LEVEL: &str = "00002a19-0000-1000-8000-00805f9b34fb";

fn found_services() -> Vec<DiscoveredService> {
    vec![
        DiscoveredService {
            uuid: String::from(HEART_SERVICE),
            characteristics: vec![
                DiscoveredCharacteristic { uuid: String::from(HEART_RATE), properties: 0x10 },
                DiscoveredCharacteristic { uuid: String::from(BODY_SENSOR), properties: 0x02 },
            ],
        },
        DiscoveredService {
            uuid: String::from(BATTERY_SERVICE),
            characteristics: vec![DiscoveredCharacteristic {
                uuid: String::from(BATTERY_LEVEL),
                properties: 0x12,
            }],
        },
    ]
}

fn connected_device(bridge: &mut EventBridge) -> BleDevice {
    let mut device = BleDevice::new(String::from("AA:BB"), String::from("Strap"));
    assert_eq!(device.connect_async(bridge), Some(DeviceCommand::Connect));
    device.complete_connect(Ok(()), bridge);
    device.complete_discover(Ok(found_services()), bridge);
    let _ = bridge.drain_events();
    device
}

fn not_connected_report(operation: &str) -> QueuedEvent {
    QueuedEvent::OperationFailed(String::from(operation), BleError::NotConnected)
}

#[test]
fn a_new_session_is_disconnected_and_empty() {
    let device = BleDevice::new(String::from("AA:BB"), String::from("Strap"));
    assert!(!device.is_connected());
    assert_eq!(device.connection_state(), ConnectionState::Disconnected);
    assert_eq!(device.get_address(), "AA:BB");
    assert_eq!(device.get_name(), "Strap");
    assert!(device.get_services().is_empty());
    assert!(device.subscribed_characteristics().is_empty());
}

#[test]
fn connecting_goes_through_connecting_to_connected() {
    let mut bridge = EventBridge::new();
    let mut device = BleDevice::new(String::from("AA:BB"), String::new());
    assert_eq!(device.connect_async(&mut bridge), Some(DeviceCommand::Connect));
    assert_eq!(device.connection_state(), ConnectionState::Connecting);
    assert!(!device.is_connected());
    assert_eq!(bridge.pending(), 0);
    device.complete_connect(Ok(()), &mut bridge);
    assert!(device.is_connected());
    assert_eq!(bridge.drain_events(), vec![QueuedEvent::ConnectSucceeded]);
}

#[test]
fn a_second_connect_request_dispatches_nothing() {
    let mut bridge = EventBridge::new();
    let mut device = BleDevice::new(String::from("AA:BB"), String::new());
    assert_eq!(device.connect_async(&mut bridge), Some(DeviceCommand::Connect));
    assert_eq!(device.connect_async(&mut bridge), None);
    assert_eq!(device.connection_state(), ConnectionState::Connecting);
    assert_eq!(bridge.pending(), 0);
    device.complete_connect(Ok(()), &mut bridge);
    assert_eq!(bridge.drain_events(), vec![QueuedEvent::ConnectSucceeded]);
}

#[test]
fn a_connect_request_on_a_connected_session_reports_success_again() {
    let mut bridge = EventBridge::new();
    let mut device = connected_device(&mut bridge);
    assert_eq!(device.connect_async(&mut bridge), None);
    assert!(device.is_connected());
    assert_eq!(device.get_services().len(), 2);
    assert_eq!(bridge.drain_events(), vec![QueuedEvent::ConnectSucceeded]);
    assert!(drain_logs(&mut bridge.logs).is_empty());
}

#[test]
fn a_connect_request_while_disconnecting_reports_a_failure() {
    let mut bridge = EventBridge::new();
    let mut device = connected_device(&mut bridge);
    let _ = device.disconnect();
    assert_eq!(device.connect_async(&mut bridge), None);
    assert_eq!(device.connection_state(), ConnectionState::Disconnecting);
    assert_eq!(
        bridge.drain_events(),
        vec![QueuedEvent::ConnectFailed(BleError::ConnectionFailed(String::from(
            "disconnect in progress"
        )))]
    );
    assert_eq!(
        drain_logs(&mut bridge.logs),
        vec![(
            LogLevel::Error,
            String::from("CONNECTION_FAILED: Connection failed: disconnect in progress")
        )]
    );
}

#[test]
fn a_failed_connect_returns_to_disconnected_and_is_reported() {
    let mut bridge = EventBridge::new();
    let mut device = BleDevice::new(String::from("AA:BB"), String::new());
    let _ = device.connect_async(&mut bridge);
    device.complete_connect(Err(String::from("out of range")), &mut bridge);
    assert_eq!(device.connection_state(), ConnectionState::Disconnected);
    assert_eq!(
        bridge.drain_events(),
        vec![QueuedEvent::ConnectFailed(BleError::ConnectionFailed(String::from("out of range")))]
    );
    assert_eq!(
        drain_logs(&mut bridge.logs),
        vec![(LogLevel::Error, String::from("CONNECTION_FAILED: Connection failed: out of range"))]
    );
}

#[test]
fn a_stale_connect_outcome_is_dropped() {
    let mut bridge = EventBridge::new();
    let mut device = BleDevice::new(String::from("AA:BB"), String::new());
    device.complete_connect(Ok(()), &mut bridge);
    assert_eq!(device.connection_state(), ConnectionState::Disconnected);
    assert_eq!(bridge.pending(), 0);
    let _ = device.connect_async(&mut bridge);
    let _ = device.disconnect();
    device.complete_connect(Ok(()), &mut bridge);
    assert_eq!(device.connection_state(), ConnectionState::Disconnecting);
    device.complete_connect(Err(String::from("late")), &mut bridge);
    assert_eq!(bridge.pending(), 0);
    assert!(drain_logs(&mut bridge.logs).is_empty());
}

#[test]
fn discovery_on_a_disconnected_session_is_refused() {
    let mut bridge = EventBridge::new();
    let device = BleDevice::new(String::from("AA:BB"), String::new());
    assert_eq!(device.discover_services(&mut bridge), None);
    assert_eq!(bridge.drain_events(), vec![not_connected_report("discover_services")]);
    assert_eq!(
        drain_logs(&mut bridge.logs),
        vec![(
            LogLevel::Error,
            String::from("NOT_CONNECTED: Device is not connected; connect the device first")
        )]
    );
}

#[test]
fn discovery_replaces_the_cache_and_reports_the_services() {
    let mut bridge = EventBridge::new();
    let mut device = BleDevice::new(String::from("AA:BB"), String::new());
    let _ = device.connect_async(&mut bridge);
    device.complete_connect(Ok(()), &mut bridge);
    let _ = bridge.drain_events();
    assert_eq!(device.discover_services(&mut bridge), Some(DeviceCommand::DiscoverServices));
    assert_eq!(bridge.pending(), 0);
    device.complete_discover(Ok(found_services()), &mut bridge);
    let expected = vec![
        BleServiceInfo::new(
            String::from(HEART_SERVICE),
            vec![
                BleCharacteristicInfo::new(
                    String::from(HEART_RATE),
                    CharacteristicProperties {
                        read: false,
                        write: false,
                        write_without_response: false,
                        notify: true,
                        indicate: false,
                    },
                ),
                BleCharacteristicInfo::new(
                    String::from(BODY_SENSOR),
                    CharacteristicProperties {
                        read: true,
                        write: false,
                        write_without_response: false,
                        notify: false,
                        indicate: false,
                    },
                ),
            ],
        ),
        BleServiceInfo::new(
            String::from(BATTERY_SERVICE),
            vec![BleCharacteristicInfo::new(
                String::from(BATTERY_LEVEL),
                CharacteristicProperties {
                    read: true,
                    write: false,
                    write_without_response: false,
                    notify: true,
                    indicate: false,
                },
            )],
        ),
    ];
    assert_eq!(device.get_services(), &expected);
    assert_eq!(bridge.drain_events(), vec![QueuedEvent::ServicesDiscovered(expected)]);
    device.complete_discover(Ok(Vec::new()), &mut bridge);
    assert!(device.get_services().is_empty());
    assert_eq!(bridge.drain_events(), vec![QueuedEvent::ServicesDiscovered(Vec::new())]);
}

#[test]
fn a_failed_discovery_keeps_the_cache_and_is_reported() {
    let mut bridge = EventBridge::new();
    let mut device = connected_device(&mut bridge);
    device.complete_discover(Err(String::from("gatt busy")), &mut bridge);
    assert_eq!(device.get_services().len(), 2);
    assert_eq!(
        bridge.drain_events(),
        vec![QueuedEvent::OperationFailed(
            String::from("discover_services"),
            BleError::ServiceDiscoveryFailed(String::from("gatt busy"))
        )]
    );
}

#[test]
fn a_discovery_that_completes_after_a_disconnect_is_not_cached() {
    let mut bridge = EventBridge::new();
    let mut device = connected_device(&mut bridge);
    let _ = device.disconnect();
    device.complete_disconnect(Ok(()), &mut bridge);
    device.complete_discover(Ok(found_services()), &mut bridge);
    assert!(device.get_services().is_empty());
    assert_eq!(bridge.drain_events(), vec![not_connected_report("discover_services")]);
}

#[test]
fn property_bits_are_read_one_by_one() {
    let none = CharacteristicProperties::from_bits(0x00);
    assert!(!none.read && !none.write && !none.write_without_response);
    assert!(!none.notify && !none.indicate);
    assert!(CharacteristicProperties::from_bits(0x02).read);
    assert!(CharacteristicProperties::from_bits(0x04).write_without_response);
    assert!(CharacteristicProperties::from_bits(0x08).write);
    assert!(CharacteristicProperties::from_bits(0x10).notify);
    assert!(CharacteristicProperties::from_bits(0x20).indicate);
    let others = CharacteristicProperties::from_bits(0x01 | 0x40 | 0x80);
    assert_eq!(others, none);
    let all = CharacteristicProperties::from_bits(0xff);
    assert!(all.read && all.write && all.write_without_response && all.notify && all.indicate);
    let info = BleDevice::convert_characteristic(String::from(BATTERY_LEVEL), 0x0a);
    assert_eq!(info.uuid, BATTERY_LEVEL);
    assert_eq!(
        info.properties,
        CharacteristicProperties {
            read: true,
            write: true,
            write_without_response: false,
            notify: false,
            indicate: false,
        }
    );
}

#[test]
fn built_services_keep_the_reported_order() {
    let built = build_services(&found_services());
    assert_eq!(built.len(), 2);
    assert_eq!(built[0].uuid, HEART_SERVICE);
    assert_eq!(built[0].characteristics.len(), 2);
    assert_eq!(built[0].characteristics[0].uuid, HEART_RATE);
    assert_eq!(built[0].characteristics[1].uuid, BODY_SENSOR);
    assert_eq!(built[1].uuid, BATTERY_SERVICE);
    assert_eq!(built[1].characteristics[0].uuid, BATTERY_LEVEL);
    assert!(build_services(&Vec::new()).is_empty());
}

#[test]
fn lookup_finds_the_place_of_a_characteristic() {
    let mut bridge = EventBridge::new();
    let device = connected_device(&mut bridge);
    assert_eq!(device.find_characteristic(HEART_SERVICE, HEART_RATE), Some((0, 0)));
    assert_eq!(device.find_characteristic(HEART_SERVICE, BODY_SENSOR), Some((0, 1)));
    assert_eq!(device.find_characteristic(BATTERY_SERVICE, BATTERY_LEVEL), Some((1, 0)));
}

#[test]
fn lookup_ignores_letter_case() {
    let mut bridge = EventBridge::new();
    let device = connected_device(&mut bridge);
    let service = HEART_SERVICE.to_uppercase();
    let characteristic = HEART_RATE.to_uppercase();
    assert_ne!(service, HEART_SERVICE);
    assert_eq!(device.find_characteristic(&service, &characteristic), Some((0, 0)));
    assert_eq!(device.find_characteristic(&service, HEART_RATE), Some((0, 0)));
    assert_eq!(device.find_characteristic(HEART_SERVICE, &characteristic), Some((0, 0)));
    assert_eq!(
        device.find_characteristic("0000180D-0000-1000-8000-00805F9b34fB", HEART_RATE),
        Some((0, 0))
    );
}

#[test]
fn lookup_needs_both_uuids_to_match() {
    let mut bridge = EventBridge::new();
    let device = connected_device(&mut bridge);
    assert_eq!(device.find_characteristic(BATTERY_SERVICE, HEART_RATE), None);
    assert_eq!(device.find_characteristic(HEART_SERVICE, BATTERY_LEVEL), None);
    assert_eq!(device.find_characteristic("", HEART_RATE), None);
    assert_eq!(device.find_characteristic(HEART_SERVICE, ""), None);
    assert_eq!(device.find_characteristic(HEART_RATE, HEART_SERVICE), None);
}

#[test]
fn lookup_folds_ascii_letters_only() {
    let mut bridge = EventBridge::new();
    let mut device = BleDevice::new(String::from("AA:BB"), String::new());
    let _ = device.connect_async(&mut bridge);
    device.complete_connect(Ok(()), &mut bridge);
    device.complete_discover(
        Ok(vec![DiscoveredService {
            uuid: String::from("svc-é"),
            characteristics: vec![DiscoveredCharacteristic {
                uuid: String::from("chr"),
                properties: 0,
            }],
        }]),
        &mut bridge,
    );
    assert_eq!(device.find_characteristic("SVC-é", "CHR"), Some((0, 0)));
    assert_eq!(device.find_characteristic("svc-É", "chr"), None);
}

#[test]
fn lookup_takes_the_first_of_two_matches() {
    let mut bridge = EventBridge::new();
    let mut device = BleDevice::new(String::from("AA:BB"), String::new());
    let _ = device.connect_async(&mut bridge);
    device.complete_connect(Ok(()), &mut bridge);
    device.complete_discover(
        Ok(vec![
            DiscoveredService { uuid: String::from("s"), characteristics: Vec::new() },
            DiscoveredService {
                uuid: String::from("S"),
                characteristics: vec![
                    DiscoveredCharacteristic { uuid: String::from("x"), properties: 0 },
                    DiscoveredCharacteristic { uuid: String::from("C"), properties: 0 },
                    DiscoveredCharacteristic { uuid: String::from("c"), properties: 0 },
                ],
            },
        ]),
        &mut bridge,
    );
    assert_eq!(device.find_characteristic("s", "c"), Some((1, 1)));
}

#[test]
fn a_read_is_dispatched_on_the_characteristic_as_cached() {
    let mut bridge = EventBridge::new();
    let device = connected_device(&mut bridge);
    let asked = BATTERY_LEVEL.to_uppercase();
    let command = device.read_characteristic(&BATTERY_SERVICE.to_uppercase(), &asked, &mut bridge);
    assert_eq!(
        command,
        Some(DeviceCommand::Read {
            service_uuid: String::from(BATTERY_SERVICE),
            char_uuid: String::from(BATTERY_LEVEL),
            report_as: asked,
        })
    );
    assert_eq!(bridge.pending(), 0);
    assert!(drain_logs(&mut bridge.logs).is_empty());
}

#[test]
fn a_write_carries_its_data_and_mode() {
    let mut bridge = EventBridge::new();
    let device = connected_device(&mut bridge);
    for with_response in [true, false] {
        let command = device.write_characteristic(
            HEART_SERVICE,
            BODY_SENSOR,
            vec![9, 8, 7],
            with_response,
            &mut bridge,
        );
        assert_eq!(
            command,
            Some(DeviceCommand::Write {
                service_uuid: String::from(HEART_SERVICE),
                char_uuid: String::from(BODY_SENSOR),
                report_as: String::from(BODY_SENSOR),
                data: vec![9, 8, 7],
                with_response,
            })
        );
    }
    assert_eq!(bridge.pending(), 0);
}

#[test]
fn subscribe_and_unsubscribe_are_dispatched_on_a_match() {
    let mut bridge = EventBridge::new();
    let device = connected_device(&mut bridge);
    assert_eq!(
        device.subscribe_characteristic(HEART_SERVICE, HEART_RATE, &mut bridge),
        Some(DeviceCommand::Subscribe {
            service_uuid: String::from(HEART_SERVICE),
            char_uuid: String::from(HEART_RATE),
            report_as: String::from(HEART_RATE),
        })
    );
    assert_eq!(
        device.unsubscribe_characteristic(HEART_SERVICE, HEART_RATE, &mut bridge),
        Some(DeviceCommand::Unsubscribe {
            service_uuid: String::from(HEART_SERVICE),
            char_uuid: String::from(HEART_RATE),
            report_as: String::from(HEART_RATE),
        })
    );
    assert_eq!(bridge.pending(), 0);
}

#[test]
fn write_on_a_disconnected_session_fails_at_once() {
    let mut bridge = EventBridge::new();
    let device = BleDevice::new(String::from("AA:BB"), String::new());
    let command =
        device.write_characteristic(HEART_SERVICE, HEART_RATE, vec![1], true, &mut bridge);
    assert_eq!(command, None);
    assert_eq!(bridge.drain_events(), vec![not_connected_report("write_characteristic")]);
}

#[test]
fn every_request_on_a_disconnected_session_reports_not_connected() {
    let mut bridge = EventBridge::new();
    let mut device = connected_device(&mut bridge);
    let _ = device.disconnect();
    assert_eq!(device.read_characteristic(HEART_SERVICE, HEART_RATE, &mut bridge), None);
    assert_eq!(device.subscribe_characteristic(HEART_SERVICE, HEART_RATE, &mut bridge), None);
    assert_eq!(device.unsubscribe_characteristic(HEART_SERVICE, HEART_RATE, &mut bridge), None);
    assert_eq!(device.discover_services(&mut bridge), None);
    assert_eq!(
        bridge.drain_events(),
        vec![
            not_connected_report("read_characteristic"),
            not_connected_report("subscribe_characteristic"),
            not_connected_report("unsubscribe_characteristic"),
            not_connected_report("discover_services"),
        ]
    );
    assert_eq!(drain_logs(&mut bridge.logs).len(), 4);
}

#[test]
fn an_unmatched_uuid_dispatches_nothing_and_is_reported() {
    let mut bridge = EventBridge::new();
    let device = connected_device(&mut bridge);
    assert_eq!(device.read_characteristic(BATTERY_SERVICE, HEART_RATE, &mut bridge), None);
    let detail = format!("{} in service {}", HEART_RATE, BATTERY_SERVICE);
    assert_eq!(
        bridge.drain_events(),
        vec![QueuedEvent::OperationFailed(
            String::from("read_characteristic"),
            BleError::CharacteristicNotFound(detail.clone())
        )]
    );
    assert_eq!(
        drain_logs(&mut bridge.logs),
        vec![(
            LogLevel::Error,
            format!("CHARACTERISTIC_NOT_FOUND: Characteristic UUID not found: {}", detail)
        )]
    );
    assert_eq!(device.write_characteristic("x", "y", vec![], false, &mut bridge), None);
    assert_eq!(device.subscribe_characteristic("x", "y", &mut bridge), None);
    assert_eq!(device.unsubscribe_characteristic("x", "y", &mut bridge), None);
    let names: Vec<String> = bridge
        .drain_events()
        .into_iter()
        .map(|event| match event {
            QueuedEvent::OperationFailed(name, BleError::CharacteristicNotFound(detail)) => {
                assert_eq!(detail, "y in service x");
                name
            }
            other => panic!("unexpected event {:?}", other),
        })
        .collect();
    assert_eq!(
        names,
        vec!["write_characteristic", "subscribe_characteristic", "unsubscribe_characteristic"]
    );
}

#[test]
fn read_and_write_outcomes_are_reported() {
    let mut bridge = EventBridge::new();
    BleDevice::complete_read(String::from("2A19"), Ok(vec![87]), &mut bridge);
    BleDevice::complete_read(String::from("2A19"), Err(String::from("r")), &mut bridge);
    BleDevice::complete_write(String::from("2A06"), Ok(()), &mut bridge);
    BleDevice::complete_write(String::from("2A06"), Err(String::from("w")), &mut bridge);
    assert_eq!(
        bridge.drain_events(),
        vec![
            QueuedEvent::CharacteristicRead(String::from("2A19"), vec![87]),
            QueuedEvent::OperationFailed(
                String::from("read_characteristic"),
                BleError::ReadFailed(String::from("r"))
            ),
            QueuedEvent::CharacteristicWritten(String::from("2A06")),
            QueuedEvent::OperationFailed(
                String::from("write_characteristic"),
                BleError::WriteFailed(String::from("w"))
            ),
        ]
    );
    assert_eq!(
        drain_logs(&mut bridge.logs),
        vec![
            (LogLevel::Error, String::from("READ_FAILED: Characteristic read failed: r")),
            (LogLevel::Error, String::from("WRITE_FAILED: Characteristic write failed: w")),
        ]
    );
}

#[test]
fn a_subscription_is_recorded_in_lowercase() {
    let mut bridge = EventBridge::new();
    let mut device = connected_device(&mut bridge);
    device.complete_subscribe("00002A37-0000-1000-8000-00805F9B34FB", Ok(()), &mut bridge);
    assert_eq!(device.subscribed_characteristics(), vec![String::from(HEART_RATE)]);
    assert!(device.is_subscribed(HEART_RATE));
    assert!(device.is_subscribed("00002A37-0000-1000-8000-00805F9B34FB"));
    assert!(!device.is_subscribed(BATTERY_LEVEL));
    assert_eq!(bridge.pending(), 0);
}

#[test]
fn subscribing_twice_records_once() {
    let mut bridge = EventBridge::new();
    let mut device = connected_device(&mut bridge);
    device.complete_subscribe(HEART_RATE, Ok(()), &mut bridge);
    device.complete_subscribe(&HEART_RATE.to_uppercase(), Ok(()), &mut bridge);
    device.complete_subscribe(BATTERY_LEVEL, Ok(()), &mut bridge);
    assert_eq!(
        device.subscribed_characteristics(),
        vec![String::from(HEART_RATE), String::from(BATTERY_LEVEL)]
    );
}

#[test]
fn a_failed_subscribe_records_nothing() {
    let mut bridge = EventBridge::new();
    let mut device = connected_device(&mut bridge);
    device.complete_subscribe(HEART_RATE, Err(String::from("denied")), &mut bridge);
    assert!(device.subscribed_characteristics().is_empty());
    assert_eq!(
        bridge.drain_events(),
        vec![QueuedEvent::OperationFailed(
            String::from("subscribe_characteristic"),
            BleError::SubscribeFailed(String::from("denied"))
        )]
    );
}

#[test]
fn a_subscribe_that_completes_after_a_disconnect_records_nothing() {
    let mut bridge = EventBridge::new();
    let mut device = connected_device(&mut bridge);
    let _ = device.disconnect();
    device.complete_subscribe(HEART_RATE, Ok(()), &mut bridge);
    assert!(device.subscribed_characteristics().is_empty());
    assert_eq!(bridge.drain_events(), vec![not_connected_report("subscribe_characteristic")]);
}

#[test]
fn unsubscribe_removes_the_lowercase_form() {
    let mut bridge = EventBridge::new();
    let mut device = connected_device(&mut bridge);
    device.complete_subscribe(HEART_RATE, Ok(()), &mut bridge);
    device.complete_subscribe(BATTERY_LEVEL, Ok(()), &mut bridge);
    device.complete_unsubscribe(&HEART_RATE.to_uppercase(), Ok(()), &mut bridge);
    assert_eq!(device.subscribed_characteristics(), vec![String::from(BATTERY_LEVEL)]);
    device.complete_unsubscribe(HEART_RATE, Ok(()), &mut bridge);
    assert_eq!(device.subscribed_characteristics(), vec![String::from(BATTERY_LEVEL)]);
    assert_eq!(bridge.pending(), 0);
}

#[test]
fn a_failed_unsubscribe_keeps_the_subscription() {
    let mut bridge = EventBridge::new();
    let mut device = connected_device(&mut bridge);
    device.complete_subscribe(HEART_RATE, Ok(()), &mut bridge);
    device.complete_unsubscribe(HEART_RATE, Err(String::from("busy")), &mut bridge);
    assert!(device.is_subscribed(HEART_RATE));
    assert_eq!(
        bridge.drain_events(),
        vec![QueuedEvent::OperationFailed(
            String::from("unsubscribe_characteristic"),
            BleError::UnsubscribeFailed(String::from("busy"))
        )]
    );
}

#[test]
fn a_listener_forwards_only_its_own_characteristic() {
    let mut bridge = EventBridge::new();
    let mut device = connected_device(&mut bridge);
    let asked = HEART_RATE.to_uppercase();
    device.complete_subscribe(&asked, Ok(()), &mut bridge);
    device.complete_subscribe(BATTERY_LEVEL, Ok(()), &mut bridge);
    assert!(device.on_notification(&asked, HEART_RATE, vec![60], &mut bridge));
    assert!(device.on_notification(&asked, BATTERY_LEVEL, vec![99], &mut bridge));
    assert!(device.on_notification(BATTERY_LEVEL, BATTERY_LEVEL, vec![98], &mut bridge));
    assert_eq!(
        bridge.drain_events(),
        vec![
            QueuedEvent::CharacteristicNotified(asked, vec![60]),
            QueuedEvent::CharacteristicNotified(String::from(BATTERY_LEVEL), vec![98]),
        ]
    );
}

#[test]
fn subscriptions_by_key_are_recorded_as_given() {
    let mut bridge = EventBridge::new();
    let mut device = connected_device(&mut bridge);
    device.apply_subscribe(String::from("KEY"), Ok(()), &mut bridge);
    assert!(device.has_subscription(&String::from("KEY")));
    assert!(!device.has_subscription(&String::from("key")));
    assert!(!device.is_subscribed("KEY"));
    assert!(device.forward_notification(&String::from("KEY"), "u", "U", vec![1], &mut bridge));
    assert!(device.forward_notification(&String::from("KEY"), "u", "v", vec![2], &mut bridge));
    assert!(!device.forward_notification(&String::from("key"), "u", "u", vec![3], &mut bridge));
    assert_eq!(
        bridge.drain_events(),
        vec![QueuedEvent::CharacteristicNotified(String::from("u"), vec![1])]
    );
    device.apply_unsubscribe(&String::from("KEY"), Err(String::from("e")), &mut bridge);
    assert!(device.has_subscription(&String::from("KEY")));
    device.apply_unsubscribe(&String::from("KEY"), Ok(()), &mut bridge);
    assert!(!device.has_subscription(&String::from("KEY")));
    device.apply_subscribe(String::from("K2"), Err(String::from("e")), &mut bridge);
    assert!(device.subscribed_characteristics().is_empty());
}

#[test]
fn a_listener_stops_once_its_subscription_is_gone() {
    let mut bridge = EventBridge::new();
    let mut device = connected_device(&mut bridge);
    device.complete_subscribe(HEART_RATE, Ok(()), &mut bridge);
    device.complete_unsubscribe(HEART_RATE, Ok(()), &mut bridge);
    assert!(!device.on_notification(HEART_RATE, HEART_RATE, vec![60], &mut bridge));
    assert_eq!(bridge.pending(), 0);
}

#[test]
fn a_disconnect_request_ends_the_connection_at_once() {
    let mut bridge = EventBridge::new();
    let mut device = connected_device(&mut bridge);
    device.complete_subscribe(HEART_RATE, Ok(()), &mut bridge);
    assert_eq!(device.disconnect(), DeviceCommand::Disconnect);
    assert!(!device.is_connected());
    assert_eq!(device.connection_state(), ConnectionState::Disconnecting);
}

#[test]
fn a_completed_disconnect_leaves_nothing_recorded() {
    let mut bridge = EventBridge::new();
    let mut device = connected_device(&mut bridge);
    device.complete_subscribe(HEART_RATE, Ok(()), &mut bridge);
    let _ = device.disconnect();
    device.complete_disconnect(Ok(()), &mut bridge);
    assert_eq!(device.connection_state(), ConnectionState::Disconnected);
    assert!(device.subscribed_characteristics().is_empty());
    assert!(device.get_services().is_empty());
    assert_eq!(bridge.pending(), 0);
    assert!(drain_logs(&mut bridge.logs).is_empty());
}

#[test]
fn a_failed_disconnect_still_disconnects_and_is_only_logged() {
    let mut bridge = EventBridge::new();
    let mut device = connected_device(&mut bridge);
    device.complete_subscribe(HEART_RATE, Ok(()), &mut bridge);
    let _ = device.disconnect();
    device.complete_disconnect(Err(String::from("radio off")), &mut bridge);
    assert_eq!(device.connection_state(), ConnectionState::Disconnected);
    assert!(device.subscribed_characteristics().is_empty());
    assert!(device.get_services().is_empty());
    assert_eq!(bridge.pending(), 0);
    assert_eq!(
        drain_logs(&mut bridge.logs),
        vec![(
            LogLevel::Warn,
            String::from("OPERATION_FAILED: Operation failed: Disconnect failed: radio off")
        )]
    );
}

#[test]
fn a_link_lost_in_the_middle_of_work_leaves_nothing_recorded() {
    let mut bridge = EventBridge::new();
    let mut device = connected_device(&mut bridge);
    device.complete_subscribe(HEART_RATE, Ok(()), &mut bridge);
    device.complete_disconnect(Ok(()), &mut bridge);
    assert_eq!(device.connection_state(), ConnectionState::Disconnected);
    assert!(device.subscribed_characteristics().is_empty());
    assert!(device.get_services().is_empty());
}

#[test]
fn cleanup_of_a_connected_session_unsubscribes_and_disconnects() {
    let mut bridge = EventBridge::new();
    let mut device = connected_device(&mut bridge);
    device.complete_subscribe(HEART_RATE, Ok(()), &mut bridge);
    device.complete_subscribe(BATTERY_LEVEL, Ok(()), &mut bridge);
    assert_eq!(
        device.cleanup(),
        Some(DeviceCommand::Teardown {
            unsubscribe: vec![
                (String::from(HEART_SERVICE), String::from(HEART_RATE)),
                (String::from(BATTERY_SERVICE), String::from(BATTERY_LEVEL)),
            ]
        })
    );
    assert_eq!(device.connection_state(), ConnectionState::Disconnected);
    assert!(device.subscribed_characteristics().is_empty());
    assert!(device.get_services().is_empty());
}

#[test]
fn teardown_names_characteristics_as_the_cache_spells_them() {
    let mut bridge = EventBridge::new();
    let mut device = BleDevice::new(String::from("AA:BB"), String::new());
    let _ = device.connect_async(&mut bridge);
    device.complete_connect(Ok(()), &mut bridge);
    device.complete_discover(
        Ok(vec![
            DiscoveredService {
                uuid: String::from("S1"),
                characteristics: vec![DiscoveredCharacteristic {
                    uuid: String::from("ABCD"),
                    properties: 0x10,
                }],
            },
            DiscoveredService {
                uuid: String::from("S2"),
                characteristics: vec![
                    DiscoveredCharacteristic { uuid: String::from("abcd"), properties: 0x10 },
                    DiscoveredCharacteristic { uuid: String::from("EF01"), properties: 0x10 },
                ],
            },
        ]),
        &mut bridge,
    );
    assert_eq!(device.find_by_uuid("abcd"), Some((0, 0)));
    assert_eq!(device.find_by_uuid("ef01"), Some((1, 1)));
    assert_eq!(device.find_by_uuid("S1"), None);
    device.complete_subscribe("Ef01", Ok(()), &mut bridge);
    device.complete_subscribe("gone", Ok(()), &mut bridge);
    device.complete_subscribe("AbCd", Ok(()), &mut bridge);
    assert_eq!(
        device.teardown_list(&vec![String::from("abcd"), String::from("none")]),
        vec![(String::from("S1"), String::from("ABCD"))]
    );
    assert_eq!(
        device.cleanup(),
        Some(DeviceCommand::Teardown {
            unsubscribe: vec![
                (String::from("S2"), String::from("EF01")),
                (String::from("S1"), String::from("ABCD")),
            ]
        })
    );
}

#[test]
fn teardown_of_a_session_without_subscriptions_only_disconnects() {
    let mut bridge = EventBridge::new();
    let mut device = connected_device(&mut bridge);
    assert_eq!(device.cleanup(), Some(DeviceCommand::Teardown { unsubscribe: Vec::new() }));
}

#[test]
fn cleanup_of_an_unconnected_session_dispatches_nothing() {
    let mut bridge = EventBridge::new();
    let mut device = BleDevice::new(String::from("AA:BB"), String::new());
    assert_eq!(device.cleanup(), None);
    let _ = device.connect_async(&mut bridge);
    assert_eq!(device.cleanup(), None);
    assert_eq!(device.connection_state(), ConnectionState::Disconnected);
}

#[test]
fn a_session_can_connect_again_after_a_disconnect() {
    let mut bridge = EventBridge::new();
    let mut device = connected_device(&mut bridge);
    let _ = device.disconnect();
    device.complete_disconnect(Ok(()), &mut bridge);
    assert_eq!(device.connect_async(&mut bridge), Some(DeviceCommand::Connect));
    device.complete_connect(Ok(()), &mut bridge);
    assert!(device.is_connected());
    assert!(device.get_services().is_empty());
}

#[test]
fn operations_have_their_names_and_failures() {
    assert_eq!(operation_text(Operation::Read), "read_characteristic");
    assert_eq!(operation_text(Operation::Write), "write_characteristic");
    assert_eq!(operation_text(Operation::Subscribe), "subscribe_characteristic");
    assert_eq!(operation_text(Operation::Unsubscribe), "unsubscribe_characteristic");
    let e = || String::from("e");
    assert_eq!(stack_failure(Operation::Read, e()), BleError::ReadFailed(e()));
    assert_eq!(stack_failure(Operation::Write, e()), BleError::WriteFailed(e()));
    assert_eq!(stack_failure(Operation::Subscribe, e()), BleError::SubscribeFailed(e()));
    assert_eq!(stack_failure(Operation::Unsubscribe, e()), BleError::UnsubscribeFailed(e()));
}
