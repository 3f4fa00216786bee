//! The closed set of notifications that the presentation layer receives,
//! and how queued events become notifications.

use crate::ble_service::{clone_services, services_view, BleServiceInfo, ServiceView};
use crate::event_bridge::{events_view, EventView, QueuedEvent};
use crate::text::clone_bytes;
use crate::types::{message_of, DeviceInfo, DeviceRecord};
use vstd::prelude::*;

verus! {

/// One notification for the presentation layer. Those that concern one
/// device session carry its address first.
#[derive(Debug, PartialEq, Eq)]
pub enum Notification {
    AdapterInitialized(bool, String),
    DeviceDiscovered(DeviceInfo),
    DeviceUpdated(DeviceInfo),
    ScanStarted,
    ScanStopped,
    ErrorOccurred(String),
    DeviceConnecting(String),
    DeviceConnected(String),
    DeviceDisconnected(String),
    Connected(String),
    Disconnected(String),
    ConnectionFailed(String, String),
    ServicesDiscovered(String, Vec<BleServiceInfo>),
    CharacteristicRead(String, String, Vec<u8>),
    CharacteristicWritten(String, String),
    CharacteristicNotified(String, String, Vec<u8>),
    OperationFailed(String, String, String),
}

/// A notification as plain values.
pub enum NotificationView {
    AdapterInitialized(bool, Seq<char>),
    DeviceDiscovered(DeviceRecord),
    DeviceUpdated(DeviceRecord),
    ScanStarted,
    ScanStopped,
    ErrorOccurred(Seq<char>),
    DeviceConnecting(Seq<char>),
    DeviceConnected(Seq<char>),
    DeviceDisconnected(Seq<char>),
    Connected(Seq<char>),
    Disconnected(Seq<char>),
    ConnectionFailed(Seq<char>, Seq<char>),
    ServicesDiscovered(Seq<char>, Seq<ServiceView>),
    CharacteristicRead(Seq<char>, Seq<char>, Seq<u8>),
    CharacteristicWritten(Seq<char>, Seq<char>),
    CharacteristicNotified(Seq<char>, Seq<char>, Seq<u8>),
    OperationFailed(Seq<char>, Seq<char>, Seq<char>),
}

impl View for Notification {
    type V = NotificationView;

    open spec fn view(&self) -> NotificationView {
        match self {
            Notification::AdapterInitialized(ok, error) => NotificationView::AdapterInitialized(
                *ok,
                error@,
            ),
            Notification::DeviceDiscovered(d) => NotificationView::DeviceDiscovered(d@),
            Notification::DeviceUpdated(d) => NotificationView::DeviceUpdated(d@),
            Notification::ScanStarted => NotificationView::ScanStarted,
            Notification::ScanStopped => NotificationView::ScanStopped,
            Notification::ErrorOccurred(m) => NotificationView::ErrorOccurred(m@),
            Notification::DeviceConnecting(a) => NotificationView::DeviceConnecting(a@),
            Notification::DeviceConnected(a) => NotificationView::DeviceConnected(a@),
            Notification::DeviceDisconnected(a) => NotificationView::DeviceDisconnected(a@),
            Notification::Connected(a) => NotificationView::Connected(a@),
            Notification::Disconnected(a) => NotificationView::Disconnected(a@),
            Notification::ConnectionFailed(a, m) => NotificationView::ConnectionFailed(a@, m@),
            Notification::ServicesDiscovered(a, list) => NotificationView::ServicesDiscovered(
                a@,
                services_view(list@),
            ),
            Notification::CharacteristicRead(a, uuid, data) =>
                NotificationView::CharacteristicRead(a@, uuid@, data@),
            Notification::CharacteristicWritten(a, uuid) =>
                NotificationView::CharacteristicWritten(a@, uuid@),
            Notification::CharacteristicNotified(a, uuid, data) =>
                NotificationView::CharacteristicNotified(a@, uuid@, data@),
            Notification::OperationFailed(a, op, m) => NotificationView::OperationFailed(
                a@,
                op@,
                m@,
            ),
        }
    }
}

/// The notifications of a list as plain values, in order.
pub open spec fn notifications_view(items: Seq<Notification>) -> Seq<NotificationView> {
    Seq::new(items.len(), |i: int| items[i]@)
}

/// What an event of the adapter's queue is published as. A sighting is
/// passed on; the end of a scan is published as the scan having stopped,
/// after the error where it failed. An event of a device session is none of
/// the adapter's and is published as nothing.
pub open spec fn scan_notes(event: EventView) -> Seq<NotificationView> {
    match event {
        EventView::DeviceDiscovered(record) => seq![NotificationView::DeviceDiscovered(record)],
        EventView::DeviceUpdated(record) => seq![NotificationView::DeviceUpdated(record)],
        EventView::ScanCompleted(Ok(_)) => seq![NotificationView::ScanStopped],
        EventView::ScanCompleted(Err(error)) => seq![
            NotificationView::ErrorOccurred(message_of(error.0, error.1)),
            NotificationView::ScanStopped,
        ],
        _ => Seq::empty(),
    }
}

/// What an event of a device session's queue is published as, for the
/// session registered under `address`. A successful connection is announced
/// twice: as the session's own, and as the registry's. An error is published
/// by its message. An event of the adapter is none of a session's and is
/// published as nothing.
pub open spec fn device_notes(address: Seq<char>, event: EventView) -> Seq<NotificationView> {
    match event {
        EventView::ConnectSucceeded => seq![
            NotificationView::Connected(address),
            NotificationView::DeviceConnected(address),
        ],
        EventView::ConnectFailed(error) => seq![
            NotificationView::ConnectionFailed(address, message_of(error.0, error.1)),
        ],
        EventView::ServicesDiscovered(list) => seq![
            NotificationView::ServicesDiscovered(address, list),
        ],
        EventView::CharacteristicRead(uuid, data) => seq![
            NotificationView::CharacteristicRead(address, uuid, data),
        ],
        EventView::CharacteristicWritten(uuid) => seq![
            NotificationView::CharacteristicWritten(address, uuid),
        ],
        EventView::CharacteristicNotified(uuid, data) => seq![
            NotificationView::CharacteristicNotified(address, uuid, data),
        ],
        EventView::OperationFailed(operation, error) => seq![
            NotificationView::OperationFailed(address, operation, message_of(error.0, error.1)),
        ],
        _ => Seq::empty(),
    }
}

/// What the first `n` events of an adapter's queue are published as.
pub open spec fn scan_notes_of(events: Seq<EventView>, n: nat) -> Seq<NotificationView>
    decreases n,
{
    if n == 0 {
        Seq::empty()
    } else {
        scan_notes_of(events, (n - 1) as nat) + scan_notes(events[n - 1])
    }
}

/// What the first `n` events of a session's queue are published as.
pub open spec fn device_notes_of(address: Seq<char>, events: Seq<EventView>, n: nat) -> Seq<
    NotificationView,
>
    decreases n,
{
    if n == 0 {
        Seq::empty()
    } else {
        device_notes_of(address, events, (n - 1) as nat) + device_notes(address, events[n - 1])
    }
}

/// Appends to `out` what one event of the adapter's queue is published as.
pub fn publish_scan_event(event: &QueuedEvent, out: &mut Vec<Notification>)
    ensures
        notifications_view(final(out)@) == notifications_view(old(out)@) + scan_notes(event@),
{
    let ghost before = notifications_view(out@);
    match event {
        QueuedEvent::DeviceDiscovered(d) => {
            out.push(Notification::DeviceDiscovered(d.clone()));
            assert(notifications_view(out@) =~= before + scan_notes(event@));
        },
        QueuedEvent::DeviceUpdated(d) => {
            out.push(Notification::DeviceUpdated(d.clone()));
            assert(notifications_view(out@) =~= before + scan_notes(event@));
        },
        QueuedEvent::ScanCompleted(Ok(_)) => {
            out.push(Notification::ScanStopped);
            assert(notifications_view(out@) =~= before + scan_notes(event@));
        },
        QueuedEvent::ScanCompleted(Err(error)) => {
            out.push(Notification::ErrorOccurred(error.to_string()));
            out.push(Notification::ScanStopped);
            assert(notifications_view(out@) =~= before + scan_notes(event@));
        },
        _ => {
            assert(notifications_view(out@) =~= before + scan_notes(event@));
        },
    }
}

/// Appends to `out` what one event of a session's queue is published as.
pub fn publish_device_event(address: &String, event: &QueuedEvent, out: &mut Vec<Notification>)
    ensures
        notifications_view(final(out)@) == notifications_view(old(out)@) + device_notes(
            address@,
            event@,
        ),
{
    let ghost before = notifications_view(out@);
    match event {
        QueuedEvent::ConnectSucceeded => {
            out.push(Notification::Connected(address.clone()));
            out.push(Notification::DeviceConnected(address.clone()));
        },
        QueuedEvent::ConnectFailed(error) => {
            out.push(Notification::ConnectionFailed(address.clone(), error.to_string()));
        },
        QueuedEvent::ServicesDiscovered(list) => {
            out.push(Notification::ServicesDiscovered(address.clone(), clone_services(list)));
        },
        QueuedEvent::CharacteristicRead(uuid, data) => {
            out.push(
                Notification::CharacteristicRead(address.clone(), uuid.clone(), clone_bytes(data)),
            );
        },
        QueuedEvent::CharacteristicWritten(uuid) => {
            out.push(Notification::CharacteristicWritten(address.clone(), uuid.clone()));
        },
        QueuedEvent::CharacteristicNotified(uuid, data) => {
            out.push(
                Notification::CharacteristicNotified(
                    address.clone(),
                    uuid.clone(),
                    clone_bytes(data),
                ),
            );
        },
        QueuedEvent::OperationFailed(operation, error) => {
            out.push(
                Notification::OperationFailed(
                    address.clone(),
                    operation.clone(),
                    error.to_string(),
                ),
            );
        },
        _ => {},
    }
    assert(notifications_view(out@) =~= before + device_notes(address@, event@));
}

/// Appends to `out` what the events of an adapter's queue are published as,
/// in order.
pub fn publish_scan_events(events: &Vec<QueuedEvent>, out: &mut Vec<Notification>)
    ensures
        notifications_view(final(out)@) == notifications_view(old(out)@) + scan_notes_of(
            events_view(events@),
            events.len() as nat,
        ),
{
    let ghost before = notifications_view(out@);
    let ghost stream = events_view(events@);
    let mut i: usize = 0;
    assert(notifications_view(out@) =~= before + scan_notes_of(stream, 0));
    while i < events.len()
        invariant
            i <= events.len(),
            stream == events_view(events@),
            notifications_view(out@) == before + scan_notes_of(stream, i as nat),
        decreases events.len() - i,
    {
        publish_scan_event(&events[i], out);
        assert(stream[i as int] == events@[i as int]@);
        assert(notifications_view(out@) =~= before + scan_notes_of(stream, (i + 1) as nat));
        i += 1;
    }
}

/// Appends to `out` what the events of a session's queue are published as,
/// in order.
pub fn publish_device_events(
    address: &String,
    events: &Vec<QueuedEvent>,
    out: &mut Vec<Notification>,
)
    ensures
        notifications_view(final(out)@) == notifications_view(old(out)@) + device_notes_of(
            address@,
            events_view(events@),
            events.len() as nat,
        ),
{
    let ghost before = notifications_view(out@);
    let ghost stream = events_view(events@);
    let mut i: usize = 0;
    assert(notifications_view(out@) =~= before + device_notes_of(address@, stream, 0));
    while i < events.len()
        invariant
            i <= events.len(),
            stream == events_view(events@),
            notifications_view(out@) == before + device_notes_of(address@, stream, i as nat),
        decreases events.len() - i,
    {
        publish_device_event(address, &events[i], out);
        assert(stream[i as int] == events@[i as int]@);
        assert(notifications_view(out@) =~= before + device_notes_of(
            address@,
            stream,
            (i + 1) as nat,
        ));
        i += 1;
    }
}

} // verus!
