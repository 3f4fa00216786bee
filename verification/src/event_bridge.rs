//! The delivery channel between worker tasks and the consumer: a queue of
//! domain events and, beside it, the diagnostic queue. Producers append; the
//! consumer takes everything out at once, in the order received.

use crate::ble_service::{services_view, BleServiceInfo, ServiceView};
use crate::types::{BleError, DeviceInfo, DeviceRecord, ErrorKind, LogQueue};
use vstd::prelude::*;

verus! {

/// What a worker task reports to the consumer.
#[derive(Debug, PartialEq, Eq)]
pub enum QueuedEvent {
    ConnectSucceeded,
    ConnectFailed(BleError),
    ServicesDiscovered(Vec<BleServiceInfo>),
    CharacteristicRead(String, Vec<u8>),
    CharacteristicWritten(String),
    CharacteristicNotified(String, Vec<u8>),
    OperationFailed(String, BleError),
    DeviceDiscovered(DeviceInfo),
    DeviceUpdated(DeviceInfo),
    ScanCompleted(Result<(), BleError>),
}

/// An event as plain values.
pub enum EventView {
    ConnectSucceeded,
    ConnectFailed((ErrorKind, Seq<char>)),
    ServicesDiscovered(Seq<ServiceView>),
    CharacteristicRead(Seq<char>, Seq<u8>),
    CharacteristicWritten(Seq<char>),
    CharacteristicNotified(Seq<char>, Seq<u8>),
    OperationFailed(Seq<char>, (ErrorKind, Seq<char>)),
    DeviceDiscovered(DeviceRecord),
    DeviceUpdated(DeviceRecord),
    ScanCompleted(Result<(), (ErrorKind, Seq<char>)>),
}

impl View for QueuedEvent {
    type V = EventView;

    open spec fn view(&self) -> EventView {
        match self {
            QueuedEvent::ConnectSucceeded => EventView::ConnectSucceeded,
            QueuedEvent::ConnectFailed(e) => EventView::ConnectFailed(e@),
            QueuedEvent::ServicesDiscovered(list) => EventView::ServicesDiscovered(
                services_view(list@),
            ),
            QueuedEvent::CharacteristicRead(uuid, data) => EventView::CharacteristicRead(
                uuid@,
                data@,
            ),
            QueuedEvent::CharacteristicWritten(uuid) => EventView::CharacteristicWritten(uuid@),
            QueuedEvent::CharacteristicNotified(uuid, data) => EventView::CharacteristicNotified(
                uuid@,
                data@,
            ),
            QueuedEvent::OperationFailed(op, e) => EventView::OperationFailed(op@, e@),
            QueuedEvent::DeviceDiscovered(d) => EventView::DeviceDiscovered(d@),
            QueuedEvent::DeviceUpdated(d) => EventView::DeviceUpdated(d@),
            QueuedEvent::ScanCompleted(r) => EventView::ScanCompleted(
                match r {
                    Ok(_) => Ok(()),
                    Err(e) => Err(e@),
                },
            ),
        }
    }
}

/// The events of a list as plain values, in order.
pub open spec fn events_view(items: Seq<QueuedEvent>) -> Seq<EventView> {
    Seq::new(items.len(), |i: int| items[i]@)
}

/// The two queues that carry results and diagnostics to the consumer.
pub struct EventBridge {
    pub queue: Vec<QueuedEvent>,
    pub logs: LogQueue,
}

/// What one drain does: `out` holds what `before` had queued, in the same
/// order, `after` has no event left, and the diagnostics are as they were.
pub open spec fn drained(before: EventBridge, out: Seq<QueuedEvent>, after: EventBridge) -> bool {
    &&& events_view(out) == before.events()
    &&& after.events() == Seq::<EventView>::empty()
    &&& after.logs == before.logs
}

impl EventBridge {
    /// The queued events as plain values, oldest first.
    pub open spec fn events(&self) -> Seq<EventView> {
        events_view(self.queue@)
    }

    /// A bridge with both queues empty and debug mode off.
    pub fn new() -> (r: EventBridge)
        ensures
            r.events() == Seq::<EventView>::empty(),
            r.logs.lines() == Seq::<(crate::types::LogLevel, Seq<char>)>::empty(),
            !r.logs.debug_mode(),
    {
        let r = EventBridge { queue: Vec::new(), logs: LogQueue::new() };
        assert(r.events() =~= Seq::<EventView>::empty());
        r
    }

    /// Appends one event behind those already queued.
    pub fn push_event(&mut self, event: QueuedEvent)
        ensures
            final(self).events() == old(self).events().push(event@),
            final(self).logs == old(self).logs,
    {
        self.queue.push(event);
        assert(self.events() =~= old(self).events().push(event@));
    }

    /// The number of queued events.
    pub fn pending(&self) -> (r: usize)
        ensures
            r == self.events().len(),
    {
        self.queue.len()
    }

    /// Takes every queued event out, oldest first, and leaves the event queue
    /// empty. The diagnostic queue is not touched.
    pub fn drain_events(&mut self) -> (out: Vec<QueuedEvent>)
        ensures
            drained(*old(self), out@, *final(self)),
    {
        let mut out: Vec<QueuedEvent> = Vec::new();
        std::mem::swap(&mut self.queue, &mut out);
        assert(self.events() =~= Seq::<EventView>::empty());
        out
    }
}

/// Draining removes every item exactly once: the first of two drains in a
/// row hands out everything that was queued, in order, and the second hands
/// out nothing.
pub proof fn lemma_drain_twice(
    before: EventBridge,
    first: Seq<QueuedEvent>,
    between: EventBridge,
    second: Seq<QueuedEvent>,
    after: EventBridge,
)
    requires
        drained(before, first, between),
        drained(between, second, after),
    ensures
        events_view(first) == before.events(),
        first.len() == before.queue.len(),
        second.len() == 0,
        after.events().len() == 0,
{
    assert(events_view(second).len() == second.len());
    assert(events_view(first).len() == first.len());
}

} // verus!
