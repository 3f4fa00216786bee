//! The scan state machine: idle or scanning, the cache of devices seen in
//! the current scan, and what each event of the adapter's stream leads to.
//!
//! The scanner performs no radio operation itself. Starting and stopping
//! hand back the command to dispatch; the collection loop feeds each event
//! of the stream, with the time since the scan began, to the scanner, which
//! says whether the loop goes on.

use crate::event_bridge::{EventBridge, EventView, QueuedEvent};
use crate::types::{log_line_of, BleError, DeviceInfo, DeviceRecord, ErrorKind, LogLevel};
use vstd::prelude::*;
use vstd::string::*;

verus! {

/// The most events that one scan processes. The ceiling ends the collection
/// even where the stream never does.
pub const MAX_SCAN_EVENTS: usize = 1000;

/// What the adapter's stream announced. A sighting carries the record built
/// from the peripheral's properties, or nothing where they could not be had.
#[derive(Debug, PartialEq, Eq)]
pub enum ScanEventKind {
    DeviceDiscovered(Option<DeviceInfo>),
    DeviceUpdated(Option<DeviceInfo>),
    Other,
}

/// One event of the adapter's stream and the time, since the scan began, at
/// which it arrived.
#[derive(Debug, PartialEq, Eq)]
pub struct ScanEvent {
    pub elapsed_ms: u64,
    pub kind: ScanEventKind,
}

/// What the stream announced, as plain values.
pub enum ScanEventKindView {
    DeviceDiscovered(Option<DeviceRecord>),
    DeviceUpdated(Option<DeviceRecord>),
    Other,
}

/// A stream event as plain values.
pub struct ScanEventView {
    pub elapsed_ms: u64,
    pub kind: ScanEventKindView,
}

/// An optional record as plain values.
pub open spec fn optional_record_view(r: Option<DeviceInfo>) -> Option<DeviceRecord> {
    match r {
        Some(d) => Some(d@),
        None => None,
    }
}

impl View for ScanEventKind {
    type V = ScanEventKindView;

    open spec fn view(&self) -> ScanEventKindView {
        match self {
            ScanEventKind::DeviceDiscovered(r) => ScanEventKindView::DeviceDiscovered(
                optional_record_view(*r),
            ),
            ScanEventKind::DeviceUpdated(r) => ScanEventKindView::DeviceUpdated(
                optional_record_view(*r),
            ),
            ScanEventKind::Other => ScanEventKindView::Other,
        }
    }
}

impl View for ScanEvent {
    type V = ScanEventView;

    open spec fn view(&self) -> ScanEventView {
        ScanEventView { elapsed_ms: self.elapsed_ms, kind: self.kind@ }
    }
}

/// The stream events of a list as plain values, in order.
pub open spec fn scan_events_view(items: Seq<ScanEvent>) -> Seq<ScanEventView> {
    Seq::new(items.len(), |i: int| items[i]@)
}

/// An adapter operation for the worker runtime to perform.
#[derive(Clone, Copy, Debug, PartialEq, Eq, Structural)]
pub enum ScanCommand {
    /// Start the adapter's scan and collect its events for this long.
    Start { duration_ms: u64 },
    /// Stop the adapter's scan.
    Stop,
}

/// Whether the collection loop goes on after an event, and if not, why.
#[derive(Clone, Copy, Debug, PartialEq, Eq, Structural)]
pub enum ScanStep {
    /// The event was processed; the loop goes on.
    Continue,
    /// The scan's duration has elapsed; the event was not processed.
    TimedOut,
    /// The ceiling was reached; the event was not processed.
    LimitReached,
    /// No scan is in progress; the event was not processed.
    Stopped,
}

/// How a collection over a batch of events ended.
#[derive(Clone, Copy, Debug, PartialEq, Eq, Structural)]
pub enum CollectEnd {
    /// Every event of the batch was processed.
    Exhausted,
    /// The loop ended at an event, for the reason given.
    Halted(ScanStep),
}

/// A scanner as plain values.
pub struct ScannerView {
    pub scanning: bool,
    pub duration_ms: u64,
    pub processed: nat,
    pub cache: Seq<DeviceRecord>,
}

/// Whether the cache holds a record for the address.
pub open spec fn knows(cache: Seq<DeviceRecord>, address: Seq<char>) -> bool {
    exists|i: int| 0 <= i < cache.len() && #[trigger] cache[i].address == address
}

/// No two records of the cache share an address.
pub open spec fn distinct_addresses(cache: Seq<DeviceRecord>) -> bool {
    forall|i: int, j: int|
        0 <= i < cache.len() && 0 <= j < cache.len() && i != j ==> #[trigger] cache[i].address
            != #[trigger] cache[j].address
}

/// The position of the record for an address that the cache knows.
pub open spec fn position_of(cache: Seq<DeviceRecord>, address: Seq<char>) -> int {
    choose|i: int| 0 <= i < cache.len() && #[trigger] cache[i].address == address
}

/// The cache after a record was stored: it takes the place of the record
/// with the same address, or comes last where there was none.
pub open spec fn stored(cache: Seq<DeviceRecord>, record: DeviceRecord) -> Seq<DeviceRecord> {
    if knows(cache, record.address) {
        cache.update(position_of(cache, record.address), record)
    } else {
        cache.push(record)
    }
}

/// What one event leads to.
pub struct StepView {
    pub state: ScannerView,
    pub emitted: Seq<EventView>,
    pub step: ScanStep,
}

/// Whether an event is processed, and if not, why.
pub open spec fn admission(v: ScannerView, elapsed_ms: u64) -> ScanStep {
    if !v.scanning {
        ScanStep::Stopped
    } else if elapsed_ms >= v.duration_ms {
        ScanStep::TimedOut
    } else if v.processed >= MAX_SCAN_EVENTS {
        ScanStep::LimitReached
    } else {
        ScanStep::Continue
    }
}

/// What one event of the stream leads to. An event that is not processed
/// changes nothing. A processed event is counted; a discovery with a record
/// stores it and is announced; an update with a record stores it and is
/// announced only where the cache knew the address before.
pub open spec fn step(v: ScannerView, event: ScanEventView) -> StepView {
    let verdict = admission(v, event.elapsed_ms);
    if verdict != ScanStep::Continue {
        StepView { state: v, emitted: Seq::empty(), step: verdict }
    } else {
        let counted = ScannerView { processed: v.processed + 1, ..v };
        match event.kind {
            ScanEventKindView::DeviceDiscovered(Some(record)) => StepView {
                state: ScannerView { cache: stored(v.cache, record), ..counted },
                emitted: seq![EventView::DeviceDiscovered(record)],
                step: ScanStep::Continue,
            },
            ScanEventKindView::DeviceUpdated(Some(record)) => StepView {
                state: ScannerView { cache: stored(v.cache, record), ..counted },
                emitted: if knows(v.cache, record.address) {
                    seq![EventView::DeviceUpdated(record)]
                } else {
                    Seq::empty()
                },
                step: ScanStep::Continue,
            },
            _ => StepView { state: counted, emitted: Seq::empty(), step: ScanStep::Continue },
        }
    }
}

/// The cache of a list of records as plain values, in order.
pub open spec fn records_view(items: Seq<DeviceInfo>) -> Seq<DeviceRecord> {
    Seq::new(items.len(), |i: int| items[i]@)
}

/// The scan state machine.
pub struct BluetoothScanner {
    scanning: bool,
    duration_ms: u64,
    processed: usize,
    devices: Vec<DeviceInfo>,
}

impl View for BluetoothScanner {
    type V = ScannerView;

    closed spec fn view(&self) -> ScannerView {
        ScannerView {
            scanning: self.scanning,
            duration_ms: self.duration_ms,
            processed: self.processed as nat,
            cache: records_view(self.devices@),
        }
    }
}

/// A scanner is valid when no two cached records share an address and the
/// count of processed events is within the ceiling.
pub open spec fn scanner_consistent(v: ScannerView) -> bool {
    &&& distinct_addresses(v.cache)
    &&& v.processed <= MAX_SCAN_EVENTS
}

impl BluetoothScanner {
    /// The scanner is valid.
    pub open spec fn wf(&self) -> bool {
        scanner_consistent(self@)
    }

    /// An idle scanner with an empty cache.
    pub fn new() -> (r: BluetoothScanner)
        ensures
            r.wf(),
            r@ == (ScannerView {
                scanning: false,
                duration_ms: 0,
                processed: 0,
                cache: Seq::<DeviceRecord>::empty(),
            }),
    {
        let r = BluetoothScanner {
            scanning: false,
            duration_ms: 0,
            processed: 0,
            devices: Vec::new(),
        };
        assert(records_view(r.devices@) =~= Seq::<DeviceRecord>::empty());
        r
    }

    /// Whether a scan is in progress.
    pub fn is_scanning(&self) -> (r: bool)
        ensures
            r == self@.scanning,
    {
        self.scanning
    }

    /// The number of events processed in the current scan.
    pub fn processed_events(&self) -> (r: usize)
        ensures
            r == self@.processed,
    {
        self.processed
    }

    /// A snapshot of the cache, in the order in which the addresses were
    /// first seen.
    pub fn get_devices(&self) -> (r: Vec<DeviceInfo>)
        ensures
            records_view(r@) == self@.cache,
    {
        let mut out: Vec<DeviceInfo> = Vec::new();
        let mut i: usize = 0;
        while i < self.devices.len()
            invariant
                i <= self.devices.len(),
                out.len() == i,
                forall|j: int| 0 <= j < i ==> out@[j]@ == self.devices@[j]@,
            decreases self.devices.len() - i,
        {
            out.push(self.devices[i].clone());
            i += 1;
        }
        assert(records_view(out@) =~= self@.cache);
        out
    }

    /// Begins a scan. While a scan is in progress the request is refused
    /// with `ScanFailed`, which is logged as a warning, and nothing changes.
    /// Otherwise the scanner is scanning from now on, with an empty cache and
    /// no event counted, and the command that starts the adapter's scan is
    /// handed back.
    pub fn start_scan(&mut self, duration_ms: u64, sink: &mut EventBridge) -> (r: Result<
        ScanCommand,
        BleError,
    >)
        requires
            old(self).wf(),
        ensures
            final(self).wf(),
            final(sink).events() == old(sink).events(),
            final(sink).logs.debug_mode() == old(sink).logs.debug_mode(),
            old(self)@.scanning ==> {
                &&& r matches Err(e)
                &&& e@ == (ErrorKind::ScanFailed, "already scanning"@)
                &&& final(self)@ == old(self)@
                &&& final(sink).logs.lines() == old(sink).logs.lines().push(
                    (LogLevel::Warn, log_line_of(ErrorKind::ScanFailed, "already scanning"@)),
                )
            },
            !old(self)@.scanning ==> {
                &&& r matches Ok(command)
                &&& command == (ScanCommand::Start { duration_ms })
                &&& final(self)@ == (ScannerView {
                    scanning: true,
                    duration_ms,
                    processed: 0,
                    cache: Seq::<DeviceRecord>::empty(),
                })
                &&& final(sink).logs.lines() == old(sink).logs.lines()
            },
    {
        if self.scanning {
            let error = BleError::ScanFailed(String::from_str("already scanning"));
            error.log_warning(&mut sink.logs);
            return Err(error);
        }
        self.scanning = true;
        self.duration_ms = duration_ms;
        self.processed = 0;
        self.devices.clear();
        assert(records_view(self.devices@) =~= Seq::<DeviceRecord>::empty());
        Ok(ScanCommand::Start { duration_ms })
    }

    /// Takes the outcome of starting the adapter's scan. Success changes
    /// nothing. After a failure the scanner is idle again, and the failure is
    /// logged and signalled as the scan's completion.
    pub fn scan_started(&mut self, outcome: Result<(), String>, sink: &mut EventBridge) -> (r:
        Result<(), BleError>)
        requires
            old(self).wf(),
        ensures
            final(self).wf(),
            final(sink).logs.debug_mode() == old(sink).logs.debug_mode(),
            match outcome {
                Ok(_) => {
                    &&& r is Ok
                    &&& final(self)@ == old(self)@
                    &&& *final(sink) == *old(sink)
                },
                Err(detail) => {
                    &&& r matches Err(e)
                    &&& e@ == (ErrorKind::ScanFailed, detail@)
                    &&& final(self)@ == (ScannerView { scanning: false, ..old(self)@ })
                    &&& final(sink).events() == old(sink).events().push(
                        EventView::ScanCompleted(Err((ErrorKind::ScanFailed, detail@))),
                    )
                    &&& final(sink).logs.lines() == old(sink).logs.lines().push(
                        (LogLevel::Error, log_line_of(ErrorKind::ScanFailed, detail@)),
                    )
                },
            },
    {
        match outcome {
            Ok(_) => Ok(()),
            Err(detail) => {
                self.scanning = false;
                let error = BleError::ScanFailed(detail);
                error.log_error(&mut sink.logs);
                sink.push_event(QueuedEvent::ScanCompleted(Err(error.clone())));
                Err(error)
            },
        }
    }

    /// Stops a scan on request. An idle scanner does nothing. A scanning one
    /// is idle at once, so that the next start is not refused, and the
    /// command that stops the adapter's scan is handed back.
    pub fn stop_scan(&mut self) -> (r: Option<ScanCommand>)
        requires
            old(self).wf(),
        ensures
            final(self).wf(),
            final(self)@ == (ScannerView { scanning: false, ..old(self)@ }),
            r == if old(self)@.scanning {
                Some(ScanCommand::Stop)
            } else {
                None
            },
    {
        if !self.scanning {
            return None;
        }
        self.scanning = false;
        Some(ScanCommand::Stop)
    }
}

impl BluetoothScanner {
    /// The position in the cache of the record for an address, if there is
    /// one.
    fn find(&self, address: &String) -> (r: Option<usize>)
        requires
            self.wf(),
        ensures
            r.is_some() == knows(self@.cache, address@),
            match r {
                Some(i) => i < self.devices.len() && i == position_of(self@.cache, address@),
                None => true,
            },
    {
        let ghost cache = self@.cache;
        let mut i: usize = 0;
        while i < self.devices.len()
            invariant
                i <= self.devices.len(),
                cache == self@.cache,
                cache.len() == self.devices.len(),
                distinct_addresses(cache),
                forall|j: int| 0 <= j < i ==> #[trigger] cache[j].address != address@,
            decreases self.devices.len() - i,
        {
            assert(cache[i as int] == self.devices@[i as int]@);
            if self.devices[i].address == *address {
                assert(cache[i as int].address == address@);
                assert(knows(cache, address@));
                let ghost p = position_of(cache, address@);
                assert(cache[p].address == address@);
                assert(p == i);
                return Some(i);
            }
            i += 1;
        }
        None
    }

    /// Stores a record in the cache, in the place of the record with the
    /// same address or behind the others, and says whether the cache knew
    /// the address before.
    fn store(&mut self, record: DeviceInfo) -> (r: bool)
        requires
            old(self).wf(),
        ensures
            final(self).wf(),
            r == knows(old(self)@.cache, record@.address),
            final(self)@ == (ScannerView {
                cache: stored(old(self)@.cache, record@),
                ..old(self)@
            }),
    {
        let ghost before = self@.cache;
        match self.find(&record.address) {
            Some(i) => {
                self.devices.set(i, record);
                proof {
                    let after = self@.cache;
                    assert(after =~= before.update(i as int, record@));
                    assert forall|a: int, b: int|
                        0 <= a < after.len() && 0 <= b < after.len() && a != b implies #[trigger]
                        after[a].address != #[trigger] after[b].address by {
                        assert(before[a].address != before[b].address);
                    }
                }
                true
            },
            None => {
                self.devices.push(record);
                proof {
                    let after = self@.cache;
                    assert(after =~= before.push(record@));
                    assert forall|a: int, b: int|
                        0 <= a < after.len() && 0 <= b < after.len() && a != b implies #[trigger]
                        after[a].address != #[trigger] after[b].address by {
                        if a < before.len() && b < before.len() {
                            assert(before[a].address != before[b].address);
                        } else if a < before.len() {
                            assert(before[a].address != record@.address);
                        } else {
                            assert(before[b].address != record@.address);
                        }
                    }
                }
                false
            },
        }
    }

    /// Whether an event that arrives at the given time would be processed,
    /// and if not, why. The collection loop asks this before it fetches what
    /// the event needs, so that nothing is fetched for an event that is not
    /// processed.
    pub fn verdict(&self, elapsed_ms: u64) -> (r: ScanStep)
        ensures
            r == admission(self@, elapsed_ms),
    {
        if !self.scanning {
            ScanStep::Stopped
        } else if elapsed_ms >= self.duration_ms {
            ScanStep::TimedOut
        } else if self.processed >= MAX_SCAN_EVENTS {
            ScanStep::LimitReached
        } else {
            ScanStep::Continue
        }
    }

    /// Takes one event of the adapter's stream and says whether the
    /// collection loop goes on. What the event leads to is [`step`]: the
    /// scanner is in the state that `step` gives, and what `step` emits is
    /// queued behind the events already in the sink.
    pub fn process_event(&mut self, event: ScanEvent, sink: &mut EventBridge) -> (r: ScanStep)
        requires
            old(self).wf(),
        ensures
            final(self).wf(),
            final(self)@ == step(old(self)@, event@).state,
            r == step(old(self)@, event@).step,
            final(sink).events() == old(sink).events() + step(old(self)@, event@).emitted,
            final(sink).logs == old(sink).logs,
    {
        let verdict = self.verdict(event.elapsed_ms);
        if verdict != ScanStep::Continue {
            assert(sink.events() =~= old(sink).events() + Seq::<EventView>::empty());
            return verdict;
        }
        self.processed = self.processed + 1;
        match event.kind {
            ScanEventKind::DeviceDiscovered(Some(record)) => {
                let copy = record.clone();
                self.store(record);
                sink.push_event(QueuedEvent::DeviceDiscovered(copy));
                assert(sink.events() =~= old(sink).events() + seq![
                    EventView::DeviceDiscovered(record@),
                ]);
            },
            ScanEventKind::DeviceUpdated(Some(record)) => {
                let copy = record.clone();
                let known = self.store(record);
                if known {
                    sink.push_event(QueuedEvent::DeviceUpdated(copy));
                    assert(sink.events() =~= old(sink).events() + seq![
                        EventView::DeviceUpdated(record@),
                    ]);
                } else {
                    assert(sink.events() =~= old(sink).events() + Seq::<EventView>::empty());
                }
            },
            _ => {
                assert(sink.events() =~= old(sink).events() + Seq::<EventView>::empty());
            },
        }
        ScanStep::Continue
    }
}

impl Clone for ScanEvent {
    fn clone(&self) -> (r: Self)
        ensures
            r@ == self@,
    {
        let kind = match &self.kind {
            ScanEventKind::DeviceDiscovered(Some(d)) => ScanEventKind::DeviceDiscovered(
                Some(d.clone()),
            ),
            ScanEventKind::DeviceDiscovered(None) => ScanEventKind::DeviceDiscovered(None),
            ScanEventKind::DeviceUpdated(Some(d)) => ScanEventKind::DeviceUpdated(Some(d.clone())),
            ScanEventKind::DeviceUpdated(None) => ScanEventKind::DeviceUpdated(None),
            ScanEventKind::Other => ScanEventKind::Other,
        };
        ScanEvent { elapsed_ms: self.elapsed_ms, kind }
    }
}

/// The scanner after the first `n` events of a stream were fed to it, one
/// after the other.
pub open spec fn state_after(v: ScannerView, events: Seq<ScanEventView>, n: nat) -> ScannerView
    decreases n,
{
    if n == 0 {
        v
    } else {
        step(state_after(v, events, (n - 1) as nat), events[n - 1]).state
    }
}

/// What the first `n` events of a stream led the scanner to emit, in order.
pub open spec fn emitted_during(v: ScannerView, events: Seq<ScanEventView>, n: nat) -> Seq<
    EventView,
>
    decreases n,
{
    if n == 0 {
        Seq::empty()
    } else {
        emitted_during(v, events, (n - 1) as nat) + step(
            state_after(v, events, (n - 1) as nat),
            events[n - 1],
        ).emitted
    }
}

/// What the scanner says to event `k` of a stream, after the events before
/// it.
pub open spec fn verdict_at(v: ScannerView, events: Seq<ScanEventView>, k: int) -> ScanStep {
    step(state_after(v, events, k as nat), events[k]).step
}

/// How a collection over a batch ended, and how many events it processed.
#[derive(Clone, Copy, Debug, PartialEq, Eq, Structural)]
pub struct Collected {
    pub end: CollectEnd,
    pub consumed: usize,
}

/// What a collection over a batch yields: the events before the first one
/// that halts the loop are processed, and no other.
pub open spec fn collected(v: ScannerView, events: Seq<ScanEventView>, r: Collected) -> bool {
    &&& r.consumed <= events.len()
    &&& forall|k: int| 0 <= k < r.consumed ==> verdict_at(v, events, k) == ScanStep::Continue
    &&& if r.consumed == events.len() {
        r.end == CollectEnd::Exhausted
    } else {
        &&& verdict_at(v, events, r.consumed as int) != ScanStep::Continue
        &&& r.end == CollectEnd::Halted(verdict_at(v, events, r.consumed as int))
    }
}

impl BluetoothScanner {
    /// Feeds the events of a batch to the scanner, in order, until one halts
    /// the loop or the batch is exhausted.
    pub fn collect_devices(&mut self, events: &Vec<ScanEvent>, sink: &mut EventBridge) -> (r:
        Collected)
        requires
            old(self).wf(),
        ensures
            final(self).wf(),
            collected(old(self)@, scan_events_view(events@), r),
            final(self)@ == state_after(
                old(self)@,
                scan_events_view(events@),
                r.consumed as nat,
            ),
            final(sink).events() == old(sink).events() + emitted_during(
                old(self)@,
                scan_events_view(events@),
                r.consumed as nat,
            ),
            final(sink).logs == old(sink).logs,
    {
        let ghost start = self@;
        let ghost stream = scan_events_view(events@);
        let mut i: usize = 0;
        assert(sink.events() =~= old(sink).events() + emitted_during(start, stream, 0));
        while i < events.len()
            invariant
                i <= events.len(),
                self.wf(),
                start == old(self)@,
                stream == scan_events_view(events@),
                self@ == state_after(start, stream, i as nat),
                forall|k: int| 0 <= k < i ==> verdict_at(start, stream, k) == ScanStep::Continue,
                sink.events() == old(sink).events() + emitted_during(start, stream, i as nat),
                sink.logs == old(sink).logs,
            decreases events.len() - i,
        {
            let ghost queued = sink.events();
            let event = events[i].clone();
            assert(event@ == stream[i as int]);
            let verdict = self.process_event(event, sink);
            if verdict != ScanStep::Continue {
                assert(self@ == state_after(start, stream, i as nat));
                assert(sink.events() =~= queued);
                return Collected { end: CollectEnd::Halted(verdict), consumed: i };
            }
            proof {
                let emitted = step(state_after(start, stream, i as nat), stream[i as int]).emitted;
                assert(emitted_during(start, stream, (i + 1) as nat) == emitted_during(
                    start,
                    stream,
                    i as nat,
                ) + emitted);
                assert(sink.events() =~= old(sink).events() + emitted_during(
                    start,
                    stream,
                    (i + 1) as nat,
                ));
            }
            i += 1;
        }
        Collected { end: CollectEnd::Exhausted, consumed: i }
    }

    /// Ends the scan once the collection is over and the adapter was told
    /// to stop. The scanner is idle afterwards, and the scan's completion is
    /// signalled: with the failure to stop where the adapter could not be
    /// stopped, else with the failure to obtain the stream where the
    /// collection could not begin, else with success. A failure is logged.
    pub fn finish_scan(
        &mut self,
        collection: Result<(), String>,
        stopping: Result<(), String>,
        sink: &mut EventBridge,
    ) -> (r: Result<(), BleError>)
        requires
            old(self).wf(),
        ensures
            final(self).wf(),
            final(self)@ == (ScannerView { scanning: false, ..old(self)@ }),
            scan_result(collection, stopping) matches Ok(_) ==> {
                &&& r is Ok
                &&& final(sink).events() == old(sink).events().push(
                    EventView::ScanCompleted(Ok(())),
                )
                &&& final(sink).logs == old(sink).logs
            },
            scan_result(collection, stopping) matches Err(failure) ==> {
                &&& r matches Err(e)
                &&& e@ == (ErrorKind::ScanFailed, failure)
                &&& final(sink).events() == old(sink).events().push(
                    EventView::ScanCompleted(Err((ErrorKind::ScanFailed, failure))),
                )
                &&& final(sink).logs.lines() == old(sink).logs.lines().push(
                    (LogLevel::Error, log_line_of(ErrorKind::ScanFailed, failure)),
                )
                &&& final(sink).logs.debug_mode() == old(sink).logs.debug_mode()
            },
    {
        self.scanning = false;
        let failure = match stopping {
            Err(detail) => Some(String::from_str("Failed to stop scan: ").concat(detail.as_str())),
            Ok(_) => match collection {
                Err(detail) => Some(
                    String::from_str("Failed to get events: ").concat(detail.as_str()),
                ),
                Ok(_) => None,
            },
        };
        match failure {
            None => {
                sink.push_event(QueuedEvent::ScanCompleted(Ok(())));
                Ok(())
            },
            Some(detail) => {
                let error = BleError::ScanFailed(detail);
                error.log_error(&mut sink.logs);
                sink.push_event(QueuedEvent::ScanCompleted(Err(error.clone())));
                Err(error)
            },
        }
    }
}

/// How a scan ends, as the detail of its failure or as success: a failure to
/// stop the adapter comes before a failure to obtain the stream.
pub open spec fn scan_result(collection: Result<(), String>, stopping: Result<(), String>)
    -> Result<(), Seq<char>> {
    match stopping {
        Err(detail) => Err("Failed to stop scan: "@ + detail@),
        Ok(_) => match collection {
            Err(detail) => Err("Failed to get events: "@ + detail@),
            Ok(_) => Ok(()),
        },
    }
}

/// Whether a stream event carries a record for the address.
pub open spec fn sights(event: ScanEventView, address: Seq<char>) -> bool {
    match event.kind {
        ScanEventKindView::DeviceDiscovered(Some(record)) => record.address == address,
        ScanEventKindView::DeviceUpdated(Some(record)) => record.address == address,
        _ => false,
    }
}

/// Whether a stream event is a discovery with a record for the address.
pub open spec fn discovers(event: ScanEventView, address: Seq<char>) -> bool {
    event.kind matches ScanEventKindView::DeviceDiscovered(Some(record)) && record.address
        == address
}

/// Whether a stream event is an update with a record for the address.
pub open spec fn updates(event: ScanEventView, address: Seq<char>) -> bool {
    event.kind matches ScanEventKindView::DeviceUpdated(Some(record)) && record.address == address
}

/// Whether event `n` of a stream led the scanner to announce an update for
/// the address.
pub open spec fn announces_update(
    v: ScannerView,
    events: Seq<ScanEventView>,
    n: int,
    address: Seq<char>,
) -> bool {
    exists|record: DeviceRecord|
        record.address == address && #[trigger] step(
            state_after(v, events, n as nat),
            events[n],
        ).emitted.contains(EventView::DeviceUpdated(record))
}

/// Storing a record keeps the addresses distinct, makes its address known
/// and leaves every other address as it was.
pub proof fn lemma_stored(cache: Seq<DeviceRecord>, record: DeviceRecord)
    requires
        distinct_addresses(cache),
    ensures
        distinct_addresses(stored(cache, record)),
        forall|a: Seq<char>|
            knows(stored(cache, record), a) == (a == record.address || knows(cache, a)),
{
    let after = stored(cache, record);
    if knows(cache, record.address) {
        let p = position_of(cache, record.address);
        assert(cache[p].address == record.address);
        assert forall|i: int, j: int|
            0 <= i < after.len() && 0 <= j < after.len() && i != j implies #[trigger]
            after[i].address != #[trigger] after[j].address by {
            assert(cache[i].address != cache[j].address);
        }
        assert forall|a: Seq<char>|
            knows(after, a) == (a == record.address || knows(cache, a)) by {
            if knows(after, a) {
                let i = choose|i: int| 0 <= i < after.len() && #[trigger] after[i].address == a;
                if i != p {
                    assert(cache[i].address == a);
                }
            }
            if a == record.address {
                assert(after[p].address == a);
            } else if knows(cache, a) {
                let i = choose|i: int| 0 <= i < cache.len() && #[trigger] cache[i].address == a;
                assert(i != p);
                assert(after[i].address == a);
            }
        }
    } else {
        assert forall|i: int, j: int|
            0 <= i < after.len() && 0 <= j < after.len() && i != j implies #[trigger]
            after[i].address != #[trigger] after[j].address by {
            if i < cache.len() && j < cache.len() {
                assert(cache[i].address != cache[j].address);
            } else if i < cache.len() {
                assert(cache[i].address != record.address);
            } else {
                assert(cache[j].address != record.address);
            }
        }
        assert forall|a: Seq<char>|
            knows(after, a) == (a == record.address || knows(cache, a)) by {
            if knows(after, a) {
                let i = choose|i: int| 0 <= i < after.len() && #[trigger] after[i].address == a;
                if i < cache.len() {
                    assert(cache[i].address == a);
                }
            }
            if a == record.address {
                assert(after[cache.len() as int].address == a);
            } else if knows(cache, a) {
                let i = choose|i: int| 0 <= i < cache.len() && #[trigger] cache[i].address == a;
                assert(after[i].address == a);
            }
        }
    }
}

/// One event leaves a valid scanner valid, does not change whether it is
/// scanning, and makes known at most the address that the event sights.
pub proof fn lemma_step(v: ScannerView, event: ScanEventView)
    requires
        scanner_consistent(v),
    ensures
        scanner_consistent(step(v, event).state),
        step(v, event).state.scanning == v.scanning,
        step(v, event).state.duration_ms == v.duration_ms,
        forall|a: Seq<char>|
            knows(step(v, event).state.cache, a) ==> knows(v.cache, a) || sights(event, a),
        forall|a: Seq<char>| knows(v.cache, a) ==> knows(step(v, event).state.cache, a),
{
    if admission(v, event.elapsed_ms) == ScanStep::Continue {
        match event.kind {
            ScanEventKindView::DeviceDiscovered(Some(record)) => {
                lemma_stored(v.cache, record);
            },
            ScanEventKindView::DeviceUpdated(Some(record)) => {
                lemma_stored(v.cache, record);
            },
            _ => {},
        }
    }
}

/// An update is announced only for an address that the cache knew before
/// the event.
pub proof fn lemma_update_only_for_known(
    v: ScannerView,
    event: ScanEventView,
    record: DeviceRecord,
)
    requires
        step(v, event).emitted.contains(EventView::DeviceUpdated(record)),
    ensures
        knows(v.cache, record.address),
        updates(event, record.address),
{
    let emitted = step(v, event).emitted;
    let i = choose|i: int| 0 <= i < emitted.len() && emitted[i] == EventView::DeviceUpdated(record);
    assert(emitted[i] == EventView::DeviceUpdated(record));
}

/// Feeding events to a valid scanner leaves it valid and does not change
/// whether it is scanning: a scanner is scanning from the start of a scan
/// until it is stopped or finished, and at no other time.
pub proof fn lemma_events_keep_scanning(v: ScannerView, events: Seq<ScanEventView>, n: nat)
    requires
        scanner_consistent(v),
    ensures
        scanner_consistent(state_after(v, events, n)),
        state_after(v, events, n).scanning == v.scanning,
        state_after(v, events, n).duration_ms == v.duration_ms,
    decreases n,
{
    if n > 0 {
        lemma_events_keep_scanning(v, events, (n - 1) as nat);
        lemma_step(state_after(v, events, (n - 1) as nat), events[n - 1]);
    }
}

/// Every address that the cache knows after `n` events of a scan that began
/// with an empty cache was sighted by one of those events.
pub proof fn lemma_known_was_sighted(
    v: ScannerView,
    events: Seq<ScanEventView>,
    n: nat,
    address: Seq<char>,
)
    requires
        scanner_consistent(v),
        v.cache.len() == 0,
        knows(state_after(v, events, n).cache, address),
    ensures
        exists|m: int| 0 <= m < n && sights(#[trigger] events[m], address),
    decreases n,
{
    if n > 0 {
        let before = state_after(v, events, (n - 1) as nat);
        lemma_events_keep_scanning(v, events, (n - 1) as nat);
        lemma_step(before, events[n - 1]);
        if knows(before.cache, address) {
            lemma_known_was_sighted(v, events, (n - 1) as nat, address);
            let m = choose|m: int| 0 <= m < n - 1 && sights(#[trigger] events[m], address);
            assert(0 <= m < n && sights(events[m], address));
        } else {
            assert(sights(events[n - 1], address));
        }
    }
}

/// In a scan that began with an empty cache, an update is announced only
/// for an address that an earlier event of the same scan sighted.
pub proof fn lemma_updates_follow_sightings(
    v: ScannerView,
    events: Seq<ScanEventView>,
    n: nat,
    address: Seq<char>,
)
    requires
        scanner_consistent(v),
        v.cache.len() == 0,
        announces_update(v, events, n as int, address),
    ensures
        updates(events[n as int], address),
        exists|m: int| 0 <= m < n && sights(#[trigger] events[m], address),
{
    let before = state_after(v, events, n);
    let record = choose|record: DeviceRecord|
        record.address == address && #[trigger] step(before, events[n as int]).emitted.contains(
            EventView::DeviceUpdated(record),
        );
    lemma_update_only_for_known(before, events[n as int], record);
    lemma_known_was_sighted(v, events, n, address);
}

/// In a scan that began with an empty cache, an update is announced only
/// for an address that an earlier event of the same scan discovered,
/// provided that the stream does not update an address twice before it
/// discovers it.
pub proof fn lemma_updates_follow_discoveries(
    v: ScannerView,
    events: Seq<ScanEventView>,
    n: nat,
    address: Seq<char>,
)
    requires
        scanner_consistent(v),
        v.cache.len() == 0,
        announces_update(v, events, n as int, address),
        forall|m: int|
            0 <= m < n && updates(#[trigger] events[m], address) ==> exists|d: int|
                0 <= d < n && discovers(#[trigger] events[d], address),
    ensures
        exists|d: int| 0 <= d < n && discovers(#[trigger] events[d], address),
{
    lemma_updates_follow_sightings(v, events, n, address);
    let m = choose|m: int| 0 <= m < n && sights(#[trigger] events[m], address);
    if !discovers(events[m], address) {
        assert(updates(events[m], address));
    }
}

/// While every event is processed, each one is counted: after `n` events of
/// which none halted the loop, the count has grown by `n`.
pub proof fn lemma_processed_counts(v: ScannerView, events: Seq<ScanEventView>, n: nat)
    requires
        forall|k: int| 0 <= k < n ==> verdict_at(v, events, k) == ScanStep::Continue,
    ensures
        state_after(v, events, n).processed == v.processed + n,
    decreases n,
{
    if n > 0 {
        lemma_processed_counts(v, events, (n - 1) as nat);
        assert(verdict_at(v, events, n - 1) == ScanStep::Continue);
    }
}

/// A collection ends at the ceiling: from the start of a scan, at most
/// `MAX_SCAN_EVENTS` events are processed, however long the stream, and a
/// scanning collection that has processed that many halts at the next event.
pub proof fn lemma_ceiling(v: ScannerView, events: Seq<ScanEventView>, r: Collected)
    requires
        v.processed == 0,
        collected(v, events, r),
    ensures
        r.consumed <= MAX_SCAN_EVENTS,
        r.consumed == MAX_SCAN_EVENTS && events.len() > MAX_SCAN_EVENTS ==> r.end
            != CollectEnd::Exhausted,
{
    if r.consumed > MAX_SCAN_EVENTS {
        lemma_processed_counts(v, events, MAX_SCAN_EVENTS as nat);
        assert(verdict_at(v, events, MAX_SCAN_EVENTS as int) == ScanStep::Continue);
    }
}

} // verus!
