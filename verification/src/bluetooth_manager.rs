//! The coordinator: the adapter's lifecycle, the scanner, and the registry
//! that holds at most one device session per address.
//!
//! The coordinator performs no radio operation itself. Each command decides
//! what is to be done and hands back what the worker runtime must dispatch;
//! what the presentation layer is to hear is collected in an outbox, which
//! the consumer takes once per tick.

use crate::ble_device::{
    teardown_of, BleDevice, CommandView, ConnectionState, DeviceCommand, SessionView,
};
use crate::bluetooth_scanner::{
    admission, records_view, scan_result, step, BluetoothScanner, ScanCommand, ScanEvent, ScanStep,
    ScannerView,
};
use crate::event_bridge::{EventBridge, EventView};
use crate::notification::{
    device_notes_of, notifications_view, publish_device_events, publish_scan_events,
    scan_notes_of, Notification, NotificationView,
};
use crate::text::{clone_texts, eq_ignore_ascii_case, same_ignoring_case, texts_view};
use crate::types::{
    append_logs, drain_logs, is_debug_mode, lines_of, log_if_debug, log_line_of, message_of,
    set_debug_mode,
    AdapterInfo, BleError, DeviceInfo, DeviceRecord, ErrorKind, LogLevel,
};
use vstd::prelude::*;
use vstd::string::*;

verus! {

/// Where the adapter's acquisition stands.
#[derive(Clone, Copy, Debug, PartialEq, Eq, Structural)]
pub enum AdapterState {
    Uninitialized,
    Initializing,
    Ready,
    Failed,
}

/// One device session of the registry together with the queue that carries
/// its events to the consumer.
pub struct Session {
    pub device: BleDevice,
    pub events: EventBridge,
}

/// A registry entry as plain values.
pub struct EntryView {
    pub key: Seq<char>,
    pub device: SessionView,
    pub events: Seq<EventView>,
    pub logs: Seq<(LogLevel, Seq<char>)>,
}

/// A coordinator as plain values.
pub struct ManagerView {
    pub state: AdapterState,
    pub scanner: ScannerView,
    pub entries: Seq<EntryView>,
    pub adapter_events: Seq<EventView>,
    pub logs: Seq<(LogLevel, Seq<char>)>,
    pub debug: bool,
    pub outbox: Seq<NotificationView>,
}

/// The entry for a session registered under a key.
pub open spec fn entry_of(key: String, session: Session) -> EntryView {
    EntryView {
        key: key@,
        device: session.device@,
        events: session.events.events(),
        logs: session.events.logs.lines(),
    }
}

/// The entries of a registry, in registration order.
pub open spec fn entries_of(keys: Seq<String>, sessions: Seq<Session>) -> Seq<EntryView> {
    Seq::new(keys.len(), |i: int| entry_of(keys[i], sessions[i]))
}

/// Whether a session is registered under the address.
pub open spec fn registered(entries: Seq<EntryView>, address: Seq<char>) -> bool {
    exists|i: int| 0 <= i < entries.len() && #[trigger] entries[i].key == address
}

/// The place of the session registered under an address.
pub open spec fn place_of(entries: Seq<EntryView>, address: Seq<char>) -> int {
    choose|i: int| 0 <= i < entries.len() && #[trigger] entries[i].key == address
}

/// No two entries share a key.
pub open spec fn distinct_keys(entries: Seq<EntryView>) -> bool {
    forall|i: int, j: int|
        0 <= i < entries.len() && 0 <= j < entries.len() && i != j ==> #[trigger] entries[i].key
            != #[trigger] entries[j].key
}

/// A registry is valid when every session is valid and no two sessions are
/// registered under the same address.
pub open spec fn registry_wf(keys: Seq<String>, sessions: Seq<Session>) -> bool {
    &&& keys.len() == sessions.len()
    &&& distinct_keys(entries_of(keys, sessions))
    &&& forall|i: int| 0 <= i < sessions.len() ==> (#[trigger] sessions[i]).device.wf()
}

/// The name under which the adapter is described.
pub open spec fn adapter_name() -> Seq<char> {
    "System Bluetooth Adapter"@
}

/// The coordinator.
pub struct BluetoothManager {
    state: AdapterState,
    scanner: BluetoothScanner,
    keys: Vec<String>,
    sessions: Vec<Session>,
    bridge: EventBridge,
    outbox: Vec<Notification>,
}

impl View for BluetoothManager {
    type V = ManagerView;

    closed spec fn view(&self) -> ManagerView {
        ManagerView {
            state: self.state,
            scanner: self.scanner@,
            entries: entries_of(self.keys@, self.sessions@),
            adapter_events: self.bridge.events(),
            logs: self.bridge.logs.lines(),
            debug: self.bridge.logs.debug_mode(),
            outbox: notifications_view(self.outbox@),
        }
    }
}

impl BluetoothManager {
    /// The sessions of the registry, in registration order.
    pub closed spec fn sessions(&self) -> Seq<Session> {
        self.sessions@
    }

    /// The coordinator is valid: the scanner and every session are valid,
    /// and no two sessions are registered under the same address.
    pub closed spec fn wf(&self) -> bool {
        &&& self.scanner.wf()
        &&& registry_wf(self.keys@, self.sessions@)
    }

    /// A coordinator with no adapter, an idle scanner, an empty registry and
    /// nothing queued.
    pub fn new() -> (r: BluetoothManager)
        ensures
            r.wf(),
            r@ == (ManagerView {
                state: AdapterState::Uninitialized,
                scanner: ScannerView {
                    scanning: false,
                    duration_ms: 0,
                    processed: 0,
                    cache: Seq::empty(),
                },
                entries: Seq::empty(),
                adapter_events: Seq::empty(),
                logs: Seq::empty(),
                debug: false,
                outbox: Seq::empty(),
            }),
    {
        let r = BluetoothManager {
            state: AdapterState::Uninitialized,
            scanner: BluetoothScanner::new(),
            keys: Vec::new(),
            sessions: Vec::new(),
            bridge: EventBridge::new(),
            outbox: Vec::new(),
        };
        assert(r@.entries =~= Seq::<EntryView>::empty());
        assert(r@.outbox =~= Seq::<NotificationView>::empty());
        r
    }

    /// Turns debug mode on or off.
    pub fn set_debug_mode(&mut self, enabled: bool)
        requires
            old(self).wf(),
        ensures
            final(self).wf(),
            final(self)@ == (ManagerView { debug: enabled, ..old(self)@ }),
            final(self).sessions() == old(self).sessions(),
    {
        set_debug_mode(&mut self.bridge.logs, enabled);
    }

    /// Whether debug mode is on.
    pub fn is_debug_mode(&self) -> (r: bool)
        ensures
            r == self@.debug,
    {
        is_debug_mode(&self.bridge.logs)
    }

    /// Writes a diagnostic line to the coordinator's log if debug mode is
    /// on, and nothing otherwise.
    pub fn log(&mut self, level: LogLevel, message: String)
        requires
            old(self).wf(),
        ensures
            final(self).wf(),
            final(self).sessions() == old(self).sessions(),
            final(self)@ == if old(self)@.debug {
                ManagerView { logs: old(self)@.logs.push((level, message@)), ..old(self)@ }
            } else {
                old(self)@
            },
    {
        log_if_debug(&mut self.bridge.logs, level, message);
    }

    /// Whether the adapter is ready.
    pub fn is_initialized(&self) -> (r: bool)
        ensures
            r == (self@.state == AdapterState::Ready),
    {
        self.state == AdapterState::Ready
    }

    /// Where the adapter's acquisition stands.
    pub fn adapter_state(&self) -> (r: AdapterState)
        ensures
            r == self@.state,
    {
        self.state
    }

    /// A description of the adapter, once it is ready.
    pub fn get_adapter_info(&self) -> (r: Option<AdapterInfo>)
        ensures
            r.is_some() == (self@.state == AdapterState::Ready),
            match r {
                Some(info) => info.name@ == adapter_name() && info.address is None,
                None => true,
            },
    {
        if self.state == AdapterState::Ready {
            Some(AdapterInfo::new(String::from_str("System Bluetooth Adapter"), None))
        } else {
            None
        }
    }

    /// The place of the session registered under an address, if there is
    /// one.
    fn find(&self, address: &str) -> (r: Option<usize>)
        requires
            self.wf(),
        ensures
            r.is_some() == registered(self@.entries, address@),
            match r {
                Some(i) => i < self.sessions.len() && i == place_of(self@.entries, address@),
                None => true,
            },
    {
        let ghost entries = self@.entries;
        let mut i: usize = 0;
        while i < self.keys.len()
            invariant
                i <= self.keys.len(),
                self.wf(),
                entries == self@.entries,
                entries.len() == self.keys.len(),
                forall|j: int| 0 <= j < i ==> #[trigger] entries[j].key != address@,
            decreases self.keys.len() - i,
        {
            assert(entries[i as int].key == self.keys@[i as int]@);
            if eq_text(&self.keys[i], address) {
                assert(registered(entries, address@));
                let ghost p = place_of(entries, address@);
                assert(entries[p].key == address@);
                assert(p == i);
                return Some(i);
            }
            i += 1;
        }
        None
    }

    /// Whether a session is registered under the address.
    pub fn has_device(&self, address: &str) -> (r: bool)
        requires
            self.wf(),
        ensures
            r == registered(self@.entries, address@),
    {
        self.find(address).is_some()
    }

    /// The session registered under an address.
    pub fn get_device(&self, address: &str) -> (r: Option<&BleDevice>)
        requires
            self.wf(),
        ensures
            r.is_some() == registered(self@.entries, address@),
            match r {
                Some(device) => device.wf() && device@ == self@.entries[place_of(
                    self@.entries,
                    address@,
                )].device,
                None => true,
            },
    {
        match self.find(address) {
            Some(i) => {
                assert(self@.entries[i as int].device == self.sessions@[i as int].device@);
                Some(&self.sessions[i].device)
            },
            None => None,
        }
    }

    /// The addresses under which sessions are registered, in registration
    /// order.
    pub fn get_connected_devices(&self) -> (r: Vec<String>)
        requires
            self.wf(),
        ensures
            texts_view(r@) == Seq::new(self@.entries.len(), |i: int| self@.entries[i].key),
    {
        let r = clone_texts(&self.keys);
        assert(texts_view(r@) =~= Seq::new(self@.entries.len(), |i: int| self@.entries[i].key));
        r
    }

    /// The session registered under an address, with its queue, for a
    /// request or a completion to act on. The registry holds afterwards what
    /// the caller left in the session; everything else is as it was. The
    /// coordinator stays valid as long as the session does.
    pub fn session_mut(&mut self, address: &str) -> (r: Option<&mut Session>)
        requires
            old(self).wf(),
        ensures
            r.is_some() == registered(old(self)@.entries, address@),
            match r {
                Some(session) => {
                    let i = place_of(old(self)@.entries, address@);
                    &&& *session == old(self).sessions()[i]
                    &&& session.device.wf()
                    &&& final(self).sessions() == old(self).sessions().update(i, *final(session))
                    &&& final(self)@ == (ManagerView {
                        entries: old(self)@.entries.update(
                            i,
                            (EntryView {
                                key: address@,
                                device: final(session).device@,
                                events: final(session).events.events(),
                                logs: final(session).events.logs.lines(),
                            }),
                        ),
                        ..old(self)@
                    })
                    &&& final(session).device.wf() ==> final(self).wf()
                },
                None => *final(self) == *old(self),
            },
    {
        match self.find(address) {
            Some(i) => {
                let ghost keys = self.keys@;
                let ghost before = self.sessions@;
                let ghost entries = self@.entries;
                assert(entries[i as int].key == address@);
                assert(before[i as int].device.wf());
                proof {
                    assert forall|s: Session|
                        #![trigger before.update(i as int, s)]
                        entries_of(keys, before.update(i as int, s)) == entries.update(
                            i as int,
                            entry_of(keys[i as int], s),
                        ) && (s.device.wf() ==> registry_wf(keys, before.update(i as int, s))) by {
                        let after = before.update(i as int, s);
                        assert(entries_of(keys, after) =~= entries.update(
                            i as int,
                            entry_of(keys[i as int], s),
                        ));
                        if s.device.wf() {
                            assert forall|a: int, b: int|
                                0 <= a < keys.len() && 0 <= b < keys.len() && a != b implies (
                                #[trigger] entries_of(keys, after)[a]).key != (
                                #[trigger] entries_of(keys, after)[b]).key by {
                                assert(entries[a].key != entries[b].key);
                            }
                            assert forall|a: int| 0 <= a < after.len() implies (
                            #[trigger] after[a]).device.wf() by {
                                if a != i {
                                    assert(before[a].device.wf());
                                }
                            }
                        }
                    }
                }
                let session = &mut self.sessions[i];
                Some(session)
            },
            None => None,
        }
    }
}

/// Whether two texts are the same.
fn eq_text(a: &String, b: &str) -> (r: bool)
    ensures
        r == (a@ == b@),
{
    let other = String::from_str(b);
    *a == other
}

/// The address that stands for "no physical address".
pub open spec fn null_address() -> Seq<char> {
    "00:00:00:00:00:00"@
}

/// A peripheral that the adapter knows: its platform identifier, its
/// physical address where the platform reveals one, and its name where it
/// announced one.
#[derive(Debug, PartialEq, Eq)]
pub struct PeripheralInfo {
    pub id: String,
    pub address: Option<String>,
    pub name: Option<String>,
}

/// Whether a peripheral answers to an address: by its platform identifier,
/// or else by its physical address where it has one that is not the null
/// address. Letter case is disregarded.
pub open spec fn peripheral_matches(p: PeripheralInfo, address: Seq<char>) -> bool {
    same_ignoring_case(p.id@, address) || match p.address {
        Some(physical) => !same_ignoring_case(physical@, null_address()) && same_ignoring_case(
            physical@,
            address,
        ),
        None => false,
    }
}

/// Whether some peripheral of the list answers to the address.
pub open spec fn known_peripheral(peripherals: Seq<PeripheralInfo>, address: Seq<char>) -> bool {
    exists|k: int| 0 <= k < peripherals.len() && peripheral_matches(#[trigger] peripherals[k], address)
}

/// Whether peripheral `k` is the first of the list that answers to the
/// address.
pub open spec fn is_first_peripheral(
    peripherals: Seq<PeripheralInfo>,
    k: int,
    address: Seq<char>,
) -> bool {
    &&& 0 <= k < peripherals.len()
    &&& peripheral_matches(peripherals[k], address)
    &&& forall|j: int| 0 <= j < k ==> !peripheral_matches(#[trigger] peripherals[j], address)
}

/// The first peripheral of the list that answers to the address.
pub fn resolve_peripheral(peripherals: &Vec<PeripheralInfo>, address: &str) -> (r: Option<usize>)
    ensures
        r.is_some() == known_peripheral(peripherals@, address@),
        match r {
            Some(k) => is_first_peripheral(peripherals@, k as int, address@),
            None => true,
        },
{
    let mut k: usize = 0;
    while k < peripherals.len()
        invariant
            k <= peripherals.len(),
            forall|j: int| 0 <= j < k ==> !peripheral_matches(#[trigger] peripherals@[j], address@),
        decreases peripherals.len() - k,
    {
        let p = &peripherals[k];
        if eq_ignore_ascii_case(p.id.as_str(), address) {
            return Some(k);
        }
        match &p.address {
            Some(physical) => {
                if !eq_ignore_ascii_case(physical.as_str(), "00:00:00:00:00:00")
                    && eq_ignore_ascii_case(physical.as_str(), address) {
                    return Some(k);
                }
            },
            None => {},
        }
        k += 1;
    }
    None
}

/// The name of a session for a peripheral: the name it announced, or the
/// empty text.
pub open spec fn session_name(p: PeripheralInfo) -> Seq<char> {
    match p.name {
        Some(name) => name@,
        None => Seq::empty(),
    }
}

/// The coordinator after an error was published: its message is in the
/// outbox and its line in the log, and nothing else has changed.
pub open spec fn errored(
    before: ManagerView,
    after: ManagerView,
    kind: ErrorKind,
    detail: Seq<char>,
) -> bool {
    after == (ManagerView {
        outbox: before.outbox.push(NotificationView::ErrorOccurred(message_of(kind, detail))),
        logs: before.logs.push((LogLevel::Error, log_line_of(kind, detail))),
        ..before
    })
}

/// What `connect_device` yields.
#[derive(Clone, Copy, Debug, PartialEq, Eq, Structural)]
pub enum ConnectStart {
    /// A session was already registered under the address; nothing is to be
    /// dispatched.
    Existing,
    /// A session was registered for the peripheral at this place of the
    /// list; a connect is to be dispatched on it.
    Started(usize),
}

/// How many adapters the stack offered, or why it could not say.
pub open spec fn acquisition_error(outcome: Result<usize, String>) -> Option<
    (ErrorKind, Seq<char>),
> {
    match outcome {
        Ok(count) => if count == 0 {
            Some((ErrorKind::AdapterNotFound, Seq::empty()))
        } else {
            None
        },
        Err(detail) => Some((ErrorKind::InitializationFailed, detail@)),
    }
}

impl BluetoothManager {
    /// Publishes an error: its message goes to the outbox, its line to the
    /// log.
    fn fail(&mut self, error: BleError)
        requires
            old(self).wf(),
        ensures
            final(self).wf(),
            final(self).sessions() == old(self).sessions(),
            errored(old(self)@, final(self)@, error@.0, error@.1),
    {
        error.log_error(&mut self.bridge.logs);
        self.outbox.push(Notification::ErrorOccurred(error.to_string()));
        assert(self@.outbox =~= old(self)@.outbox.push(
            NotificationView::ErrorOccurred(message_of(error@.0, error@.1)),
        ));
    }

    /// Appends one notification to the outbox.
    fn notify(&mut self, notification: Notification)
        requires
            old(self).wf(),
        ensures
            final(self).wf(),
            final(self).sessions() == old(self).sessions(),
            final(self)@ == (ManagerView {
                outbox: old(self)@.outbox.push(notification@),
                ..old(self)@
            }),
    {
        self.outbox.push(notification);
        assert(self@.outbox =~= old(self)@.outbox.push(notification@));
    }

    /// Begins the adapter's acquisition. A ready coordinator announces
    /// success again and asks for nothing. Any other is initializing from
    /// now on, and the result says that the adapter is to be acquired.
    pub fn initialize(&mut self) -> (r: bool)
        requires
            old(self).wf(),
        ensures
            final(self).wf(),
            final(self).sessions() == old(self).sessions(),
            r == (old(self)@.state != AdapterState::Ready),
            final(self)@ == if old(self)@.state == AdapterState::Ready {
                ManagerView {
                    outbox: old(self)@.outbox.push(
                        NotificationView::AdapterInitialized(true, Seq::empty()),
                    ),
                    ..old(self)@
                }
            } else {
                ManagerView { state: AdapterState::Initializing, ..old(self)@ }
            },
    {
        if self.state == AdapterState::Ready {
            self.notify(Notification::AdapterInitialized(true, String::new()));
            return false;
        }
        self.state = AdapterState::Initializing;
        true
    }

    /// Takes the outcome of the adapter's acquisition: the number of
    /// adapters that the stack offered, or why it could not say. A ready
    /// coordinator ignores it. With one adapter or more the coordinator is
    /// ready and announces success. With none, or with a failure, it has
    /// failed, announces the failure with the error's message, and publishes
    /// the error.
    pub fn complete_initialize(&mut self, outcome: Result<usize, String>)
        requires
            old(self).wf(),
        ensures
            final(self).wf(),
            final(self).sessions() == old(self).sessions(),
            old(self)@.state == AdapterState::Ready ==> final(self)@ == old(self)@,
            old(self)@.state != AdapterState::Ready ==> match acquisition_error(outcome) {
                None => final(self)@ == (ManagerView {
                    state: AdapterState::Ready,
                    outbox: old(self)@.outbox.push(
                        NotificationView::AdapterInitialized(true, Seq::empty()),
                    ),
                    ..old(self)@
                }),
                Some(error) => final(self)@ == (ManagerView {
                    state: AdapterState::Failed,
                    outbox: old(self)@.outbox.push(
                        NotificationView::AdapterInitialized(false, message_of(error.0, error.1)),
                    ).push(NotificationView::ErrorOccurred(message_of(error.0, error.1))),
                    logs: old(self)@.logs.push(
                        (LogLevel::Error, log_line_of(error.0, error.1)),
                    ),
                    ..old(self)@
                }),
            },
    {
        if self.state == AdapterState::Ready {
            return ;
        }
        let failure = match outcome {
            Ok(count) => if count == 0 {
                Some(BleError::AdapterNotFound)
            } else {
                None
            },
            Err(detail) => Some(BleError::InitializationFailed(detail)),
        };
        match failure {
            None => {
                self.state = AdapterState::Ready;
                self.notify(Notification::AdapterInitialized(true, String::new()));
            },
            Some(error) => {
                self.state = AdapterState::Failed;
                self.notify(Notification::AdapterInitialized(false, error.to_string()));
                self.fail(error);
            },
        }
    }
}

/// The detail of the error that refuses a command before the adapter is
/// ready.
pub open spec fn not_initialized() -> Seq<char> {
    "Adapter not initialized"@
}

/// The entry of a session that was just registered for a peripheral and has
/// begun to connect.
pub open spec fn fresh_entry(address: Seq<char>, p: PeripheralInfo) -> EntryView {
    EntryView {
        key: address,
        device: SessionView {
            address: p.id@,
            name: session_name(p),
            state: ConnectionState::Connecting,
            services: Seq::empty(),
            subscribed: Set::empty(),
        },
        events: Seq::empty(),
        logs: Seq::empty(),
    }
}

/// What `connect_device` makes of a coordinator, and what it yields.
///
/// Before the adapter is ready the command is refused and the error
/// published. Where a session is registered under the address, nothing
/// changes and nothing is to be dispatched. Otherwise the address is
/// resolved among the peripherals: where none answers to it,
/// `DeviceNotFound` is published; where one does, a session for the first
/// such peripheral is registered under the address, connecting, and is
/// announced.
pub open spec fn connect_outcome(
    before: ManagerView,
    address: Seq<char>,
    peripherals: Seq<PeripheralInfo>,
    after: ManagerView,
    r: Option<ConnectStart>,
) -> bool {
    if before.state != AdapterState::Ready {
        &&& r is None
        &&& errored(before, after, ErrorKind::InitializationFailed, not_initialized())
    } else if registered(before.entries, address) {
        &&& r == Some(ConnectStart::Existing)
        &&& after == before
    } else if !known_peripheral(peripherals, address) {
        &&& r is None
        &&& errored(before, after, ErrorKind::DeviceNotFound, address)
    } else {
        &&& r matches Some(ConnectStart::Started(k))
        &&& is_first_peripheral(peripherals, k as int, address)
        &&& after == (ManagerView {
            entries: before.entries.push(fresh_entry(address, peripherals[k as int])),
            outbox: before.outbox.push(NotificationView::DeviceConnecting(address)),
            ..before
        })
    }
}

impl BluetoothManager {
    /// Starts a scan of the given duration. Before the adapter is ready the
    /// command is refused and the error published. While a scan is in
    /// progress the command is refused by the scanner, which is logged as a
    /// warning and not published. Otherwise the scanner begins a scan, the
    /// start is announced, and the command that starts the adapter's scan is
    /// handed back.
    pub fn start_scan(&mut self, timeout_ms: u64) -> (r: Option<ScanCommand>)
        requires
            old(self).wf(),
        ensures
            final(self).wf(),
            final(self).sessions() == old(self).sessions(),
            r.is_some() == (old(self)@.state == AdapterState::Ready && !old(self)@.scanner.scanning),
            old(self)@.state != AdapterState::Ready ==> errored(
                old(self)@,
                final(self)@,
                ErrorKind::InitializationFailed,
                not_initialized(),
            ),
            old(self)@.state == AdapterState::Ready && old(self)@.scanner.scanning ==> final(self)@
                == (ManagerView {
                logs: old(self)@.logs.push(
                    (LogLevel::Warn, log_line_of(ErrorKind::ScanFailed, "already scanning"@)),
                ),
                ..old(self)@
            }),
            old(self)@.state == AdapterState::Ready && !old(self)@.scanner.scanning ==> {
                &&& r == Some(ScanCommand::Start { duration_ms: timeout_ms })
                &&& final(self)@ == (ManagerView {
                    scanner: ScannerView {
                        scanning: true,
                        duration_ms: timeout_ms,
                        processed: 0,
                        cache: Seq::empty(),
                    },
                    outbox: old(self)@.outbox.push(NotificationView::ScanStarted),
                    ..old(self)@
                })
            },
    {
        if self.state != AdapterState::Ready {
            self.fail(BleError::InitializationFailed(String::from_str("Adapter not initialized")));
            return None;
        }
        match self.scanner.start_scan(timeout_ms, &mut self.bridge) {
            Ok(command) => {
                self.notify(Notification::ScanStarted);
                Some(command)
            },
            Err(_) => None,
        }
    }

    /// Stops the scan in progress. Before the adapter is ready, or with no
    /// scan in progress, nothing happens. Otherwise the scanner is idle at
    /// once, the stop is announced, and the command that stops the adapter's
    /// scan is handed back.
    pub fn stop_scan(&mut self) -> (r: Option<ScanCommand>)
        requires
            old(self).wf(),
        ensures
            final(self).wf(),
            final(self).sessions() == old(self).sessions(),
            if old(self)@.state == AdapterState::Ready && old(self)@.scanner.scanning {
                &&& r == Some(ScanCommand::Stop)
                &&& final(self)@ == (ManagerView {
                    scanner: ScannerView { scanning: false, ..old(self)@.scanner },
                    outbox: old(self)@.outbox.push(NotificationView::ScanStopped),
                    ..old(self)@
                })
            } else {
                &&& r is None
                &&& final(self)@ == old(self)@
            },
    {
        if self.state != AdapterState::Ready {
            return None;
        }
        if !self.scanner.is_scanning() {
            return None;
        }
        let command = self.scanner.stop_scan();
        self.notify(Notification::ScanStopped);
        command
    }

    /// A snapshot of the devices seen in the current scan; empty before the
    /// adapter is ready.
    pub fn get_discovered_devices(&self) -> (r: Vec<DeviceInfo>)
        ensures
            records_view(r@) == if self@.state == AdapterState::Ready {
                self@.scanner.cache
            } else {
                Seq::empty()
            },
    {
        if self.state != AdapterState::Ready {
            let r: Vec<DeviceInfo> = Vec::new();
            assert(records_view(r@) =~= Seq::<DeviceRecord>::empty());
            return r;
        }
        self.scanner.get_devices()
    }

    /// Hands the outcome of starting the adapter's scan to the scanner.
    pub fn scan_started(&mut self, outcome: Result<(), String>) -> (r: Result<(), BleError>)
        requires
            old(self).wf(),
        ensures
            final(self).wf(),
            final(self).sessions() == old(self).sessions(),
            match outcome {
                Ok(_) => r is Ok && final(self)@ == old(self)@,
                Err(detail) => {
                    &&& r matches Err(e)
                    &&& e@ == (ErrorKind::ScanFailed, detail@)
                    &&& final(self)@ == (ManagerView {
                        scanner: ScannerView { scanning: false, ..old(self)@.scanner },
                        adapter_events: old(self)@.adapter_events.push(
                            EventView::ScanCompleted(Err((ErrorKind::ScanFailed, detail@))),
                        ),
                        logs: old(self)@.logs.push(
                            (LogLevel::Error, log_line_of(ErrorKind::ScanFailed, detail@)),
                        ),
                        ..old(self)@
                    })
                },
            },
    {
        self.scanner.scan_started(outcome, &mut self.bridge)
    }

    /// Whether the scanner would process an event that arrives at the given
    /// time, and if not, why.
    pub fn scan_verdict(&self, elapsed_ms: u64) -> (r: ScanStep)
        ensures
            r == admission(self@.scanner, elapsed_ms),
    {
        self.scanner.verdict(elapsed_ms)
    }

    /// Hands one event of the adapter's stream to the scanner and says
    /// whether the collection loop goes on. What the scanner emits is queued
    /// for the next tick.
    pub fn scan_event(&mut self, event: ScanEvent) -> (r: ScanStep)
        requires
            old(self).wf(),
        ensures
            final(self).wf(),
            final(self).sessions() == old(self).sessions(),
            r == step(old(self)@.scanner, event@).step,
            final(self)@ == (ManagerView {
                scanner: step(old(self)@.scanner, event@).state,
                adapter_events: old(self)@.adapter_events + step(
                    old(self)@.scanner,
                    event@,
                ).emitted,
                ..old(self)@
            }),
    {
        self.scanner.process_event(event, &mut self.bridge)
    }

    /// Ends the scan once the collection is over and the adapter was told
    /// to stop: the scanner is idle, and the scan's completion is queued for
    /// the next tick.
    pub fn finish_scan(&mut self, collection: Result<(), String>, stopping: Result<(), String>)
        -> (r: Result<(), BleError>)
        requires
            old(self).wf(),
        ensures
            final(self).wf(),
            final(self).sessions() == old(self).sessions(),
            match scan_result(collection, stopping) {
                Ok(_) => {
                    &&& r is Ok
                    &&& final(self)@ == (ManagerView {
                        scanner: ScannerView { scanning: false, ..old(self)@.scanner },
                        adapter_events: old(self)@.adapter_events.push(
                            EventView::ScanCompleted(Ok(())),
                        ),
                        ..old(self)@
                    })
                },
                Err(failure) => {
                    &&& r matches Err(e)
                    &&& e@ == (ErrorKind::ScanFailed, failure)
                    &&& final(self)@ == (ManagerView {
                        scanner: ScannerView { scanning: false, ..old(self)@.scanner },
                        adapter_events: old(self)@.adapter_events.push(
                            EventView::ScanCompleted(Err((ErrorKind::ScanFailed, failure))),
                        ),
                        logs: old(self)@.logs.push(
                            (LogLevel::Error, log_line_of(ErrorKind::ScanFailed, failure)),
                        ),
                        ..old(self)@
                    })
                },
            },
    {
        self.scanner.finish_scan(collection, stopping, &mut self.bridge)
    }

    /// Connects to the device with the given address. Before the adapter is
    /// ready the command is refused and the error published. Where a session
    /// is registered under the address, it stays as it is and nothing is to
    /// be dispatched. Otherwise the address is resolved among the peripherals
    /// that the adapter knows: where none answers to it, `DeviceNotFound` is
    /// published; where one does, a session for the first such peripheral is
    /// registered under the address, begins to connect, and is announced as
    /// connecting.
    pub fn connect_device(&mut self, address: &str, peripherals: &Vec<PeripheralInfo>) -> (r:
        Option<ConnectStart>)
        requires
            old(self).wf(),
        ensures
            final(self).wf(),
            connect_outcome(old(self)@, address@, peripherals@, final(self)@, r),
            r == Some(ConnectStart::Existing) ==> final(self).sessions() == old(self).sessions(),
    {
        if self.state != AdapterState::Ready {
            self.fail(BleError::InitializationFailed(String::from_str("Adapter not initialized")));
            return None;
        }
        if self.find(address).is_some() {
            return Some(ConnectStart::Existing);
        }
        let k = match resolve_peripheral(peripherals, address) {
            Some(k) => k,
            None => {
                self.fail(BleError::DeviceNotFound(String::from_str(address)));
                return None;
            },
        };
        let p = &peripherals[k];
        let name = match &p.name {
            Some(name) => name.clone(),
            None => String::new(),
        };
        let mut device = BleDevice::new(p.id.clone(), name);
        let mut events = EventBridge::new();
        let _ = device.connect_async(&mut events);
        let session = Session { device, events };
        let key = String::from_str(address);
        let ghost keys = self.keys@;
        let ghost sessions = self.sessions@;
        let ghost entries = self@.entries;
        self.keys.push(key);
        self.sessions.push(session);
        proof {
            let after = entries_of(self.keys@, self.sessions@);
            assert(after =~= entries.push(fresh_entry(address@, peripherals@[k as int])));
            assert forall|a: int, b: int|
                0 <= a < after.len() && 0 <= b < after.len() && a != b implies (
                #[trigger] after[a]).key != (#[trigger] after[b]).key by {
                if a < entries.len() && b < entries.len() {
                    assert(entries[a].key != entries[b].key);
                } else if a < entries.len() {
                    assert(entries[a].key != address@);
                } else {
                    assert(entries[b].key != address@);
                }
            }
            assert forall|a: int| 0 <= a < self.sessions@.len() implies (
            #[trigger] self.sessions@[a]).device.wf() by {
                if a < sessions.len() {
                    assert(sessions[a].device.wf());
                }
            }
        }
        self.notify(Notification::DeviceConnecting(String::from_str(address)));
        Some(ConnectStart::Started(k))
    }

    /// Disconnects the device with the given address. Where no session is
    /// registered under it, nothing happens. Otherwise the session stops
    /// counting as connected at once and announces its disconnection, and the
    /// disconnect command is handed back. The session stays registered until
    /// its disconnection has completed and a tick has observed it.
    pub fn disconnect_device(&mut self, address: &str) -> (r: Option<DeviceCommand>)
        requires
            old(self).wf(),
        ensures
            final(self).wf(),
            r.is_some() == registered(old(self)@.entries, address@),
            match r {
                Some(command) => {
                    let i = place_of(old(self)@.entries, address@);
                    &&& command@ == CommandView::Disconnect
                    &&& final(self)@ == (ManagerView {
                        entries: old(self)@.entries.update(
                            i,
                            (EntryView {
                                device: SessionView {
                                    state: ConnectionState::Disconnecting,
                                    ..old(self)@.entries[i].device
                                },
                                ..old(self)@.entries[i]
                            }),
                        ),
                        outbox: old(self)@.outbox.push(NotificationView::Disconnected(address@)),
                        ..old(self)@
                    })
                },
                None => final(self)@ == old(self)@ && final(self).sessions() == old(
                    self,
                ).sessions(),
            },
    {
        let command = match self.session_mut(address) {
            Some(session) => session.device.disconnect(),
            None => {
                return None;
            },
        };
        self.notify(Notification::Disconnected(String::from_str(address)));
        Some(command)
    }
}

/// An entry after its queues were emptied.
pub open spec fn drained_entry(entry: EntryView) -> EntryView {
    EntryView { events: Seq::empty(), logs: Seq::empty(), ..entry }
}

/// What the queued events of the first `n` sessions are published as, in
/// registration order.
pub open spec fn session_notes_upto(entries: Seq<EntryView>, n: nat) -> Seq<NotificationView>
    decreases n,
{
    if n == 0 {
        Seq::empty()
    } else {
        session_notes_upto(entries, (n - 1) as nat) + device_notes_of(
            entries[n - 1].key,
            entries[n - 1].events,
            entries[n - 1].events.len(),
        )
    }
}

/// The queued lines of the first `n` sessions, in registration order.
pub open spec fn session_logs_upto(entries: Seq<EntryView>, n: nat) -> Seq<
    (LogLevel, Seq<char>),
>
    decreases n,
{
    if n == 0 {
        Seq::empty()
    } else {
        session_logs_upto(entries, (n - 1) as nat) + entries[n - 1].logs
    }
}

/// Those of the first `n` entries whose session is not disconnected, in
/// registration order.
pub open spec fn kept_upto(entries: Seq<EntryView>, n: nat) -> Seq<EntryView>
    decreases n,
{
    if n == 0 {
        Seq::empty()
    } else if entries[n - 1].device.state == ConnectionState::Disconnected {
        kept_upto(entries, (n - 1) as nat)
    } else {
        kept_upto(entries, (n - 1) as nat).push(entries[n - 1])
    }
}

/// The announcements for those of the first `n` entries whose session is
/// disconnected, in registration order.
pub open spec fn gone_upto(entries: Seq<EntryView>, n: nat) -> Seq<NotificationView>
    decreases n,
{
    if n == 0 {
        Seq::empty()
    } else if entries[n - 1].device.state == ConnectionState::Disconnected {
        gone_upto(entries, (n - 1) as nat).push(
            NotificationView::DeviceDisconnected(entries[n - 1].key),
        )
    } else {
        gone_upto(entries, (n - 1) as nat)
    }
}

/// The coordinator after the adapter's queue was published.
pub open spec fn after_adapter_events(v: ManagerView) -> ManagerView {
    ManagerView {
        adapter_events: Seq::empty(),
        outbox: v.outbox + scan_notes_of(v.adapter_events, v.adapter_events.len()),
        ..v
    }
}

/// The coordinator after the sessions' queues were published and their
/// lines moved to the coordinator's log.
pub open spec fn after_session_events(v: ManagerView) -> ManagerView {
    ManagerView {
        entries: Seq::new(v.entries.len(), |i: int| drained_entry(v.entries[i])),
        outbox: v.outbox + session_notes_upto(v.entries, v.entries.len()),
        logs: v.logs + session_logs_upto(v.entries, v.entries.len()),
        ..v
    }
}

/// The coordinator after the disconnected sessions were removed.
pub open spec fn after_sweep(v: ManagerView) -> ManagerView {
    ManagerView {
        entries: kept_upto(v.entries, v.entries.len()),
        outbox: v.outbox + gone_upto(v.entries, v.entries.len()),
        ..v
    }
}

impl BluetoothManager {
    /// Publishes what the adapter's queue holds: the queue is emptied, and
    /// what its events are published as is appended to the outbox, in order.
    pub fn publish_adapter_events(&mut self)
        requires
            old(self).wf(),
        ensures
            final(self).wf(),
            final(self).sessions() == old(self).sessions(),
            final(self)@ == after_adapter_events(old(self)@),
    {
        let events = self.bridge.drain_events();
        publish_scan_events(&events, &mut self.outbox);
    }

    /// Publishes what the sessions' queues hold, session by session in
    /// registration order: each queue is emptied, what its events are
    /// published as is appended to the outbox, and its lines are moved to
    /// the coordinator's log.
    pub fn publish_session_events(&mut self)
        requires
            old(self).wf(),
        ensures
            final(self).wf(),
            final(self)@ == after_session_events(old(self)@),
    {
        let ghost start = self@;
        let n = self.sessions.len();
        let mut i: usize = 0;
        assert(self@.outbox =~= start.outbox + session_notes_upto(start.entries, 0));
        assert(self@.logs =~= start.logs + session_logs_upto(start.entries, 0));
        assert(self@.entries =~= Seq::new(
            n as nat,
            |j: int| if j < 0 { drained_entry(start.entries[j]) } else { start.entries[j] },
        ));
        while i < n
            invariant
                i <= n,
                n == self.sessions.len(),
                n == start.entries.len(),
                self.wf(),
                self.keys@ == old(self).keys@,
                self@.state == start.state,
                self@.scanner == start.scanner,
                self@.adapter_events == start.adapter_events,
                self@.debug == start.debug,
                self@.entries == Seq::new(
                    n as nat,
                    |j: int| if j < i { drained_entry(start.entries[j]) } else { start.entries[j] },
                ),
                self@.outbox == start.outbox + session_notes_upto(start.entries, i as nat),
                self@.logs == start.logs + session_logs_upto(start.entries, i as nat),
            decreases n - i,
        {
            let ghost keys = self.keys@;
            let ghost sessions = self.sessions@;
            let ghost entries = self@.entries;
            assert(entries[i as int] == start.entries[i as int]);
            assert(entries[i as int] == entry_of(keys[i as int], sessions[i as int]));
            assert(sessions[i as int].device.wf());
            let session = &mut self.sessions[i];
            let events = session.events.drain_events();
            let lines = drain_logs(&mut session.events.logs);
            proof {
                let now = self.sessions@;
                assert(now[i as int].device == sessions[i as int].device);
                assert(entries_of(keys, now) =~= entries.update(
                    i as int,
                    drained_entry(start.entries[i as int]),
                ));
                assert forall|a: int, b: int|
                    0 <= a < keys.len() && 0 <= b < keys.len() && a != b implies (
                    #[trigger] entries_of(keys, now)[a]).key != (#[trigger] entries_of(
                        keys,
                        now,
                    )[b]).key by {
                    assert(entries[a].key != entries[b].key);
                }
                assert forall|a: int| 0 <= a < now.len() implies (#[trigger] now[a]).device.wf() by {
                    if a != i {
                        assert(sessions[a].device.wf());
                    }
                }
            }
            publish_device_events(&self.keys[i], &events, &mut self.outbox);
            append_logs(&mut self.bridge.logs, &lines);
            proof {
                assert(self@.outbox =~= start.outbox + session_notes_upto(
                    start.entries,
                    (i + 1) as nat,
                ));
                assert(self@.logs =~= start.logs + session_logs_upto(
                    start.entries,
                    (i + 1) as nat,
                ));
                assert(self@.entries =~= Seq::new(
                    n as nat,
                    |j: int|
                        if j < i + 1 {
                            drained_entry(start.entries[j])
                        } else {
                            start.entries[j]
                        },
                ));
            }
            i += 1;
        }
        assert(self@.entries =~= after_session_events(start).entries);
    }

    /// Takes everything out of the outbox, oldest first.
    pub fn take_notifications(&mut self) -> (r: Vec<Notification>)
        requires
            old(self).wf(),
        ensures
            final(self).wf(),
            final(self).sessions() == old(self).sessions(),
            notifications_view(r@) == old(self)@.outbox,
            final(self)@ == (ManagerView { outbox: Seq::empty(), ..old(self)@ }),
    {
        let mut out: Vec<Notification> = Vec::new();
        std::mem::swap(&mut self.outbox, &mut out);
        assert(self@.outbox =~= Seq::<NotificationView>::empty());
        out
    }

    /// Takes every line out of the coordinator's log, oldest first.
    pub fn drain_logs(&mut self) -> (r: Vec<(LogLevel, String)>)
        requires
            old(self).wf(),
        ensures
            final(self).wf(),
            final(self).sessions() == old(self).sessions(),
            lines_of(r@) == old(self)@.logs,
            final(self)@ == (ManagerView { logs: Seq::empty(), ..old(self)@ }),
    {
        drain_logs(&mut self.bridge.logs)
    }
}

/// Taking an item out of a registry leaves its entries without the entry at
/// that place, and leaves the registry valid.
proof fn lemma_remove_entry(keys: Seq<String>, sessions: Seq<Session>, i: int)
    requires
        registry_wf(keys, sessions),
        0 <= i < keys.len(),
    ensures
        registry_wf(keys.remove(i), sessions.remove(i)),
        entries_of(keys.remove(i), sessions.remove(i)) == entries_of(keys, sessions).remove(i),
{
    let entries = entries_of(keys, sessions);
    let after = entries_of(keys.remove(i), sessions.remove(i));
    assert(after =~= entries.remove(i));
    assert forall|a: int, b: int|
        0 <= a < after.len() && 0 <= b < after.len() && a != b implies (#[trigger] after[a]).key
        != (#[trigger] after[b]).key by {
        let a0 = if a < i { a } else { a + 1 };
        let b0 = if b < i { b } else { b + 1 };
        assert(after[a] == entries[a0]);
        assert(after[b] == entries[b0]);
        assert(entries[a0].key != entries[b0].key);
    }
    assert forall|a: int| 0 <= a < sessions.remove(i).len() implies (#[trigger] sessions.remove(
        i,
    )[a]).device.wf() by {
        let a0 = if a < i { a } else { a + 1 };
        assert(sessions.remove(i)[a] == sessions[a0]);
        assert(sessions[a0].device.wf());
    }
}

/// What the consumer's tick makes of a coordinator: the adapter's queue is
/// published, then the sessions' queues, then the disconnected sessions are
/// removed and announced.
pub open spec fn after_tick(v: ManagerView) -> ManagerView {
    after_sweep(after_session_events(after_adapter_events(v)))
}

impl BluetoothManager {
    /// Removes every session that is disconnected from the registry and
    /// announces each removal, in registration order. The sessions that stay
    /// keep their order.
    pub fn sweep_disconnected(&mut self)
        requires
            old(self).wf(),
        ensures
            final(self).wf(),
            final(self)@ == after_sweep(old(self)@),
    {
        let ghost start = self@;
        let ghost n = start.entries.len();
        let ghost mut seen: nat = 0;
        let mut i: usize = 0;
        assert(self@.entries =~= kept_upto(start.entries, 0) + start.entries.skip(0));
        assert(self@.outbox =~= start.outbox + gone_upto(start.entries, 0));
        while i < self.sessions.len()
            invariant
                self.wf(),
                seen <= n,
                n == start.entries.len(),
                i == kept_upto(start.entries, seen).len(),
                self.sessions.len() == i + (n - seen),
                self@.entries == kept_upto(start.entries, seen) + start.entries.skip(seen as int),
                self@.outbox == start.outbox + gone_upto(start.entries, seen),
                self@.state == start.state,
                self@.scanner == start.scanner,
                self@.adapter_events == start.adapter_events,
                self@.logs == start.logs,
                self@.debug == start.debug,
            decreases n - seen,
        {
            let ghost keys = self.keys@;
            let ghost sessions = self.sessions@;
            let ghost entries = self@.entries;
            assert(entries[i as int] == start.entries.skip(seen as int)[0]);
            assert(entries[i as int] == start.entries[seen as int]);
            assert(entries[i as int] == entry_of(keys[i as int], sessions[i as int]));
            if self.sessions[i].device.connection_state() == ConnectionState::Disconnected {
                let key = self.keys.remove(i);
                let _ = self.sessions.remove(i);
                proof {
                    lemma_remove_entry(keys, sessions, i as int);
                    assert(key@ == start.entries[seen as int].key);
                }
                let ghost queued = self@.outbox;
                self.outbox.push(Notification::DeviceDisconnected(key));
                proof {
                    assert(start.entries[seen as int].device.state
                        == ConnectionState::Disconnected);
                    assert(self@.outbox =~= queued.push(
                        NotificationView::DeviceDisconnected(start.entries[seen as int].key),
                    ));
                    assert(gone_upto(start.entries, seen + 1) == gone_upto(
                        start.entries,
                        seen,
                    ).push(NotificationView::DeviceDisconnected(start.entries[seen as int].key)));
                    assert(self@.entries =~= kept_upto(start.entries, seen + 1)
                        + start.entries.skip((seen + 1) as int));
                    assert(self@.outbox =~= start.outbox + gone_upto(start.entries, seen + 1));
                    seen = seen + 1;
                }
            } else {
                proof {
                    assert(self@.entries =~= kept_upto(start.entries, seen + 1)
                        + start.entries.skip((seen + 1) as int));
                    assert(self@.outbox =~= start.outbox + gone_upto(start.entries, seen + 1));
                    seen = seen + 1;
                }
                i += 1;
            }
        }
        assert(self@.entries =~= kept_upto(start.entries, n));
    }

    /// The consumer's tick: publishes the adapter's queue and the sessions'
    /// queues, removes the disconnected sessions, and hands out everything
    /// that the outbox then holds, oldest first.
    pub fn process(&mut self) -> (r: Vec<Notification>)
        requires
            old(self).wf(),
        ensures
            final(self).wf(),
            notifications_view(r@) == after_tick(old(self)@).outbox,
            final(self)@ == (ManagerView { outbox: Seq::empty(), ..after_tick(old(self)@) }),
    {
        self.publish_adapter_events();
        self.publish_session_events();
        self.sweep_disconnected();
        self.take_notifications()
    }
}

/// What the coordinator's teardown hands back.
#[derive(Debug, PartialEq, Eq)]
pub struct Shutdown {
    /// The command that stops the adapter's scan, where one was in progress.
    pub scan: Option<ScanCommand>,
    /// The addresses under which sessions were registered, in registration
    /// order.
    pub addresses: Vec<String>,
    /// For each of those sessions, the command that tears its link down,
    /// where it was connected.
    pub commands: Vec<Option<DeviceCommand>>,
}

impl BluetoothManager {
    /// Tears the coordinator down: the scan in progress is stopped, every
    /// session is torn down and leaves the registry, and the adapter counts
    /// as uninitialized. What is queued for the consumer stays. The commands
    /// that stop the adapter's scan and tear the links down are handed back.
    pub fn cleanup(&mut self) -> (r: Shutdown)
        requires
            old(self).wf(),
        ensures
            final(self).wf(),
            final(self)@ == (ManagerView {
                state: AdapterState::Uninitialized,
                scanner: ScannerView { scanning: false, ..old(self)@.scanner },
                entries: Seq::empty(),
                ..old(self)@
            }),
            r.scan == if old(self)@.scanner.scanning {
                Some(ScanCommand::Stop)
            } else {
                None
            },
            texts_view(r.addresses@) == Seq::new(
                old(self)@.entries.len(),
                |i: int| old(self)@.entries[i].key,
            ),
            r.commands.len() == old(self)@.entries.len(),
            forall|i: int|
                0 <= i < old(self)@.entries.len() ==> teardown_of(
                    old(self)@.entries[i].device,
                    #[trigger] r.commands@[i],
                ),
    {
        let ghost start = self@;
        let ghost sessions = self.sessions@;
        let scan = self.scanner.stop_scan();
        let addresses = clone_texts(&self.keys);
        assert(texts_view(addresses@) =~= Seq::new(
            start.entries.len(),
            |i: int| start.entries[i].key,
        ));
        let mut commands: Vec<Option<DeviceCommand>> = Vec::new();
        let n = self.sessions.len();
        let mut i: usize = 0;
        while i < n
            invariant
                i <= n,
                n == self.sessions.len(),
                n == sessions.len(),
                n == start.entries.len(),
                self.keys@ == old(self).keys@,
                self.scanner.wf(),
                self.scanner@ == (ScannerView { scanning: false, ..start.scanner }),
                self.state == old(self).state,
                self.bridge == old(self).bridge,
                self.outbox == old(self).outbox,
                commands.len() == i,
                forall|a: int| i <= a < n ==> self.sessions@[a] == sessions[a],
                forall|a: int| 0 <= a < n ==> (#[trigger] sessions[a]).device.wf(),
                forall|a: int|
                    0 <= a < n ==> (#[trigger] start.entries[a]).device == sessions[a].device@,
                forall|a: int|
                    0 <= a < i ==> teardown_of(start.entries[a].device, #[trigger] commands@[a]),
            decreases n - i,
        {
            assert(sessions[i as int].device.wf());
            assert(start.entries[i as int].device == sessions[i as int].device@);
            let command = self.sessions[i].device.cleanup();
            commands.push(command);
            i += 1;
        }
        self.keys.clear();
        self.sessions.clear();
        self.state = AdapterState::Uninitialized;
        assert(self@.entries =~= Seq::<EntryView>::empty());
        Shutdown { scan, addresses, commands }
    }
}

/// At most one session per address: once `connect_device` has succeeded for
/// an address, a second call for the same address finds the session of the
/// first, changes nothing and dispatches nothing, whatever peripherals the
/// adapter knows by then. Of two calls that start from a registry without
/// the address, exactly the first dispatches a connect.
pub proof fn lemma_connect_twice(
    start: ManagerView,
    address: Seq<char>,
    first_peripherals: Seq<PeripheralInfo>,
    between: ManagerView,
    first: Option<ConnectStart>,
    second_peripherals: Seq<PeripheralInfo>,
    after: ManagerView,
    second: Option<ConnectStart>,
)
    requires
        connect_outcome(start, address, first_peripherals, between, first),
        connect_outcome(between, address, second_peripherals, after, second),
        first is Some,
    ensures
        registered(between.entries, address),
        second == Some(ConnectStart::Existing),
        after == between,
        !registered(start.entries, address) ==> first is Some && first->Some_0 is Started,
        distinct_keys(start.entries) ==> distinct_keys(between.entries),
{
    if registered(start.entries, address) {
        assert(between == start);
    } else {
        let k = first->Some_0->Started_0;
        let entry = fresh_entry(address, first_peripherals[k as int]);
        assert(between.entries == start.entries.push(entry));
        assert(between.entries[start.entries.len() as int].key == address);
        if distinct_keys(start.entries) {
            assert forall|a: int, b: int|
                0 <= a < between.entries.len() && 0 <= b < between.entries.len() && a
                    != b implies (#[trigger] between.entries[a]).key != (
                #[trigger] between.entries[b]).key by {
                if a < start.entries.len() && b < start.entries.len() {
                    assert(start.entries[a].key != start.entries[b].key);
                } else if a < start.entries.len() {
                    assert(start.entries[a].key != address);
                } else {
                    assert(start.entries[b].key != address);
                }
            }
        }
    }
}

} // verus!
