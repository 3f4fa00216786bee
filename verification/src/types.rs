//! Supporting records: the error taxonomy, the diagnostic queue, and the
//! records that describe adapters and discovered devices.

use std::collections::HashMap;
use vstd::prelude::*;
use crate::text::{clone_optional_text, clone_texts, texts_view};
use vstd::string::*;

verus! {

/// Severity of a queued diagnostic line.
#[derive(Clone, Copy, Debug, PartialEq, Eq, Structural)]
pub enum LogLevel {
    Debug,
    Info,
    Warn,
    Error,
}

/// The closed set of failure kinds.
#[derive(Clone, Copy, Debug, PartialEq, Eq, Structural)]
pub enum ErrorKind {
    AdapterNotFound,
    DeviceNotFound,
    ConnectionFailed,
    OperationFailed,
    NotConnected,
    InvalidUuid,
    ServiceNotFound,
    CharacteristicNotFound,
    ScanFailed,
    InitializationFailed,
    ReadFailed,
    WriteFailed,
    SubscribeFailed,
    UnsubscribeFailed,
    ServiceDiscoveryFailed,
    PermissionDenied,
    Timeout,
    InternalError,
}

/// A failure of this layer or of the radio stack beneath it. Every variant
/// but `AdapterNotFound` and `NotConnected` carries a detail text.
#[derive(Debug, PartialEq, Eq)]
pub enum BleError {
    AdapterNotFound,
    DeviceNotFound(String),
    ConnectionFailed(String),
    OperationFailed(String),
    NotConnected,
    InvalidUuid(String),
    ServiceNotFound(String),
    CharacteristicNotFound(String),
    ScanFailed(String),
    InitializationFailed(String),
    ReadFailed(String),
    WriteFailed(String),
    SubscribeFailed(String),
    UnsubscribeFailed(String),
    ServiceDiscoveryFailed(String),
    PermissionDenied(String),
    Timeout(String),
    InternalError(String),
}

/// The text with which the message of an error of the given kind begins. For
/// the two kinds without a detail it is the whole message.
pub open spec fn message_prefix(kind: ErrorKind) -> Seq<char> {
    match kind {
        ErrorKind::AdapterNotFound =>
            "Bluetooth adapter not found; ensure system Bluetooth is enabled"@,
        ErrorKind::DeviceNotFound => "Unable to find the specified Bluetooth device: "@,
        ErrorKind::ConnectionFailed => "Connection failed: "@,
        ErrorKind::OperationFailed => "Operation failed: "@,
        ErrorKind::NotConnected => "Device is not connected; connect the device first"@,
        ErrorKind::InvalidUuid => "Invalid UUID: "@,
        ErrorKind::ServiceNotFound => "Service UUID not found: "@,
        ErrorKind::CharacteristicNotFound => "Characteristic UUID not found: "@,
        ErrorKind::ScanFailed => "Scan failed: "@,
        ErrorKind::InitializationFailed => "Initialization failed: "@,
        ErrorKind::ReadFailed => "Characteristic read failed: "@,
        ErrorKind::WriteFailed => "Characteristic write failed: "@,
        ErrorKind::SubscribeFailed => "Subscription to notifications failed: "@,
        ErrorKind::UnsubscribeFailed => "Unsubscribe failed: "@,
        ErrorKind::ServiceDiscoveryFailed => "Service discovery failed: "@,
        ErrorKind::PermissionDenied => "Permission denied: "@,
        ErrorKind::Timeout => "Operation timed out: "@,
        ErrorKind::InternalError => "Internal error: "@,
    }
}

/// The stable symbolic code of each kind.
pub open spec fn code_of(kind: ErrorKind) -> Seq<char> {
    match kind {
        ErrorKind::AdapterNotFound => "ADAPTER_NOT_FOUND"@,
        ErrorKind::DeviceNotFound => "DEVICE_NOT_FOUND"@,
        ErrorKind::ConnectionFailed => "CONNECTION_FAILED"@,
        ErrorKind::OperationFailed => "OPERATION_FAILED"@,
        ErrorKind::NotConnected => "NOT_CONNECTED"@,
        ErrorKind::InvalidUuid => "INVALID_UUID"@,
        ErrorKind::ServiceNotFound => "SERVICE_NOT_FOUND"@,
        ErrorKind::CharacteristicNotFound => "CHARACTERISTIC_NOT_FOUND"@,
        ErrorKind::ScanFailed => "SCAN_FAILED"@,
        ErrorKind::InitializationFailed => "INITIALIZATION_FAILED"@,
        ErrorKind::ReadFailed => "READ_FAILED"@,
        ErrorKind::WriteFailed => "WRITE_FAILED"@,
        ErrorKind::SubscribeFailed => "SUBSCRIBE_FAILED"@,
        ErrorKind::UnsubscribeFailed => "UNSUBSCRIBE_FAILED"@,
        ErrorKind::ServiceDiscoveryFailed => "SERVICE_DISCOVERY_FAILED"@,
        ErrorKind::PermissionDenied => "PERMISSION_DENIED"@,
        ErrorKind::Timeout => "TIMEOUT"@,
        ErrorKind::InternalError => "INTERNAL_ERROR"@,
    }
}

/// The kinds after which the same request may succeed when tried again.
pub open spec fn retryable(kind: ErrorKind) -> bool {
    kind == ErrorKind::Timeout || kind == ErrorKind::ConnectionFailed || kind
        == ErrorKind::OperationFailed
}

/// The human-readable message of an error with the given kind and detail.
pub open spec fn message_of(kind: ErrorKind, detail: Seq<char>) -> Seq<char> {
    message_prefix(kind) + detail
}

/// The diagnostic line written for an error: its code, a colon and a space,
/// and its message.
pub open spec fn log_line_of(kind: ErrorKind, detail: Seq<char>) -> Seq<char> {
    code_of(kind) + ": "@ + message_of(kind, detail)
}

impl View for BleError {
    type V = (ErrorKind, Seq<char>);

    open spec fn view(&self) -> (ErrorKind, Seq<char>) {
        (self.spec_kind(), self.detail())
    }
}

impl BleError {
    /// The kind of this error.
    pub open spec fn spec_kind(&self) -> ErrorKind {
        match self {
            BleError::AdapterNotFound => ErrorKind::AdapterNotFound,
            BleError::DeviceNotFound(_) => ErrorKind::DeviceNotFound,
            BleError::ConnectionFailed(_) => ErrorKind::ConnectionFailed,
            BleError::OperationFailed(_) => ErrorKind::OperationFailed,
            BleError::NotConnected => ErrorKind::NotConnected,
            BleError::InvalidUuid(_) => ErrorKind::InvalidUuid,
            BleError::ServiceNotFound(_) => ErrorKind::ServiceNotFound,
            BleError::CharacteristicNotFound(_) => ErrorKind::CharacteristicNotFound,
            BleError::ScanFailed(_) => ErrorKind::ScanFailed,
            BleError::InitializationFailed(_) => ErrorKind::InitializationFailed,
            BleError::ReadFailed(_) => ErrorKind::ReadFailed,
            BleError::WriteFailed(_) => ErrorKind::WriteFailed,
            BleError::SubscribeFailed(_) => ErrorKind::SubscribeFailed,
            BleError::UnsubscribeFailed(_) => ErrorKind::UnsubscribeFailed,
            BleError::ServiceDiscoveryFailed(_) => ErrorKind::ServiceDiscoveryFailed,
            BleError::PermissionDenied(_) => ErrorKind::PermissionDenied,
            BleError::Timeout(_) => ErrorKind::Timeout,
            BleError::InternalError(_) => ErrorKind::InternalError,
        }
    }

    /// The detail text carried by this error; empty for the two kinds that
    /// carry none.
    pub open spec fn detail(&self) -> Seq<char> {
        match self {
            BleError::AdapterNotFound => Seq::empty(),
            BleError::NotConnected => Seq::empty(),
            BleError::DeviceNotFound(s) => s@,
            BleError::ConnectionFailed(s) => s@,
            BleError::OperationFailed(s) => s@,
            BleError::InvalidUuid(s) => s@,
            BleError::ServiceNotFound(s) => s@,
            BleError::CharacteristicNotFound(s) => s@,
            BleError::ScanFailed(s) => s@,
            BleError::InitializationFailed(s) => s@,
            BleError::ReadFailed(s) => s@,
            BleError::WriteFailed(s) => s@,
            BleError::SubscribeFailed(s) => s@,
            BleError::UnsubscribeFailed(s) => s@,
            BleError::ServiceDiscoveryFailed(s) => s@,
            BleError::PermissionDenied(s) => s@,
            BleError::Timeout(s) => s@,
            BleError::InternalError(s) => s@,
        }
    }

    /// The kind of this error.
    pub fn kind(&self) -> (r: ErrorKind)
        ensures
            r == self.spec_kind(),
    {
        match self {
            BleError::AdapterNotFound => ErrorKind::AdapterNotFound,
            BleError::DeviceNotFound(_) => ErrorKind::DeviceNotFound,
            BleError::ConnectionFailed(_) => ErrorKind::ConnectionFailed,
            BleError::OperationFailed(_) => ErrorKind::OperationFailed,
            BleError::NotConnected => ErrorKind::NotConnected,
            BleError::InvalidUuid(_) => ErrorKind::InvalidUuid,
            BleError::ServiceNotFound(_) => ErrorKind::ServiceNotFound,
            BleError::CharacteristicNotFound(_) => ErrorKind::CharacteristicNotFound,
            BleError::ScanFailed(_) => ErrorKind::ScanFailed,
            BleError::InitializationFailed(_) => ErrorKind::InitializationFailed,
            BleError::ReadFailed(_) => ErrorKind::ReadFailed,
            BleError::WriteFailed(_) => ErrorKind::WriteFailed,
            BleError::SubscribeFailed(_) => ErrorKind::SubscribeFailed,
            BleError::UnsubscribeFailed(_) => ErrorKind::UnsubscribeFailed,
            BleError::ServiceDiscoveryFailed(_) => ErrorKind::ServiceDiscoveryFailed,
            BleError::PermissionDenied(_) => ErrorKind::PermissionDenied,
            BleError::Timeout(_) => ErrorKind::Timeout,
            BleError::InternalError(_) => ErrorKind::InternalError,
        }
    }

    /// The detail text carried by this error, borrowed; the empty text for the
    /// two kinds that carry none.
    pub fn detail_text(&self) -> (r: &str)
        ensures
            r@ == self.detail(),
    {
        match self {
            BleError::AdapterNotFound => {
                proof {
                    reveal_strlit("");
                }
                assert(""@ =~= Seq::<char>::empty());
                ""
            },
            BleError::NotConnected => {
                proof {
                    reveal_strlit("");
                }
                assert(""@ =~= Seq::<char>::empty());
                ""
            },
            BleError::DeviceNotFound(s) => s.as_str(),
            BleError::ConnectionFailed(s) => s.as_str(),
            BleError::OperationFailed(s) => s.as_str(),
            BleError::InvalidUuid(s) => s.as_str(),
            BleError::ServiceNotFound(s) => s.as_str(),
            BleError::CharacteristicNotFound(s) => s.as_str(),
            BleError::ScanFailed(s) => s.as_str(),
            BleError::InitializationFailed(s) => s.as_str(),
            BleError::ReadFailed(s) => s.as_str(),
            BleError::WriteFailed(s) => s.as_str(),
            BleError::SubscribeFailed(s) => s.as_str(),
            BleError::UnsubscribeFailed(s) => s.as_str(),
            BleError::ServiceDiscoveryFailed(s) => s.as_str(),
            BleError::PermissionDenied(s) => s.as_str(),
            BleError::Timeout(s) => s.as_str(),
            BleError::InternalError(s) => s.as_str(),
        }
    }
}

/// The text with which the message of an error of the given kind begins.
pub fn prefix_text(kind: ErrorKind) -> (r: &'static str)
    ensures
        r@ == message_prefix(kind),
{
    match kind {
        ErrorKind::AdapterNotFound =>
            "Bluetooth adapter not found; ensure system Bluetooth is enabled",
        ErrorKind::DeviceNotFound => "Unable to find the specified Bluetooth device: ",
        ErrorKind::ConnectionFailed => "Connection failed: ",
        ErrorKind::OperationFailed => "Operation failed: ",
        ErrorKind::NotConnected => "Device is not connected; connect the device first",
        ErrorKind::InvalidUuid => "Invalid UUID: ",
        ErrorKind::ServiceNotFound => "Service UUID not found: ",
        ErrorKind::CharacteristicNotFound => "Characteristic UUID not found: ",
        ErrorKind::ScanFailed => "Scan failed: ",
        ErrorKind::InitializationFailed => "Initialization failed: ",
        ErrorKind::ReadFailed => "Characteristic read failed: ",
        ErrorKind::WriteFailed => "Characteristic write failed: ",
        ErrorKind::SubscribeFailed => "Subscription to notifications failed: ",
        ErrorKind::UnsubscribeFailed => "Unsubscribe failed: ",
        ErrorKind::ServiceDiscoveryFailed => "Service discovery failed: ",
        ErrorKind::PermissionDenied => "Permission denied: ",
        ErrorKind::Timeout => "Operation timed out: ",
        ErrorKind::InternalError => "Internal error: ",
    }
}

/// The stable symbolic code of a kind.
pub fn code_text(kind: ErrorKind) -> (r: &'static str)
    ensures
        r@ == code_of(kind),
{
    match kind {
        ErrorKind::AdapterNotFound => "ADAPTER_NOT_FOUND",
        ErrorKind::DeviceNotFound => "DEVICE_NOT_FOUND",
        ErrorKind::ConnectionFailed => "CONNECTION_FAILED",
        ErrorKind::OperationFailed => "OPERATION_FAILED",
        ErrorKind::NotConnected => "NOT_CONNECTED",
        ErrorKind::InvalidUuid => "INVALID_UUID",
        ErrorKind::ServiceNotFound => "SERVICE_NOT_FOUND",
        ErrorKind::CharacteristicNotFound => "CHARACTERISTIC_NOT_FOUND",
        ErrorKind::ScanFailed => "SCAN_FAILED",
        ErrorKind::InitializationFailed => "INITIALIZATION_FAILED",
        ErrorKind::ReadFailed => "READ_FAILED",
        ErrorKind::WriteFailed => "WRITE_FAILED",
        ErrorKind::SubscribeFailed => "SUBSCRIBE_FAILED",
        ErrorKind::UnsubscribeFailed => "UNSUBSCRIBE_FAILED",
        ErrorKind::ServiceDiscoveryFailed => "SERVICE_DISCOVERY_FAILED",
        ErrorKind::PermissionDenied => "PERMISSION_DENIED",
        ErrorKind::Timeout => "TIMEOUT",
        ErrorKind::InternalError => "INTERNAL_ERROR",
    }
}

impl Clone for BleError {
    fn clone(&self) -> (r: Self)
        ensures
            r == *self,
    {
        match self {
            BleError::AdapterNotFound => BleError::AdapterNotFound,
            BleError::DeviceNotFound(s) => BleError::DeviceNotFound(s.clone()),
            BleError::ConnectionFailed(s) => BleError::ConnectionFailed(s.clone()),
            BleError::OperationFailed(s) => BleError::OperationFailed(s.clone()),
            BleError::NotConnected => BleError::NotConnected,
            BleError::InvalidUuid(s) => BleError::InvalidUuid(s.clone()),
            BleError::ServiceNotFound(s) => BleError::ServiceNotFound(s.clone()),
            BleError::CharacteristicNotFound(s) => BleError::CharacteristicNotFound(s.clone()),
            BleError::ScanFailed(s) => BleError::ScanFailed(s.clone()),
            BleError::InitializationFailed(s) => BleError::InitializationFailed(s.clone()),
            BleError::ReadFailed(s) => BleError::ReadFailed(s.clone()),
            BleError::WriteFailed(s) => BleError::WriteFailed(s.clone()),
            BleError::SubscribeFailed(s) => BleError::SubscribeFailed(s.clone()),
            BleError::UnsubscribeFailed(s) => BleError::UnsubscribeFailed(s.clone()),
            BleError::ServiceDiscoveryFailed(s) => BleError::ServiceDiscoveryFailed(s.clone()),
            BleError::PermissionDenied(s) => BleError::PermissionDenied(s.clone()),
            BleError::Timeout(s) => BleError::Timeout(s.clone()),
            BleError::InternalError(s) => BleError::InternalError(s.clone()),
        }
    }
}

impl BleError {
    /// The human-readable message: the kind's fixed text, followed by the
    /// detail where the kind carries one.
    pub fn to_string(&self) -> (r: String)
        ensures
            r@ == message_of(self.spec_kind(), self.detail()),
    {
        String::from_str(prefix_text(self.kind())).concat(self.detail_text())
    }

    /// The stable symbolic code of this error.
    pub fn error_code(&self) -> (r: &str)
        ensures
            r@ == code_of(self.spec_kind()),
    {
        code_text(self.kind())
    }

    /// Whether the failed request may succeed when tried again.
    pub fn is_retryable(&self) -> (r: bool)
        ensures
            r == retryable(self.spec_kind()),
    {
        match self {
            BleError::Timeout(_) => true,
            BleError::ConnectionFailed(_) => true,
            BleError::OperationFailed(_) => true,
            _ => false,
        }
    }

    /// The diagnostic line for this error: code, colon, space, message.
    pub fn log_line(&self) -> (r: String)
        ensures
            r@ == log_line_of(self.spec_kind(), self.detail()),
    {
        let message = self.to_string();
        String::from_str(self.error_code()).concat(": ").concat(message.as_str())
    }

    /// Queues this error's diagnostic line at level `Error`.
    pub fn log_error(&self, logs: &mut LogQueue)
        ensures
            final(logs).debug_mode() == old(logs).debug_mode(),
            final(logs).lines() == old(logs).lines().push(
                (LogLevel::Error, log_line_of(self.spec_kind(), self.detail())),
            ),
    {
        enqueue_log(logs, LogLevel::Error, self.log_line());
    }

    /// Queues this error's diagnostic line at level `Warn`.
    pub fn log_warning(&self, logs: &mut LogQueue)
        ensures
            final(logs).debug_mode() == old(logs).debug_mode(),
            final(logs).lines() == old(logs).lines().push(
                (LogLevel::Warn, log_line_of(self.spec_kind(), self.detail())),
            ),
    {
        enqueue_log(logs, LogLevel::Warn, self.log_line());
    }
}

/// The diagnostic queue and its debug switch. Worker-side code appends lines;
/// the consumer drains them once per tick and prints them itself.
pub struct LogQueue {
    debug: bool,
    entries: Vec<(LogLevel, String)>,
}

/// The lines of a queue as plain values, oldest first.
pub open spec fn lines_of(entries: Seq<(LogLevel, String)>) -> Seq<(LogLevel, Seq<char>)> {
    Seq::new(entries.len(), |i: int| (entries[i].0, entries[i].1@))
}

impl LogQueue {
    /// Whether debug mode is on.
    pub closed spec fn debug_mode(&self) -> bool {
        self.debug
    }

    /// The queued lines, oldest first.
    pub closed spec fn lines(&self) -> Seq<(LogLevel, Seq<char>)> {
        lines_of(self.entries@)
    }

    /// An empty queue with debug mode off.
    pub fn new() -> (r: LogQueue)
        ensures
            !r.debug_mode(),
            r.lines() == Seq::<(LogLevel, Seq<char>)>::empty(),
    {
        let r = LogQueue { debug: false, entries: Vec::new() };
        assert(r.lines() =~= Seq::<(LogLevel, Seq<char>)>::empty());
        r
    }

    /// The number of queued lines.
    pub fn len(&self) -> (r: usize)
        ensures
            r == self.lines().len(),
    {
        self.entries.len()
    }
}

/// Turns debug mode on or off. The queued lines stay.
pub fn set_debug_mode(logs: &mut LogQueue, enabled: bool)
    ensures
        final(logs).debug_mode() == enabled,
        final(logs).lines() == old(logs).lines(),
{
    logs.debug = enabled;
}

/// Whether debug mode is on.
pub fn is_debug_mode(logs: &LogQueue) -> (r: bool)
    ensures
        r == logs.debug_mode(),
{
    logs.debug
}

/// Appends one line to the queue, whatever the debug mode.
pub fn enqueue_log(logs: &mut LogQueue, level: LogLevel, message: String)
    ensures
        final(logs).debug_mode() == old(logs).debug_mode(),
        final(logs).lines() == old(logs).lines().push((level, message@)),
{
    logs.entries.push((level, message));
    assert(logs.lines() =~= old(logs).lines().push((level, message@)));
}

/// Takes every queued line out, oldest first, and leaves the queue empty.
pub fn drain_logs(logs: &mut LogQueue) -> (out: Vec<(LogLevel, String)>)
    ensures
        lines_of(out@) == old(logs).lines(),
        final(logs).lines() == Seq::<(LogLevel, Seq<char>)>::empty(),
        final(logs).debug_mode() == old(logs).debug_mode(),
{
    let mut out: Vec<(LogLevel, String)> = Vec::new();
    std::mem::swap(&mut logs.entries, &mut out);
    assert(logs.lines() =~= Seq::<(LogLevel, Seq<char>)>::empty());
    out
}

/// Appends a line at the given level if debug mode is on, and nothing
/// otherwise.
pub fn log_if_debug(logs: &mut LogQueue, level: LogLevel, message: String)
    ensures
        final(logs).debug_mode() == old(logs).debug_mode(),
        final(logs).lines() == if old(logs).debug_mode() {
            old(logs).lines().push((level, message@))
        } else {
            old(logs).lines()
        },
{
    if is_debug_mode(logs) {
        enqueue_log(logs, level, message);
    }
}

/// What is known of a device seen during a scan.
#[derive(Debug, PartialEq, Eq)]
pub struct DeviceInfo {
    pub address: String,
    pub name: Option<String>,
    pub rssi: Option<i16>,
    pub services: Vec<String>,
    pub manufacturer_data: HashMap<u16, Vec<u8>>,
    pub service_data: HashMap<String, Vec<u8>>,
    pub tx_power_level: Option<i16>,
}

/// A device record as plain values.
pub struct DeviceRecord {
    pub address: Seq<char>,
    pub name: Option<Seq<char>>,
    pub rssi: Option<i16>,
    pub services: Seq<Seq<char>>,
    pub manufacturer_data: Map<u16, Seq<u8>>,
    pub service_data: Map<Seq<char>, Seq<u8>>,
    pub tx_power_level: Option<i16>,
}

/// An optional text as a plain value.
pub open spec fn optional_text_view(t: Option<String>) -> Option<Seq<char>> {
    match t {
        Some(s) => Some(s@),
        None => None,
    }
}

impl View for DeviceInfo {
    type V = DeviceRecord;

    open spec fn view(&self) -> DeviceRecord {
        DeviceRecord {
            address: self.address@,
            name: optional_text_view(self.name),
            rssi: self.rssi,
            services: texts_view(self.services@),
            manufacturer_data: self.manufacturer_data.deep_view(),
            service_data: self.service_data.deep_view(),
            tx_power_level: self.tx_power_level,
        }
    }
}

impl Clone for DeviceInfo {
    fn clone(&self) -> (r: Self)
        ensures
            r@ == self@,
    {
        let manufacturer_data = self.manufacturer_data.clone();
        let service_data = self.service_data.clone();
        proof {
            reveal(vstd::std_specs::hash::hash_map_deep_view_impl);
            assert(manufacturer_data.deep_view() =~= self.manufacturer_data.deep_view());
            assert(service_data.deep_view() =~= self.service_data.deep_view());
        }
        DeviceInfo {
            address: self.address.clone(),
            name: clone_optional_text(&self.name),
            rssi: self.rssi,
            services: clone_texts(&self.services),
            manufacturer_data,
            service_data,
            tx_power_level: self.tx_power_level,
        }
    }
}

impl DeviceInfo {
    /// A record with the given fields.
    pub fn new(
        address: String,
        name: Option<String>,
        rssi: Option<i16>,
        services: Vec<String>,
        manufacturer_data: HashMap<u16, Vec<u8>>,
        service_data: HashMap<String, Vec<u8>>,
        tx_power_level: Option<i16>,
    ) -> (r: Self)
        ensures
            r.address == address,
            r.name == name,
            r.rssi == rssi,
            r.services == services,
            r.manufacturer_data == manufacturer_data,
            r.service_data == service_data,
            r.tx_power_level == tx_power_level,
    {
        Self { address, name, rssi, services, manufacturer_data, service_data, tx_power_level }
    }
}

/// A description of the local adapter.
#[derive(Debug, PartialEq, Eq)]
pub struct AdapterInfo {
    pub name: String,
    pub address: Option<String>,
}

impl Clone for AdapterInfo {
    fn clone(&self) -> (r: Self)
        ensures
            r == *self,
    {
        AdapterInfo { name: self.name.clone(), address: clone_optional_text(&self.address) }
    }
}

impl AdapterInfo {
    /// A description with the given name and address.
    pub fn new(name: String, address: Option<String>) -> (r: Self)
        ensures
            r.name == name,
            r.address == address,
    {
        Self { name, address }
    }
}

/// Appends lines to the queue, in order, whatever the debug mode.
pub fn append_logs(logs: &mut LogQueue, lines: &Vec<(LogLevel, String)>)
    ensures
        final(logs).debug_mode() == old(logs).debug_mode(),
        final(logs).lines() == old(logs).lines() + lines_of(lines@),
{
    let mut i: usize = 0;
    assert(logs.lines() =~= old(logs).lines() + lines_of(lines@).subrange(0, 0));
    while i < lines.len()
        invariant
            i <= lines.len(),
            logs.debug_mode() == old(logs).debug_mode(),
            logs.lines() == old(logs).lines() + lines_of(lines@).subrange(0, i as int),
        decreases lines.len() - i,
    {
        let level = lines[i].0;
        let text = lines[i].1.clone();
        enqueue_log(logs, level, text);
        assert(logs.lines() =~= old(logs).lines() + lines_of(lines@).subrange(0, i + 1));
        i += 1;
    }
    assert(lines_of(lines@).subrange(0, lines.len() as int) =~= lines_of(lines@));
}

} // verus!
