//! The session of one peripheral: its connection state, the services found
//! on it, and the characteristics whose notifications are subscribed.
//!
//! A session performs no radio operation itself. A request decides whether
//! an operation may start and, if so, hands back the command to dispatch; a
//! completion takes the outcome of a dispatched command, updates the session
//! and queues the event that reports it.

use crate::ble_characteristic::{
    characteristics_view, BleCharacteristicInfo, CharacteristicProperties, CharacteristicView,
};
use crate::ble_service::{services_view, BleServiceInfo, ServiceView};
use crate::event_bridge::{EventBridge, EventView, QueuedEvent};
use crate::text::{eq_ignore_ascii_case, lowercase_of, same_ignoring_case, to_lowercase};
use crate::text_set::TextSet;
use crate::types::{log_line_of, BleError, ErrorKind, LogLevel};
use vstd::prelude::*;
use vstd::string::*;

verus! {

/// Where a session stands.
#[derive(Clone, Copy, Debug, PartialEq, Eq, Structural)]
pub enum ConnectionState {
    Disconnected,
    Connecting,
    Connected,
    Disconnecting,
}

/// A radio operation for the worker runtime to perform on a peripheral.
///
/// `service_uuid` and `char_uuid` are spelled as the service cache records
/// them; `report_as` is the characteristic uuid as the caller wrote it, under
/// which the outcome is reported.
#[derive(Debug, PartialEq, Eq)]
pub enum DeviceCommand {
    Connect,
    Disconnect,
    DiscoverServices,
    Read { service_uuid: String, char_uuid: String, report_as: String },
    Write {
        service_uuid: String,
        char_uuid: String,
        report_as: String,
        data: Vec<u8>,
        with_response: bool,
    },
    Subscribe { service_uuid: String, char_uuid: String, report_as: String },
    Unsubscribe { service_uuid: String, char_uuid: String, report_as: String },
    /// Unsubscribe from each listed characteristic, ignoring failures, then
    /// disconnect. Each is named by its service's uuid and its own, spelled
    /// as the service cache records them.
    Teardown { unsubscribe: Vec<(String, String)> },
}

/// A command as plain values.
pub enum CommandView {
    Connect,
    Disconnect,
    DiscoverServices,
    Read { service_uuid: Seq<char>, char_uuid: Seq<char>, report_as: Seq<char> },
    Write {
        service_uuid: Seq<char>,
        char_uuid: Seq<char>,
        report_as: Seq<char>,
        data: Seq<u8>,
        with_response: bool,
    },
    Subscribe { service_uuid: Seq<char>, char_uuid: Seq<char>, report_as: Seq<char> },
    Unsubscribe { service_uuid: Seq<char>, char_uuid: Seq<char>, report_as: Seq<char> },
    Teardown { unsubscribe: Seq<(Seq<char>, Seq<char>)> },
}

/// Pairs of texts as plain values, in order.
pub open spec fn pairs_view(items: Seq<(String, String)>) -> Seq<(Seq<char>, Seq<char>)> {
    Seq::new(items.len(), |i: int| (items[i].0@, items[i].1@))
}

impl View for DeviceCommand {
    type V = CommandView;

    open spec fn view(&self) -> CommandView {
        match self {
            DeviceCommand::Connect => CommandView::Connect,
            DeviceCommand::Disconnect => CommandView::Disconnect,
            DeviceCommand::DiscoverServices => CommandView::DiscoverServices,
            DeviceCommand::Read { service_uuid, char_uuid, report_as } => CommandView::Read {
                service_uuid: service_uuid@,
                char_uuid: char_uuid@,
                report_as: report_as@,
            },
            DeviceCommand::Write { service_uuid, char_uuid, report_as, data, with_response } =>
                CommandView::Write {
                    service_uuid: service_uuid@,
                    char_uuid: char_uuid@,
                    report_as: report_as@,
                    data: data@,
                    with_response: *with_response,
                },
            DeviceCommand::Subscribe { service_uuid, char_uuid, report_as } =>
                CommandView::Subscribe {
                    service_uuid: service_uuid@,
                    char_uuid: char_uuid@,
                    report_as: report_as@,
                },
            DeviceCommand::Unsubscribe { service_uuid, char_uuid, report_as } =>
                CommandView::Unsubscribe {
                    service_uuid: service_uuid@,
                    char_uuid: char_uuid@,
                    report_as: report_as@,
                },
            DeviceCommand::Teardown { unsubscribe } => CommandView::Teardown {
                unsubscribe: pairs_view(unsubscribe@),
            },
        }
    }
}

/// The operations that act on one characteristic.
#[derive(Clone, Copy, Debug, PartialEq, Eq, Structural)]
pub enum Operation {
    Read,
    Write,
    Subscribe,
    Unsubscribe,
}

/// The name under which a failed operation is reported.
pub open spec fn operation_name(op: Operation) -> Seq<char> {
    match op {
        Operation::Read => "read_characteristic"@,
        Operation::Write => "write_characteristic"@,
        Operation::Subscribe => "subscribe_characteristic"@,
        Operation::Unsubscribe => "unsubscribe_characteristic"@,
    }
}

/// The kind of error that reports a failure of the operation in the stack.
pub open spec fn failure_kind(op: Operation) -> ErrorKind {
    match op {
        Operation::Read => ErrorKind::ReadFailed,
        Operation::Write => ErrorKind::WriteFailed,
        Operation::Subscribe => ErrorKind::SubscribeFailed,
        Operation::Unsubscribe => ErrorKind::UnsubscribeFailed,
    }
}

/// A session as plain values.
pub struct SessionView {
    pub address: Seq<char>,
    pub name: Seq<char>,
    pub state: ConnectionState,
    pub services: Seq<ServiceView>,
    pub subscribed: Set<Seq<char>>,
}

/// Whether the characteristic at position `j` of the service at position `i`
/// is the one asked for: both uuids match, letter case aside.
pub open spec fn is_match(
    services: Seq<ServiceView>,
    i: int,
    j: int,
    service_uuid: Seq<char>,
    char_uuid: Seq<char>,
) -> bool {
    &&& 0 <= i < services.len()
    &&& 0 <= j < services[i].characteristics.len()
    &&& same_ignoring_case(services[i].uuid, service_uuid)
    &&& same_ignoring_case(services[i].characteristics[j].uuid, char_uuid)
}

/// Whether the cache holds the characteristic asked for.
pub open spec fn has_characteristic(
    services: Seq<ServiceView>,
    service_uuid: Seq<char>,
    char_uuid: Seq<char>,
) -> bool {
    exists|i: int, j: int| is_match(services, i, j, service_uuid, char_uuid)
}

/// Whether `(i, j)` is the first match in cache order.
pub open spec fn is_first_match(
    services: Seq<ServiceView>,
    i: int,
    j: int,
    service_uuid: Seq<char>,
    char_uuid: Seq<char>,
) -> bool {
    &&& is_match(services, i, j, service_uuid, char_uuid)
    &&& forall|a: int, b: int| #[trigger]
        is_match(services, a, b, service_uuid, char_uuid) ==> i < a || (i == a && j <= b)
}

/// What is recorded only while a link exists is absent without one: a
/// session that is disconnected, or has only begun to connect, holds no
/// service and no subscription.
pub open spec fn session_consistent(v: SessionView) -> bool {
    (v.state == ConnectionState::Disconnected || v.state == ConnectionState::Connecting) ==> {
        &&& v.services.len() == 0
        &&& v.subscribed == Set::<Seq<char>>::empty()
    }
}

/// The text that names a characteristic that was not found.
pub open spec fn not_found_detail(service_uuid: Seq<char>, char_uuid: Seq<char>) -> Seq<char> {
    char_uuid + " in service "@ + service_uuid
}

/// The bridge after one failure report: the event is queued behind the
/// others, and the error's line is queued at level `Error`.
pub open spec fn reported(
    before: EventBridge,
    after: EventBridge,
    operation: Seq<char>,
    error: (ErrorKind, Seq<char>),
) -> bool {
    &&& after.events() == before.events().push(EventView::OperationFailed(operation, error))
    &&& after.logs.lines() == before.logs.lines().push(
        (LogLevel::Error, log_line_of(error.0, error.1)),
    )
    &&& after.logs.debug_mode() == before.logs.debug_mode()
}

/// The bridge after one event was queued and nothing logged.
pub open spec fn delivered(before: EventBridge, after: EventBridge, event: EventView) -> bool {
    &&& after.events() == before.events().push(event)
    &&& after.logs == before.logs
}

/// The session of one peripheral.
pub struct BleDevice {
    address: String,
    name: String,
    state: ConnectionState,
    services: Vec<BleServiceInfo>,
    subscribed: TextSet,
}

impl View for BleDevice {
    type V = SessionView;

    closed spec fn view(&self) -> SessionView {
        SessionView {
            address: self.address@,
            name: self.name@,
            state: self.state,
            services: services_view(self.services@),
            subscribed: self.subscribed@,
        }
    }
}

impl BleDevice {
    /// The representation is sound.
    pub closed spec fn inner_wf(&self) -> bool {
        self.subscribed.wf()
    }

    /// The session is valid: its representation is sound and it records
    /// services and subscriptions only where a link exists.
    pub open spec fn wf(&self) -> bool {
        self.inner_wf() && session_consistent(self@)
    }

    /// A session for the peripheral with the given address and name,
    /// disconnected, with nothing cached and nothing subscribed.
    pub fn new(address: String, name: String) -> (r: BleDevice)
        ensures
            r.wf(),
            r@ == (SessionView {
                address: address@,
                name: name@,
                state: ConnectionState::Disconnected,
                services: Seq::<ServiceView>::empty(),
                subscribed: Set::<Seq<char>>::empty(),
            }),
    {
        let r = BleDevice {
            address,
            name,
            state: ConnectionState::Disconnected,
            services: Vec::new(),
            subscribed: TextSet::new(),
        };
        assert(services_view(r.services@) =~= Seq::<ServiceView>::empty());
        r
    }

    /// Whether the session is connected.
    pub fn is_connected(&self) -> (r: bool)
        ensures
            r == (self@.state == ConnectionState::Connected),
    {
        self.state == ConnectionState::Connected
    }

    /// Where the session stands.
    pub fn connection_state(&self) -> (r: ConnectionState)
        ensures
            r == self@.state,
    {
        self.state
    }

    /// The address of the peripheral.
    pub fn get_address(&self) -> (r: &String)
        ensures
            r@ == self@.address,
    {
        &self.address
    }

    /// The name of the peripheral; empty where it announced none.
    pub fn get_name(&self) -> (r: &String)
        ensures
            r@ == self@.name,
    {
        &self.name
    }

    /// The services found by the last successful discovery.
    pub fn get_services(&self) -> (r: &Vec<BleServiceInfo>)
        ensures
            services_view(r@) == self@.services,
    {
        &self.services
    }

    /// The characteristics whose notifications are subscribed, each in its
    /// lowercase form.
    pub fn subscribed_characteristics(&self) -> (r: Vec<String>)
        requires
            self.wf(),
        ensures
            crate::text::texts_view(r@).no_duplicates(),
            crate::text::texts_view(r@).to_set() == self@.subscribed,
    {
        self.subscribed.to_vec()
    }

    /// Whether a subscription is recorded under the key.
    pub fn has_subscription(&self, key: &String) -> (r: bool)
        ensures
            r == self@.subscribed.contains(key@),
    {
        self.subscribed.contains(key)
    }

    /// Whether notifications of the characteristic are subscribed: whether a
    /// subscription is recorded under the lowercase form of its uuid.
    pub fn is_subscribed(&self, char_uuid: &str) -> (r: bool)
        ensures
            r == self@.subscribed.contains(lowercase_of(char_uuid@)),
    {
        let key = to_lowercase(char_uuid);
        self.has_subscription(&key)
    }
}

/// The error with which a request on a characteristic is refused: the
/// session is not connected, or it is and the cache holds no match.
pub open spec fn refusal(v: SessionView, service_uuid: Seq<char>, char_uuid: Seq<char>) -> (
    ErrorKind,
    Seq<char>,
) {
    if v.state != ConnectionState::Connected {
        (ErrorKind::NotConnected, Seq::<char>::empty())
    } else {
        (ErrorKind::CharacteristicNotFound, not_found_detail(service_uuid, char_uuid))
    }
}

/// Whether a request on a characteristic is granted.
pub open spec fn granted(v: SessionView, service_uuid: Seq<char>, char_uuid: Seq<char>) -> bool {
    v.state == ConnectionState::Connected && has_characteristic(
        v.services,
        service_uuid,
        char_uuid,
    )
}

/// The name under which a failed operation is reported.
pub fn operation_text(op: Operation) -> (r: &'static str)
    ensures
        r@ == operation_name(op),
{
    match op {
        Operation::Read => "read_characteristic",
        Operation::Write => "write_characteristic",
        Operation::Subscribe => "subscribe_characteristic",
        Operation::Unsubscribe => "unsubscribe_characteristic",
    }
}

/// The error that reports a failure of the operation in the stack, with the
/// stack's own words as its detail.
pub fn stack_failure(op: Operation, detail: String) -> (r: BleError)
    ensures
        r@ == (failure_kind(op), detail@),
{
    match op {
        Operation::Read => BleError::ReadFailed(detail),
        Operation::Write => BleError::WriteFailed(detail),
        Operation::Subscribe => BleError::SubscribeFailed(detail),
        Operation::Unsubscribe => BleError::UnsubscribeFailed(detail),
    }
}

/// Queues the report of a failed operation and logs the error.
pub fn report_failure(bridge: &mut EventBridge, operation: &str, error: BleError)
    ensures
        reported(*old(bridge), *final(bridge), operation@, error@),
{
    error.log_error(&mut bridge.logs);
    bridge.push_event(QueuedEvent::OperationFailed(String::from_str(operation), error));
}

impl BleDevice {
    /// The first characteristic of the cache, in cache order, whose uuid and
    /// whose service's uuid match the given ones, letter case aside.
    pub fn find_characteristic(&self, service_uuid: &str, char_uuid: &str) -> (r: Option<
        (usize, usize),
    >)
        ensures
            match r {
                Some((i, j)) => is_first_match(
                    self@.services,
                    i as int,
                    j as int,
                    service_uuid@,
                    char_uuid@,
                ),
                None => !has_characteristic(self@.services, service_uuid@, char_uuid@),
            },
    {
        let ghost services = self@.services;
        let mut i: usize = 0;
        while i < self.services.len()
            invariant
                i <= self.services.len(),
                services == self@.services,
                services.len() == self.services.len(),
                forall|a: int, b: int|
                    0 <= a < i ==> !#[trigger] is_match(services, a, b, service_uuid@, char_uuid@),
            decreases self.services.len() - i,
        {
            let service = &self.services[i];
            assert(services[i as int] == service@);
            if eq_ignore_ascii_case(service.uuid.as_str(), service_uuid) {
                let mut j: usize = 0;
                while j < service.characteristics.len()
                    invariant
                        j <= service.characteristics.len(),
                        i < self.services.len(),
                        services == self@.services,
                        services[i as int] == service@,
                        same_ignoring_case(service@.uuid, service_uuid@),
                        forall|a: int, b: int|
                            0 <= a < i ==> !#[trigger] is_match(
                                services,
                                a,
                                b,
                                service_uuid@,
                                char_uuid@,
                            ),
                        forall|b: int|
                            0 <= b < j ==> !#[trigger] is_match(
                                services,
                                i as int,
                                b,
                                service_uuid@,
                                char_uuid@,
                            ),
                    decreases service.characteristics.len() - j,
                {
                    let characteristic = &service.characteristics[j];
                    assert(service@.characteristics[j as int] == characteristic@);
                    if eq_ignore_ascii_case(characteristic.uuid.as_str(), char_uuid) {
                        assert(is_match(services, i as int, j as int, service_uuid@, char_uuid@));
                        return Some((i, j));
                    }
                    j += 1;
                }
            }
            i += 1;
        }
        None
    }

    /// Decides whether an operation on a characteristic may start. Where it
    /// may, the place of the characteristic in the cache is handed back and
    /// the bridge is not touched; where it may not, the refusal is reported.
    fn screen_request(
        &self,
        op: Operation,
        service_uuid: &str,
        char_uuid: &str,
        bridge: &mut EventBridge,
    ) -> (r: Option<(usize, usize)>)
        ensures
            r.is_some() == granted(self@, service_uuid@, char_uuid@),
            match r {
                Some((i, j)) => {
                    &&& *final(bridge) == *old(bridge)
                    &&& is_first_match(
                        self@.services,
                        i as int,
                        j as int,
                        service_uuid@,
                        char_uuid@,
                    )
                    &&& i < self.services.len()
                    &&& j < self.services@[i as int].characteristics.len()
                },
                None => reported(
                    *old(bridge),
                    *final(bridge),
                    operation_name(op),
                    refusal(self@, service_uuid@, char_uuid@),
                ),
            },
    {
        if !self.is_connected() {
            report_failure(bridge, operation_text(op), BleError::NotConnected);
            return None;
        }
        match self.find_characteristic(service_uuid, char_uuid) {
            Some((i, j)) => {
                assert(is_match(self@.services, i as int, j as int, service_uuid@, char_uuid@));
                Some((i, j))
            },
            None => {
                let detail = String::from_str(char_uuid).concat(" in service ").concat(
                    service_uuid,
                );
                report_failure(
                    bridge,
                    operation_text(op),
                    BleError::CharacteristicNotFound(detail),
                );
                None
            },
        }
    }
}

/// The command that performs an operation on the characteristic at position
/// `j` of the service at position `i` of the cache.
pub open spec fn target_command(
    op: Operation,
    services: Seq<ServiceView>,
    i: int,
    j: int,
    report_as: Seq<char>,
    data: Seq<u8>,
    with_response: bool,
) -> CommandView {
    let service_uuid = services[i].uuid;
    let char_uuid = services[i].characteristics[j].uuid;
    match op {
        Operation::Read => CommandView::Read { service_uuid, char_uuid, report_as },
        Operation::Write => CommandView::Write {
            service_uuid,
            char_uuid,
            report_as,
            data,
            with_response,
        },
        Operation::Subscribe => CommandView::Subscribe { service_uuid, char_uuid, report_as },
        Operation::Unsubscribe => CommandView::Unsubscribe { service_uuid, char_uuid, report_as },
    }
}

/// The detail of the failure that answers a request to connect while the
/// session is disconnecting.
pub open spec fn disconnect_in_progress() -> Seq<char> {
    "disconnect in progress"@
}

/// What a request to connect yields. Only a disconnected session dispatches
/// a connect, and it is connecting from then on. In every other state the
/// session stays as it is and nothing is dispatched: while connecting
/// nothing is reported, since the attempt in flight will report; a connected
/// session reports success; a disconnecting one reports and logs the
/// failure.
pub open spec fn connect_request(
    before: SessionView,
    queued: EventBridge,
    after: SessionView,
    bridge: EventBridge,
    r: Option<DeviceCommand>,
) -> bool {
    match before.state {
        ConnectionState::Disconnected => {
            &&& r matches Some(command)
            &&& command@ == CommandView::Connect
            &&& after == (SessionView { state: ConnectionState::Connecting, ..before })
            &&& bridge == queued
        },
        ConnectionState::Connecting => {
            &&& r is None
            &&& after == before
            &&& bridge == queued
        },
        ConnectionState::Connected => {
            &&& r is None
            &&& after == before
            &&& delivered(queued, bridge, EventView::ConnectSucceeded)
        },
        ConnectionState::Disconnecting => {
            &&& r is None
            &&& after == before
            &&& bridge.events() == queued.events().push(
                EventView::ConnectFailed((ErrorKind::ConnectionFailed, disconnect_in_progress())),
            )
            &&& bridge.logs.lines() == queued.logs.lines().push(
                (
                    LogLevel::Error,
                    log_line_of(ErrorKind::ConnectionFailed, disconnect_in_progress()),
                ),
            )
            &&& bridge.logs.debug_mode() == queued.logs.debug_mode()
        },
    }
}

/// What a request on a characteristic yields: the command on the first match
/// where the request is granted, with the bridge as it was; nothing, and the
/// refusal reported, where it is not.
pub open spec fn request_outcome(
    v: SessionView,
    op: Operation,
    service_uuid: Seq<char>,
    char_uuid: Seq<char>,
    data: Seq<u8>,
    with_response: bool,
    before: EventBridge,
    after: EventBridge,
    r: Option<DeviceCommand>,
) -> bool {
    &&& r.is_some() == granted(v, service_uuid, char_uuid)
    &&& match r {
        Some(command) => {
            &&& after == before
            &&& exists|i: int, j: int|
                #![trigger is_first_match(v.services, i, j, service_uuid, char_uuid)]
                {
                    &&& is_first_match(v.services, i, j, service_uuid, char_uuid)
                    &&& command@ == target_command(
                        op,
                        v.services,
                        i,
                        j,
                        char_uuid,
                        data,
                        with_response,
                    )
                }
        },
        None => reported(
            before,
            after,
            operation_name(op),
            refusal(v, service_uuid, char_uuid),
        ),
    }
}

impl BleDevice {
    /// Asks for a connection. A disconnected session begins to connect and
    /// the connect command is handed back. In every other state nothing is
    /// dispatched and the state stays: while connecting, the attempt in
    /// flight will report; a connected session reports success again; a
    /// session that is disconnecting reports the failure and logs it.
    pub fn connect_async(&mut self, bridge: &mut EventBridge) -> (r: Option<DeviceCommand>)
        requires
            old(self).wf(),
        ensures
            final(self).wf(),
            connect_request(old(self)@, *old(bridge), final(self)@, *final(bridge), r),
    {
        match self.state {
            ConnectionState::Disconnected => {
                self.state = ConnectionState::Connecting;
                Some(DeviceCommand::Connect)
            },
            ConnectionState::Connecting => None,
            ConnectionState::Connected => {
                bridge.push_event(QueuedEvent::ConnectSucceeded);
                None
            },
            ConnectionState::Disconnecting => {
                let error = BleError::ConnectionFailed(String::from_str("disconnect in progress"));
                error.log_error(&mut bridge.logs);
                bridge.push_event(QueuedEvent::ConnectFailed(error));
                None
            },
        }
    }

    /// Takes the outcome of a connection attempt. While the session is
    /// connecting, success makes it connected and is reported; failure makes
    /// it disconnected and is reported and logged. In any other state the
    /// outcome is stale and dropped.
    pub fn complete_connect(&mut self, outcome: Result<(), String>, bridge: &mut EventBridge)
        requires
            old(self).wf(),
        ensures
            final(self).wf(),
            old(self)@.state != ConnectionState::Connecting ==> {
                &&& final(self)@ == old(self)@
                &&& *final(bridge) == *old(bridge)
            },
            old(self)@.state == ConnectionState::Connecting ==> match outcome {
                Ok(_) => {
                    &&& final(self)@ == (SessionView {
                        state: ConnectionState::Connected,
                        ..old(self)@
                    })
                    &&& delivered(*old(bridge), *final(bridge), EventView::ConnectSucceeded)
                },
                Err(detail) => {
                    &&& final(self)@ == (SessionView {
                        state: ConnectionState::Disconnected,
                        ..old(self)@
                    })
                    &&& final(bridge).events() == old(bridge).events().push(
                        EventView::ConnectFailed((ErrorKind::ConnectionFailed, detail@)),
                    )
                    &&& final(bridge).logs.lines() == old(bridge).logs.lines().push(
                        (LogLevel::Error, log_line_of(ErrorKind::ConnectionFailed, detail@)),
                    )
                    &&& final(bridge).logs.debug_mode() == old(bridge).logs.debug_mode()
                },
            },
    {
        if self.state != ConnectionState::Connecting {
            return ;
        }
        match outcome {
            Ok(_) => {
                self.state = ConnectionState::Connected;
                bridge.push_event(QueuedEvent::ConnectSucceeded);
            },
            Err(detail) => {
                self.state = ConnectionState::Disconnected;
                let error = BleError::ConnectionFailed(detail);
                error.log_error(&mut bridge.logs);
                bridge.push_event(QueuedEvent::ConnectFailed(error));
            },
        }
    }

    /// Requests a disconnect. The session stops counting as connected at
    /// once, whatever state it was in, and the disconnect command is handed
    /// back; what it recorded stays until the disconnect completes.
    pub fn disconnect(&mut self) -> (r: DeviceCommand)
        requires
            old(self).wf(),
        ensures
            final(self).wf(),
            r@ == CommandView::Disconnect,
            final(self)@ == (SessionView {
                state: ConnectionState::Disconnecting,
                ..old(self)@
            }),
    {
        self.state = ConnectionState::Disconnecting;
        DeviceCommand::Disconnect
    }

    /// Takes the outcome of a disconnect, or the news that the link is gone.
    /// Whatever the outcome and the state, the session is disconnected
    /// afterwards and holds no service and no subscription. A failure is
    /// logged as a warning and not reported.
    pub fn complete_disconnect(&mut self, outcome: Result<(), String>, bridge: &mut EventBridge)
        requires
            old(self).wf(),
        ensures
            final(self).wf(),
            final(self)@ == (SessionView {
                state: ConnectionState::Disconnected,
                services: Seq::<ServiceView>::empty(),
                subscribed: Set::<Seq<char>>::empty(),
                ..old(self)@
            }),
            final(bridge).events() == old(bridge).events(),
            final(bridge).logs.debug_mode() == old(bridge).logs.debug_mode(),
            final(bridge).logs.lines() == match outcome {
                Ok(_) => old(bridge).logs.lines(),
                Err(detail) => old(bridge).logs.lines().push(
                    (
                        LogLevel::Warn,
                        log_line_of(ErrorKind::OperationFailed, "Disconnect failed: "@ + detail@),
                    ),
                ),
            },
    {
        self.state = ConnectionState::Disconnected;
        self.services.clear();
        self.subscribed.clear();
        assert(services_view(self.services@) =~= Seq::<ServiceView>::empty());
        match outcome {
            Ok(_) => {},
            Err(detail) => {
                let error = BleError::OperationFailed(
                    String::from_str("Disconnect failed: ").concat(detail.as_str()),
                );
                error.log_warning(&mut bridge.logs);
            },
        }
    }

    /// The first characteristic of the cache, in cache order, whose uuid
    /// matches the given one, letter case aside, whatever its service.
    pub fn find_by_uuid(&self, char_uuid: &str) -> (r: Option<(usize, usize)>)
        ensures
            match r {
                Some((i, j)) => is_first_uuid_match(
                    self@.services,
                    i as int,
                    j as int,
                    char_uuid@,
                ),
                None => !has_uuid(self@.services, char_uuid@),
            },
    {
        let ghost services = self@.services;
        let mut i: usize = 0;
        while i < self.services.len()
            invariant
                i <= self.services.len(),
                services == self@.services,
                services.len() == self.services.len(),
                forall|a: int, b: int|
                    0 <= a < i ==> !#[trigger] is_uuid_match(services, a, b, char_uuid@),
            decreases self.services.len() - i,
        {
            let service = &self.services[i];
            assert(services[i as int] == service@);
            let mut j: usize = 0;
            while j < service.characteristics.len()
                invariant
                    j <= service.characteristics.len(),
                    i < self.services.len(),
                    services == self@.services,
                    services[i as int] == service@,
                    forall|a: int, b: int|
                        0 <= a < i ==> !#[trigger] is_uuid_match(services, a, b, char_uuid@),
                    forall|b: int|
                        0 <= b < j ==> !#[trigger] is_uuid_match(
                            services,
                            i as int,
                            b,
                            char_uuid@,
                        ),
                decreases service.characteristics.len() - j,
            {
                let characteristic = &service.characteristics[j];
                assert(service@.characteristics[j as int] == characteristic@);
                if eq_ignore_ascii_case(characteristic.uuid.as_str(), char_uuid) {
                    assert(is_uuid_match(services, i as int, j as int, char_uuid@));
                    return Some((i, j));
                }
                j += 1;
            }
            i += 1;
        }
        None
    }

    /// The characteristics to unsubscribe from at teardown, for the given
    /// subscription keys in order: for each key that matches a cached
    /// characteristic, the first such characteristic, named as the cache
    /// spells it. A key that matches none is passed over.
    pub fn teardown_list(&self, keys: &Vec<String>) -> (r: Vec<(String, String)>)
        ensures
            pairs_view(r@) == teardown_targets(
                self@.services,
                crate::text::texts_view(keys@),
                keys.len() as nat,
            ),
    {
        let ghost services = self@.services;
        let ghost wanted = crate::text::texts_view(keys@);
        let mut out: Vec<(String, String)> = Vec::new();
        let mut n: usize = 0;
        assert(pairs_view(out@) =~= teardown_targets(services, wanted, 0));
        while n < keys.len()
            invariant
                n <= keys.len(),
                services == self@.services,
                wanted == crate::text::texts_view(keys@),
                pairs_view(out@) == teardown_targets(services, wanted, n as nat),
            decreases keys.len() - n,
        {
            let ghost before = pairs_view(out@);
            assert(wanted[n as int] == keys@[n as int]@);
            match self.find_by_uuid(keys[n].as_str()) {
                Some((i, j)) => {
                    let service = &self.services[i];
                    assert(services[i as int] == service@);
                    assert(is_uuid_match(services, i as int, j as int, wanted[n as int]));
                    proof {
                        lemma_first_uuid_place(services, i as int, j as int, wanted[n as int]);
                    }
                    let pair = (service.uuid.clone(), service.characteristics[j].uuid.clone());
                    out.push(pair);
                    assert(pairs_view(out@) =~= before.push(
                        target_at(services, (i as int, j as int)),
                    ));
                },
                None => {},
            }
            n += 1;
        }
        out
    }

    /// Tears the session down. A connected session hands back the command
    /// that unsubscribes from the characteristics of its subscriptions and
    /// then disconnects; any other session dispatches nothing. Either way the
    /// session is disconnected afterwards and holds no service and no
    /// subscription.
    pub fn cleanup(&mut self) -> (r: Option<DeviceCommand>)
        requires
            old(self).wf(),
        ensures
            final(self).wf(),
            final(self)@ == (SessionView {
                state: ConnectionState::Disconnected,
                services: Seq::<ServiceView>::empty(),
                subscribed: Set::<Seq<char>>::empty(),
                ..old(self)@
            }),
            teardown_of(old(self)@, r),
    {
        let command = if self.state == ConnectionState::Connected {
            let keys = self.subscribed.to_vec();
            let unsubscribe = self.teardown_list(&keys);
            let ghost order = crate::text::texts_view(keys@);
            let ghost targets = pairs_view(unsubscribe@);
            let command = DeviceCommand::Teardown { unsubscribe };
            assert(is_teardown_for(old(self)@, order, targets));
            assert(command@->Teardown_unsubscribe == targets);
            assert(teardown_of(old(self)@, Some(command)));
            Some(command)
        } else {
            None
        };
        self.state = ConnectionState::Disconnected;
        self.services.clear();
        self.subscribed.clear();
        assert(services_view(self.services@) =~= Seq::<ServiceView>::empty());
        command
    }
}

/// Whether the characteristic at position `j` of the service at position `i`
/// has the given uuid, letter case aside.
pub open spec fn is_uuid_match(services: Seq<ServiceView>, i: int, j: int, char_uuid: Seq<char>)
    -> bool {
    &&& 0 <= i < services.len()
    &&& 0 <= j < services[i].characteristics.len()
    &&& same_ignoring_case(services[i].characteristics[j].uuid, char_uuid)
}

/// Whether the cache holds a characteristic with the given uuid.
pub open spec fn has_uuid(services: Seq<ServiceView>, char_uuid: Seq<char>) -> bool {
    exists|i: int, j: int| is_uuid_match(services, i, j, char_uuid)
}

/// Whether `(i, j)` is the first characteristic with the given uuid, in
/// cache order.
pub open spec fn is_first_uuid_match(
    services: Seq<ServiceView>,
    i: int,
    j: int,
    char_uuid: Seq<char>,
) -> bool {
    &&& is_uuid_match(services, i, j, char_uuid)
    &&& forall|a: int, b: int| #[trigger]
        is_uuid_match(services, a, b, char_uuid) ==> i < a || (i == a && j <= b)
}

/// The place of the first characteristic with the given uuid.
pub open spec fn first_uuid_place(services: Seq<ServiceView>, char_uuid: Seq<char>) -> (int, int) {
    choose|p: (int, int)| is_first_uuid_match(services, p.0, p.1, char_uuid)
}

/// The names of the characteristic at a place of the cache: its service's
/// uuid and its own.
pub open spec fn target_at(services: Seq<ServiceView>, place: (int, int)) -> (
    Seq<char>,
    Seq<char>,
) {
    (services[place.0].uuid, services[place.0].characteristics[place.1].uuid)
}

/// The characteristics to unsubscribe from for the first `n` subscription
/// keys: for each key that matches a cached characteristic, the first such
/// characteristic; a key that matches none contributes nothing.
pub open spec fn teardown_targets(services: Seq<ServiceView>, keys: Seq<Seq<char>>, n: nat) -> Seq<
    (Seq<char>, Seq<char>),
>
    decreases n,
{
    if n == 0 {
        Seq::empty()
    } else {
        let before = teardown_targets(services, keys, (n - 1) as nat);
        if has_uuid(services, keys[n - 1]) {
            before.push(target_at(services, first_uuid_place(services, keys[n - 1])))
        } else {
            before
        }
    }
}

/// Whether `targets` is what a session unsubscribes from at teardown when
/// its subscriptions are taken in the order of `keys`, which lists each of
/// them once.
pub open spec fn is_teardown_for(
    v: SessionView,
    keys: Seq<Seq<char>>,
    targets: Seq<(Seq<char>, Seq<char>)>,
) -> bool {
    &&& keys.no_duplicates()
    &&& keys.to_set() == v.subscribed
    &&& targets == teardown_targets(v.services, keys, keys.len())
}

/// Whether `command` is what the teardown of a session yields: for a
/// connected session the command that unsubscribes from the characteristics
/// of its subscriptions, taken in some order, and then disconnects; for any
/// other session nothing.
pub open spec fn teardown_of(v: SessionView, command: Option<DeviceCommand>) -> bool {
    &&& command.is_some() == (v.state == ConnectionState::Connected)
    &&& match command {
        Some(c) => {
            &&& c@ is Teardown
            &&& exists|keys: Seq<Seq<char>>| #[trigger]
                is_teardown_for(v, keys, c@->Teardown_unsubscribe)
        },
        None => true,
    }
}

/// The first characteristic with a given uuid is at one place only.
pub proof fn lemma_first_uuid_place(
    services: Seq<ServiceView>,
    i: int,
    j: int,
    char_uuid: Seq<char>,
)
    requires
        is_first_uuid_match(services, i, j, char_uuid),
    ensures
        has_uuid(services, char_uuid),
        first_uuid_place(services, char_uuid) == (i, j),
{
    assert(is_uuid_match(services, i, j, char_uuid));
    let witness = (i, j);
    assert(is_first_uuid_match(services, witness.0, witness.1, char_uuid));
    let p = first_uuid_place(services, char_uuid);
    assert(is_first_uuid_match(services, p.0, p.1, char_uuid));
    assert(is_uuid_match(services, p.0, p.1, char_uuid));
}

/// A characteristic as the stack reports it: its uuid and its GATT
/// property byte.
#[derive(Debug, PartialEq, Eq)]
pub struct DiscoveredCharacteristic {
    pub uuid: String,
    pub properties: u8,
}

/// A service as the stack reports it.
#[derive(Debug, PartialEq, Eq)]
pub struct DiscoveredService {
    pub uuid: String,
    pub characteristics: Vec<DiscoveredCharacteristic>,
}

/// The record kept for a reported characteristic.
pub open spec fn recorded_characteristic(c: DiscoveredCharacteristic) -> CharacteristicView {
    CharacteristicView {
        uuid: c.uuid@,
        properties: CharacteristicProperties::of_bits(c.properties),
    }
}

/// The record kept for a reported service: its characteristics in the
/// reported order.
pub open spec fn recorded_service(s: DiscoveredService) -> ServiceView {
    ServiceView {
        uuid: s.uuid@,
        characteristics: Seq::new(
            s.characteristics@.len(),
            |j: int| recorded_characteristic(s.characteristics@[j]),
        ),
    }
}

/// The records kept for the reported services, in the reported order.
pub open spec fn recorded_services(found: Seq<DiscoveredService>) -> Seq<ServiceView> {
    Seq::new(found.len(), |i: int| recorded_service(found[i]))
}

/// The records kept for the services that a discovery reported.
pub fn build_services(found: &Vec<DiscoveredService>) -> (r: Vec<BleServiceInfo>)
    ensures
        services_view(r@) == recorded_services(found@),
{
    let mut out: Vec<BleServiceInfo> = Vec::new();
    let mut i: usize = 0;
    while i < found.len()
        invariant
            i <= found.len(),
            out.len() == i,
            forall|a: int| 0 <= a < i ==> out@[a]@ == recorded_service(found@[a]),
        decreases found.len() - i,
    {
        let service = &found[i];
        let mut characteristics: Vec<BleCharacteristicInfo> = Vec::new();
        let mut j: usize = 0;
        while j < service.characteristics.len()
            invariant
                j <= service.characteristics.len(),
                characteristics.len() == j,
                forall|b: int|
                    0 <= b < j ==> characteristics@[b]@ == recorded_characteristic(
                        service.characteristics@[b],
                    ),
            decreases service.characteristics.len() - j,
        {
            let reported = &service.characteristics[j];
            characteristics.push(
                BleDevice::convert_characteristic(reported.uuid.clone(), reported.properties),
            );
            j += 1;
        }
        let info = BleServiceInfo::new(service.uuid.clone(), characteristics);
        assert(info@.characteristics =~= recorded_service(*service).characteristics);
        out.push(info);
        i += 1;
    }
    assert(services_view(out@) =~= recorded_services(found@));
    out
}

impl BleDevice {
    /// The record kept for a characteristic with the given uuid and GATT
    /// property byte.
    pub fn convert_characteristic(uuid: String, properties: u8) -> (r: BleCharacteristicInfo)
        ensures
            r@ == (CharacteristicView {
                uuid: uuid@,
                properties: CharacteristicProperties::of_bits(properties),
            }),
    {
        BleCharacteristicInfo::new(uuid, CharacteristicProperties::from_bits(properties))
    }

    /// Requests a service discovery. A connected session hands back the
    /// discovery command and leaves the bridge alone; any other session
    /// dispatches nothing and reports `NotConnected`.
    pub fn discover_services(&self, bridge: &mut EventBridge) -> (r: Option<DeviceCommand>)
        ensures
            r.is_some() == (self@.state == ConnectionState::Connected),
            match r {
                Some(command) => command@ == CommandView::DiscoverServices && *final(bridge)
                    == *old(bridge),
                None => reported(
                    *old(bridge),
                    *final(bridge),
                    "discover_services"@,
                    (ErrorKind::NotConnected, Seq::<char>::empty()),
                ),
            },
    {
        if !self.is_connected() {
            report_failure(bridge, "discover_services", BleError::NotConnected);
            return None;
        }
        Some(DeviceCommand::DiscoverServices)
    }

    /// Takes the outcome of a service discovery. On success a connected
    /// session replaces its cache by the records of the reported services and
    /// reports them; a session that is no longer connected keeps its cache
    /// and reports `NotConnected`. A failure is reported and changes nothing.
    pub fn complete_discover(
        &mut self,
        outcome: Result<Vec<DiscoveredService>, String>,
        bridge: &mut EventBridge,
    )
        requires
            old(self).wf(),
        ensures
            final(self).wf(),
            match outcome {
                Ok(found) => if old(self)@.state == ConnectionState::Connected {
                    &&& final(self)@ == (SessionView {
                        services: recorded_services(found@),
                        ..old(self)@
                    })
                    &&& delivered(
                        *old(bridge),
                        *final(bridge),
                        EventView::ServicesDiscovered(recorded_services(found@)),
                    )
                } else {
                    &&& final(self)@ == old(self)@
                    &&& reported(
                        *old(bridge),
                        *final(bridge),
                        "discover_services"@,
                        (ErrorKind::NotConnected, Seq::<char>::empty()),
                    )
                },
                Err(detail) => {
                    &&& final(self)@ == old(self)@
                    &&& reported(
                        *old(bridge),
                        *final(bridge),
                        "discover_services"@,
                        (ErrorKind::ServiceDiscoveryFailed, detail@),
                    )
                },
            },
    {
        match outcome {
            Ok(found) => {
                if self.state == ConnectionState::Connected {
                    let records = build_services(&found);
                    let copy = crate::ble_service::clone_services(&records);
                    self.services = records;
                    bridge.push_event(QueuedEvent::ServicesDiscovered(copy));
                } else {
                    report_failure(bridge, "discover_services", BleError::NotConnected);
                }
            },
            Err(detail) => {
                report_failure(
                    bridge,
                    "discover_services",
                    BleError::ServiceDiscoveryFailed(detail),
                );
            },
        }
    }

    /// Requests a read of a characteristic.
    pub fn read_characteristic(
        &self,
        service_uuid: &str,
        char_uuid: &str,
        bridge: &mut EventBridge,
    ) -> (r: Option<DeviceCommand>)
        ensures
            request_outcome(
                self@,
                Operation::Read,
                service_uuid@,
                char_uuid@,
                Seq::<u8>::empty(),
                false,
                *old(bridge),
                *final(bridge),
                r,
            ),
    {
        match self.screen_request(Operation::Read, service_uuid, char_uuid, bridge) {
            Some((i, j)) => {
                let service = &self.services[i];
                let command = DeviceCommand::Read {
                    service_uuid: service.uuid.clone(),
                    char_uuid: service.characteristics[j].uuid.clone(),
                    report_as: String::from_str(char_uuid),
                };
                assert(command@ == target_command(
                    Operation::Read,
                    self@.services,
                    i as int,
                    j as int,
                    char_uuid@,
                    Seq::<u8>::empty(),
                    false,
                ));
                Some(command)
            },
            None => None,
        }
    }

    /// Requests a write to a characteristic, confirmed by the peripheral
    /// where `with_response` holds.
    pub fn write_characteristic(
        &self,
        service_uuid: &str,
        char_uuid: &str,
        data: Vec<u8>,
        with_response: bool,
        bridge: &mut EventBridge,
    ) -> (r: Option<DeviceCommand>)
        ensures
            request_outcome(
                self@,
                Operation::Write,
                service_uuid@,
                char_uuid@,
                data@,
                with_response,
                *old(bridge),
                *final(bridge),
                r,
            ),
    {
        match self.screen_request(Operation::Write, service_uuid, char_uuid, bridge) {
            Some((i, j)) => {
                let service = &self.services[i];
                let ghost sent = data@;
                let command = DeviceCommand::Write {
                    service_uuid: service.uuid.clone(),
                    char_uuid: service.characteristics[j].uuid.clone(),
                    report_as: String::from_str(char_uuid),
                    data,
                    with_response,
                };
                assert(command@ == target_command(
                    Operation::Write,
                    self@.services,
                    i as int,
                    j as int,
                    char_uuid@,
                    sent,
                    with_response,
                ));
                Some(command)
            },
            None => None,
        }
    }

    /// Requests a subscription to the notifications of a characteristic.
    pub fn subscribe_characteristic(
        &self,
        service_uuid: &str,
        char_uuid: &str,
        bridge: &mut EventBridge,
    ) -> (r: Option<DeviceCommand>)
        ensures
            request_outcome(
                self@,
                Operation::Subscribe,
                service_uuid@,
                char_uuid@,
                Seq::<u8>::empty(),
                false,
                *old(bridge),
                *final(bridge),
                r,
            ),
    {
        match self.screen_request(Operation::Subscribe, service_uuid, char_uuid, bridge) {
            Some((i, j)) => {
                let service = &self.services[i];
                let command = DeviceCommand::Subscribe {
                    service_uuid: service.uuid.clone(),
                    char_uuid: service.characteristics[j].uuid.clone(),
                    report_as: String::from_str(char_uuid),
                };
                assert(command@ == target_command(
                    Operation::Subscribe,
                    self@.services,
                    i as int,
                    j as int,
                    char_uuid@,
                    Seq::<u8>::empty(),
                    false,
                ));
                Some(command)
            },
            None => None,
        }
    }

    /// Requests the end of a subscription.
    pub fn unsubscribe_characteristic(
        &self,
        service_uuid: &str,
        char_uuid: &str,
        bridge: &mut EventBridge,
    ) -> (r: Option<DeviceCommand>)
        ensures
            request_outcome(
                self@,
                Operation::Unsubscribe,
                service_uuid@,
                char_uuid@,
                Seq::<u8>::empty(),
                false,
                *old(bridge),
                *final(bridge),
                r,
            ),
    {
        match self.screen_request(Operation::Unsubscribe, service_uuid, char_uuid, bridge) {
            Some((i, j)) => {
                let service = &self.services[i];
                let command = DeviceCommand::Unsubscribe {
                    service_uuid: service.uuid.clone(),
                    char_uuid: service.characteristics[j].uuid.clone(),
                    report_as: String::from_str(char_uuid),
                };
                assert(command@ == target_command(
                    Operation::Unsubscribe,
                    self@.services,
                    i as int,
                    j as int,
                    char_uuid@,
                    Seq::<u8>::empty(),
                    false,
                ));
                Some(command)
            },
            None => None,
        }
    }

    /// Takes the outcome of a read: the value is reported under the uuid as
    /// the caller wrote it, a failure as `ReadFailed`.
    pub fn complete_read(
        char_uuid: String,
        outcome: Result<Vec<u8>, String>,
        bridge: &mut EventBridge,
    )
        ensures
            match outcome {
                Ok(data) => delivered(
                    *old(bridge),
                    *final(bridge),
                    EventView::CharacteristicRead(char_uuid@, data@),
                ),
                Err(detail) => reported(
                    *old(bridge),
                    *final(bridge),
                    operation_name(Operation::Read),
                    (ErrorKind::ReadFailed, detail@),
                ),
            },
    {
        match outcome {
            Ok(data) => bridge.push_event(QueuedEvent::CharacteristicRead(char_uuid, data)),
            Err(detail) => report_failure(
                bridge,
                operation_text(Operation::Read),
                stack_failure(Operation::Read, detail),
            ),
        }
    }

    /// Takes the outcome of a write: success is reported under the uuid as
    /// the caller wrote it, a failure as `WriteFailed`.
    pub fn complete_write(char_uuid: String, outcome: Result<(), String>, bridge: &mut EventBridge)
        ensures
            match outcome {
                Ok(_) => delivered(
                    *old(bridge),
                    *final(bridge),
                    EventView::CharacteristicWritten(char_uuid@),
                ),
                Err(detail) => reported(
                    *old(bridge),
                    *final(bridge),
                    operation_name(Operation::Write),
                    (ErrorKind::WriteFailed, detail@),
                ),
            },
    {
        match outcome {
            Ok(_) => bridge.push_event(QueuedEvent::CharacteristicWritten(char_uuid)),
            Err(detail) => report_failure(
                bridge,
                operation_text(Operation::Write),
                stack_failure(Operation::Write, detail),
            ),
        }
    }

    /// Takes the outcome of a subscribe for the characteristic whose
    /// subscription is recorded under `key`. On success a connected session
    /// records the key; a session that is no longer connected records
    /// nothing and reports `NotConnected`. A failure is reported as
    /// `SubscribeFailed` and changes nothing.
    pub fn apply_subscribe(
        &mut self,
        key: String,
        outcome: Result<(), String>,
        bridge: &mut EventBridge,
    )
        requires
            old(self).wf(),
        ensures
            final(self).wf(),
            subscribe_outcome(
                old(self)@,
                key@,
                outcome,
                *old(bridge),
                final(self)@,
                *final(bridge),
            ),
    {
        match outcome {
            Ok(_) => {
                if self.state == ConnectionState::Connected {
                    self.subscribed.insert(key);
                } else {
                    report_failure(
                        bridge,
                        operation_text(Operation::Subscribe),
                        BleError::NotConnected,
                    );
                }
            },
            Err(detail) => report_failure(
                bridge,
                operation_text(Operation::Subscribe),
                stack_failure(Operation::Subscribe, detail),
            ),
        }
    }

    /// Takes the outcome of a subscribe to a characteristic: what
    /// [`BleDevice::apply_subscribe`] does with the lowercase form of the
    /// uuid as the key.
    pub fn complete_subscribe(
        &mut self,
        char_uuid: &str,
        outcome: Result<(), String>,
        bridge: &mut EventBridge,
    )
        requires
            old(self).wf(),
        ensures
            final(self).wf(),
            subscribe_outcome(
                old(self)@,
                lowercase_of(char_uuid@),
                outcome,
                *old(bridge),
                final(self)@,
                *final(bridge),
            ),
    {
        self.apply_subscribe(to_lowercase(char_uuid), outcome, bridge);
    }

    /// Takes the outcome of an unsubscribe for the characteristic whose
    /// subscription is recorded under `key`. On success the key is no longer
    /// recorded, whatever the state. A failure is reported as
    /// `UnsubscribeFailed` and changes nothing.
    pub fn apply_unsubscribe(
        &mut self,
        key: &String,
        outcome: Result<(), String>,
        bridge: &mut EventBridge,
    )
        requires
            old(self).wf(),
        ensures
            final(self).wf(),
            unsubscribe_outcome(
                old(self)@,
                key@,
                outcome,
                *old(bridge),
                final(self)@,
                *final(bridge),
            ),
    {
        match outcome {
            Ok(_) => {
                self.subscribed.remove(key);
                proof {
                    if old(self)@.subscribed == Set::<Seq<char>>::empty() {
                        assert(self@.subscribed =~= Set::<Seq<char>>::empty());
                    }
                }
            },
            Err(detail) => report_failure(
                bridge,
                operation_text(Operation::Unsubscribe),
                stack_failure(Operation::Unsubscribe, detail),
            ),
        }
    }

    /// Takes the outcome of an unsubscribe from a characteristic: what
    /// [`BleDevice::apply_unsubscribe`] does with the lowercase form of the
    /// uuid as the key.
    pub fn complete_unsubscribe(
        &mut self,
        char_uuid: &str,
        outcome: Result<(), String>,
        bridge: &mut EventBridge,
    )
        requires
            old(self).wf(),
        ensures
            final(self).wf(),
            unsubscribe_outcome(
                old(self)@,
                lowercase_of(char_uuid@),
                outcome,
                *old(bridge),
                final(self)@,
                *final(bridge),
            ),
    {
        let key = to_lowercase(char_uuid);
        self.apply_unsubscribe(&key, outcome, bridge);
    }

    /// Decides what the listener of the subscription recorded under `key`
    /// does with a value that the peripheral pushed. The result says whether
    /// the listener goes on: it stops once its subscription is no longer
    /// recorded. While it goes on, a value whose characteristic matches the
    /// listener's, letter case aside, is reported under the listener's uuid;
    /// any other is passed over.
    pub fn forward_notification(
        &self,
        key: &String,
        listener_uuid: &str,
        notified_uuid: &str,
        data: Vec<u8>,
        bridge: &mut EventBridge,
    ) -> (r: bool)
        ensures
            notification_outcome(
                self@,
                key@,
                listener_uuid@,
                notified_uuid@,
                data@,
                *old(bridge),
                *final(bridge),
                r,
            ),
    {
        if !self.has_subscription(key) {
            return false;
        }
        if eq_ignore_ascii_case(notified_uuid, listener_uuid) {
            bridge.push_event(
                QueuedEvent::CharacteristicNotified(String::from_str(listener_uuid), data),
            );
        }
        true
    }

    /// Decides what the listener of one subscription does with a value that
    /// the peripheral pushed: what [`BleDevice::forward_notification`] does
    /// with the lowercase form of the listener's uuid as the key.
    pub fn on_notification(
        &self,
        listener_uuid: &str,
        notified_uuid: &str,
        data: Vec<u8>,
        bridge: &mut EventBridge,
    ) -> (r: bool)
        ensures
            notification_outcome(
                self@,
                lowercase_of(listener_uuid@),
                listener_uuid@,
                notified_uuid@,
                data@,
                *old(bridge),
                *final(bridge),
                r,
            ),
    {
        let key = to_lowercase(listener_uuid);
        self.forward_notification(&key, listener_uuid, notified_uuid, data, bridge)
    }
}

/// What the outcome of a subscribe makes of a session and its bridge, for
/// the subscription recorded under `key`.
pub open spec fn subscribe_outcome(
    before: SessionView,
    key: Seq<char>,
    outcome: Result<(), String>,
    queued: EventBridge,
    after: SessionView,
    bridge: EventBridge,
) -> bool {
    match outcome {
        Ok(_) => if before.state == ConnectionState::Connected {
            &&& after == (SessionView { subscribed: before.subscribed.insert(key), ..before })
            &&& bridge == queued
        } else {
            &&& after == before
            &&& reported(
                queued,
                bridge,
                operation_name(Operation::Subscribe),
                (ErrorKind::NotConnected, Seq::<char>::empty()),
            )
        },
        Err(detail) => {
            &&& after == before
            &&& reported(
                queued,
                bridge,
                operation_name(Operation::Subscribe),
                (ErrorKind::SubscribeFailed, detail@),
            )
        },
    }
}

/// What the outcome of an unsubscribe makes of a session and its bridge,
/// for the subscription recorded under `key`.
pub open spec fn unsubscribe_outcome(
    before: SessionView,
    key: Seq<char>,
    outcome: Result<(), String>,
    queued: EventBridge,
    after: SessionView,
    bridge: EventBridge,
) -> bool {
    match outcome {
        Ok(_) => {
            &&& after == (SessionView { subscribed: before.subscribed.remove(key), ..before })
            &&& bridge == queued
        },
        Err(detail) => {
            &&& after == before
            &&& reported(
                queued,
                bridge,
                operation_name(Operation::Unsubscribe),
                (ErrorKind::UnsubscribeFailed, detail@),
            )
        },
    }
}

/// What a pushed value leads to, for the listener of the subscription
/// recorded under `key`: the listener goes on exactly while the key is
/// recorded, and a value of its own characteristic is then reported.
pub open spec fn notification_outcome(
    v: SessionView,
    key: Seq<char>,
    listener_uuid: Seq<char>,
    notified_uuid: Seq<char>,
    data: Seq<u8>,
    queued: EventBridge,
    bridge: EventBridge,
    goes_on: bool,
) -> bool {
    &&& goes_on == v.subscribed.contains(key)
    &&& if goes_on && same_ignoring_case(notified_uuid, listener_uuid) {
        delivered(queued, bridge, EventView::CharacteristicNotified(listener_uuid, data))
    } else {
        bridge == queued
    }
}

/// A valid session that is disconnected holds no service and no
/// subscription, however it came to be disconnected.
pub proof fn lemma_disconnected_holds_nothing(device: BleDevice)
    requires
        device.wf(),
        device@.state == ConnectionState::Disconnected,
    ensures
        device@.subscribed == Set::<Seq<char>>::empty(),
        device@.services == Seq::<ServiceView>::empty(),
{
    assert(device@.services =~= Seq::<ServiceView>::empty());
}

/// The lookup does not depend on the letter case of the uuids asked for: two
/// spellings that match each other, letter case aside, match the same
/// characteristics, and so find the same first match or none.
pub proof fn lemma_lookup_ignores_case(
    services: Seq<ServiceView>,
    service_uuid: Seq<char>,
    char_uuid: Seq<char>,
    other_service_uuid: Seq<char>,
    other_char_uuid: Seq<char>,
)
    requires
        same_ignoring_case(service_uuid, other_service_uuid),
        same_ignoring_case(char_uuid, other_char_uuid),
    ensures
        forall|i: int, j: int|
            is_match(services, i, j, service_uuid, char_uuid) == is_match(
                services,
                i,
                j,
                other_service_uuid,
                other_char_uuid,
            ),
        forall|i: int, j: int|
            is_first_match(services, i, j, service_uuid, char_uuid) == is_first_match(
                services,
                i,
                j,
                other_service_uuid,
                other_char_uuid,
            ),
        has_characteristic(services, service_uuid, char_uuid) == has_characteristic(
            services,
            other_service_uuid,
            other_char_uuid,
        ),
{
    assert forall|i: int, j: int|
        is_match(services, i, j, service_uuid, char_uuid) == is_match(
            services,
            i,
            j,
            other_service_uuid,
            other_char_uuid,
        ) by {}
    assert forall|i: int, j: int|
        is_first_match(services, i, j, service_uuid, char_uuid) == is_first_match(
            services,
            i,
            j,
            other_service_uuid,
            other_char_uuid,
        ) by {
        if is_first_match(services, i, j, service_uuid, char_uuid) {
            assert forall|a: int, b: int| #[trigger]
                is_match(services, a, b, other_service_uuid, other_char_uuid) implies i < a || (i
                == a && j <= b) by {
                assert(is_match(services, a, b, service_uuid, char_uuid));
            }
        }
        if is_first_match(services, i, j, other_service_uuid, other_char_uuid) {
            assert forall|a: int, b: int| #[trigger]
                is_match(services, a, b, service_uuid, char_uuid) implies i < a || (i == a && j
                <= b) by {
                assert(is_match(services, a, b, other_service_uuid, other_char_uuid));
            }
        }
    }
    if has_characteristic(services, service_uuid, char_uuid) {
        let (i, j) = choose|i: int, j: int| is_match(services, i, j, service_uuid, char_uuid);
        assert(is_match(services, i, j, other_service_uuid, other_char_uuid));
    }
    if has_characteristic(services, other_service_uuid, other_char_uuid) {
        let (i, j) = choose|i: int, j: int|
            is_match(services, i, j, other_service_uuid, other_char_uuid);
        assert(is_match(services, i, j, service_uuid, char_uuid));
    }
}

/// A characteristic is found only where both uuids match: one whose own
/// uuid matches under a service whose uuid does not is no match, and neither
/// is one under the right service whose own uuid does not match.
pub proof fn lemma_match_needs_both(
    services: Seq<ServiceView>,
    i: int,
    j: int,
    service_uuid: Seq<char>,
    char_uuid: Seq<char>,
)
    requires
        0 <= i < services.len(),
        0 <= j < services[i].characteristics.len(),
    ensures
        is_match(services, i, j, service_uuid, char_uuid) == (same_ignoring_case(
            services[i].uuid,
            service_uuid,
        ) && same_ignoring_case(services[i].characteristics[j].uuid, char_uuid)),
{
}

/// A request whose uuids match nothing in the cache dispatches nothing,
/// whatever the operation and the state.
pub proof fn lemma_unmatched_dispatches_nothing(
    v: SessionView,
    op: Operation,
    service_uuid: Seq<char>,
    char_uuid: Seq<char>,
    data: Seq<u8>,
    with_response: bool,
    before: EventBridge,
    after: EventBridge,
    r: Option<DeviceCommand>,
)
    requires
        request_outcome(
            v,
            op,
            service_uuid,
            char_uuid,
            data,
            with_response,
            before,
            after,
            r,
        ),
        !has_characteristic(v.services, service_uuid, char_uuid),
    ensures
        r is None,
        after.events().len() == before.events().len() + 1,
        after.events().last() is OperationFailed,
{
}

} // verus!
