//! The connection state machine and the snapshot of what a device has
//! reported about itself.

use crate::parser::{
    anc_mode_of,
    battery_of,
    firmware_version_of,
    parse_anc_mode,
    parse_battery_info,
    parse_firmware_version,
};
use crate::protocol::MessageType;
use vstd::prelude::*;

verus! {

/// Where a device stands in its connection lifecycle.
#[derive(Debug, Clone, Copy, PartialEq, Eq, Structural)]
pub enum DeviceState {
    Disconnected,
    Connecting,
    Connected,
    Disconnecting,
    Error,
}

/// What can happen to a connection.
#[derive(Debug, Clone, Copy, PartialEq, Eq, Structural)]
pub enum ConnectionEvent {
    /// The host asks for a connection.
    Connect,
    /// The transport reports that the connection stands.
    ConnectAck,
    /// The host asks to close the connection.
    Disconnect,
    /// The transport reports that the connection is closed.
    DisconnectAck,
    /// The transport or the protocol failed beyond recovery.
    Fail,
}

/// The table of legal transitions: the state that `event` leads to from
/// `state`, or `None` where the pair is not in the table.
///
/// `Disconnected -> Connecting -> Connected -> Disconnecting -> Disconnected`,
/// `Error` from every state in between, and a fresh `Connecting` from
/// `Disconnected` and from `Error`.
pub open spec fn transition_target(state: DeviceState, event: ConnectionEvent) -> Option<
    DeviceState,
> {
    match (state, event) {
        (DeviceState::Disconnected, ConnectionEvent::Connect) => Some(DeviceState::Connecting),
        (DeviceState::Error, ConnectionEvent::Connect) => Some(DeviceState::Connecting),
        (DeviceState::Connecting, ConnectionEvent::ConnectAck) => Some(DeviceState::Connected),
        (DeviceState::Connected, ConnectionEvent::Disconnect) => Some(DeviceState::Disconnecting),
        (DeviceState::Disconnecting, ConnectionEvent::DisconnectAck) => Some(
            DeviceState::Disconnected,
        ),
        (DeviceState::Connecting, ConnectionEvent::Fail) => Some(DeviceState::Error),
        (DeviceState::Connected, ConnectionEvent::Fail) => Some(DeviceState::Error),
        (DeviceState::Disconnecting, ConnectionEvent::Fail) => Some(DeviceState::Error),
        _ => None,
    }
}

/// Whether one event of the table leads from `from` to `to`: along the
/// lifecycle `Disconnected -> Connecting -> Connected -> Disconnecting ->
/// Disconnected`, into `Error` from the three states in between, or out of
/// `Error` into `Connecting`.
pub open spec fn legal_edge(from: DeviceState, to: DeviceState) -> bool {
    match (from, to) {
        (DeviceState::Disconnected, DeviceState::Connecting) => true,
        (DeviceState::Error, DeviceState::Connecting) => true,
        (DeviceState::Connecting, DeviceState::Connected) => true,
        (DeviceState::Connected, DeviceState::Disconnecting) => true,
        (DeviceState::Disconnecting, DeviceState::Disconnected) => true,
        (DeviceState::Connecting, DeviceState::Error) => true,
        (DeviceState::Connected, DeviceState::Error) => true,
        (DeviceState::Disconnecting, DeviceState::Error) => true,
        _ => false,
    }
}

impl DeviceState {
    /// The state that `event` leads to, or `None` where the event is not
    /// legal in this state.
    pub fn next(self, event: ConnectionEvent) -> (target: Option<DeviceState>)
        ensures
            target == transition_target(self, event),
    {
        match (self, event) {
            (DeviceState::Disconnected, ConnectionEvent::Connect) => Some(DeviceState::Connecting),
            (DeviceState::Error, ConnectionEvent::Connect) => Some(DeviceState::Connecting),
            (DeviceState::Connecting, ConnectionEvent::ConnectAck) => Some(DeviceState::Connected),
            (DeviceState::Connected, ConnectionEvent::Disconnect) => Some(
                DeviceState::Disconnecting,
            ),
            (DeviceState::Disconnecting, ConnectionEvent::DisconnectAck) => Some(
                DeviceState::Disconnected,
            ),
            (DeviceState::Connecting, ConnectionEvent::Fail) => Some(DeviceState::Error),
            (DeviceState::Connected, ConnectionEvent::Fail) => Some(DeviceState::Error),
            (DeviceState::Disconnecting, ConnectionEvent::Fail) => Some(DeviceState::Error),
            _ => None,
        }
    }

    /// Whether the table has an event that leads from this state to
    /// `target`.
    pub fn leads_to(self, target: DeviceState) -> (legal: bool)
        ensures
            legal == legal_edge(self, target),
    {
        match (self, target) {
            (DeviceState::Disconnected, DeviceState::Connecting) => true,
            (DeviceState::Error, DeviceState::Connecting) => true,
            (DeviceState::Connecting, DeviceState::Connected) => true,
            (DeviceState::Connected, DeviceState::Disconnecting) => true,
            (DeviceState::Disconnecting, DeviceState::Disconnected) => true,
            (DeviceState::Connecting, DeviceState::Error) => true,
            (DeviceState::Connected, DeviceState::Error) => true,
            (DeviceState::Disconnecting, DeviceState::Error) => true,
            _ => false,
        }
    }

    /// Whether a session can be alive in this state.
    pub open spec fn is_live(self) -> bool {
        self == DeviceState::Connecting || self == DeviceState::Connected || self
            == DeviceState::Disconnecting
    }
}

/// A new connection can always be asked for from `Disconnected` and from
/// `Error`, and from nowhere else; `Error` is reached from exactly the states
/// in between.
pub proof fn lemma_transition_table(state: DeviceState)
    ensures
        transition_target(state, ConnectionEvent::Connect).is_some() <==> (state
            == DeviceState::Disconnected || state == DeviceState::Error),
        transition_target(state, ConnectionEvent::Fail).is_some() <==> state.is_live(),
        transition_target(state, ConnectionEvent::ConnectAck).is_some() <==> state
            == DeviceState::Connecting,
        transition_target(state, ConnectionEvent::Disconnect).is_some() <==> state
            == DeviceState::Connected,
        transition_target(state, ConnectionEvent::DisconnectAck).is_some() <==> state
            == DeviceState::Disconnecting,
{
}

/// The pairs of states that one event joins are those for which the table
/// has an event, and no others. No state leads to itself.
pub proof fn lemma_legal_edges(from: DeviceState, to: DeviceState)
    ensures
        legal_edge(from, to) <==> exists|event: ConnectionEvent|
            transition_target(from, event) == Some(to),
        !legal_edge(from, from),
{
    let by_connect = transition_target(from, ConnectionEvent::Connect);
    let by_connect_ack = transition_target(from, ConnectionEvent::ConnectAck);
    let by_disconnect = transition_target(from, ConnectionEvent::Disconnect);
    let by_disconnect_ack = transition_target(from, ConnectionEvent::DisconnectAck);
    let by_fail = transition_target(from, ConnectionEvent::Fail);
    assert(legal_edge(from, to) ==> by_connect == Some(to) || by_connect_ack == Some(to)
        || by_disconnect == Some(to) || by_disconnect_ack == Some(to) || by_fail == Some(to));
}

/// Battery levels in percent, as the device reported them.
#[derive(Debug, Clone, Copy, PartialEq, Eq, Structural)]
pub struct BatteryInfo {
    pub left_bud: u8,
    pub right_bud: u8,
    pub case: u8,
    pub is_charging: bool,
}

/// The noise-control mode of a device.
#[derive(Debug, Clone, Copy, PartialEq, Eq, Structural)]
pub enum AncMode {
    Off,
    Active,
    Transparency,
    Adaptive,
}

/// What is known of a device at one moment.
#[derive(Debug, Clone)]
pub struct DeviceStateInfo {
    pub connection_state: DeviceState,
    pub battery: Option<BatteryInfo>,
    pub anc_mode: Option<AncMode>,
    pub firmware_version: Option<String>,
    pub last_updated: u64,
}

/// The mathematical content of a snapshot.
pub ghost struct DeviceStateView {
    pub connection_state: DeviceState,
    pub battery: Option<BatteryInfo>,
    pub anc_mode: Option<AncMode>,
    pub firmware_version: Option<Seq<char>>,
    pub last_updated: u64,
}

impl View for DeviceStateInfo {
    type V = DeviceStateView;

    open spec fn view(&self) -> DeviceStateView {
        DeviceStateView {
            connection_state: self.connection_state,
            battery: self.battery,
            anc_mode: self.anc_mode,
            firmware_version: match self.firmware_version {
                Some(text) => Some(text@),
                None => None,
            },
            last_updated: self.last_updated,
        }
    }
}

/// What one inbound message changed.
#[derive(Debug, Clone, PartialEq, Eq)]
pub enum StateDelta {
    /// New battery levels were recorded.
    BatteryUpdated(BatteryInfo),
    /// A new noise-control mode was recorded.
    AncModeChanged(AncMode),
    /// A new firmware version was recorded.
    FirmwareVersionChanged(String),
    /// A message of a supported kind arrived that carries no tracked state.
    Observed(MessageType),
    /// Nothing changed: the opcode is unknown, the device lacks the
    /// capability, or the payload does not have the kind's layout.
    Ignored,
}

/// The mathematical content of a delta.
pub ghost enum StateDeltaView {
    BatteryUpdated(BatteryInfo),
    AncModeChanged(AncMode),
    FirmwareVersionChanged(Seq<char>),
    Observed(MessageType),
    Ignored,
}

impl View for StateDelta {
    type V = StateDeltaView;

    open spec fn view(&self) -> StateDeltaView {
        match self {
            StateDelta::BatteryUpdated(battery) => StateDeltaView::BatteryUpdated(*battery),
            StateDelta::AncModeChanged(mode) => StateDeltaView::AncModeChanged(*mode),
            StateDelta::FirmwareVersionChanged(version) => StateDeltaView::FirmwareVersionChanged(
                version@,
            ),
            StateDelta::Observed(kind) => StateDeltaView::Observed(*kind),
            StateDelta::Ignored => StateDeltaView::Ignored,
        }
    }
}

impl StateDelta {
    /// Whether the delta records that nothing changed.
    pub fn is_ignored(&self) -> (ignored: bool)
        ensures
            ignored == (self@ == StateDeltaView::Ignored),
    {
        match self {
            StateDelta::Ignored => true,
            _ => false,
        }
    }
}

/// What a message of a known kind says, read by the kind's own payload
/// layout. The kinds whose content the snapshot tracks are battery status,
/// noise control and firmware info; a payload that does not have its kind's
/// layout says nothing.
pub open spec fn payload_delta(kind: MessageType, payload: Seq<u8>) -> StateDeltaView {
    match kind {
        MessageType::BatteryStatus => match battery_of(payload) {
            Some(battery) => StateDeltaView::BatteryUpdated(battery),
            None => StateDeltaView::Ignored,
        },
        MessageType::AncControl => match anc_mode_of(payload) {
            Some(mode) => StateDeltaView::AncModeChanged(mode),
            None => StateDeltaView::Ignored,
        },
        MessageType::FirmwareInfo => match firmware_version_of(payload) {
            Some(version) => StateDeltaView::FirmwareVersionChanged(version),
            None => StateDeltaView::Ignored,
        },
        _ => StateDeltaView::Observed(kind),
    }
}

/// Reads the payload of a message of a known kind.
pub fn read_payload(kind: MessageType, payload: &[u8]) -> (delta: StateDelta)
    ensures
        delta@ == payload_delta(kind, payload@),
{
    match kind {
        MessageType::BatteryStatus => match parse_battery_info(payload) {
            Some(battery) => StateDelta::BatteryUpdated(battery),
            None => StateDelta::Ignored,
        },
        MessageType::AncControl => match parse_anc_mode(payload) {
            Some(mode) => StateDelta::AncModeChanged(mode),
            None => StateDelta::Ignored,
        },
        MessageType::FirmwareInfo => match parse_firmware_version(payload) {
            Some(version) => StateDelta::FirmwareVersionChanged(version),
            None => StateDelta::Ignored,
        },
        _ => StateDelta::Observed(kind),
    }
}

impl DeviceStateView {
    /// The snapshot after `delta` was recorded in it.
    pub open spec fn with_delta(self, delta: StateDeltaView) -> DeviceStateView {
        match delta {
            StateDeltaView::BatteryUpdated(battery) => DeviceStateView {
                battery: Some(battery),
                ..self
            },
            StateDeltaView::AncModeChanged(mode) => DeviceStateView { anc_mode: Some(mode), ..self },
            StateDeltaView::FirmwareVersionChanged(version) => DeviceStateView {
                firmware_version: Some(version),
                ..self
            },
            StateDeltaView::Observed(_) => self,
            StateDeltaView::Ignored => self,
        }
    }

    /// The snapshot of a device of which nothing is known yet.
    pub open spec fn initial() -> DeviceStateView {
        DeviceStateView {
            connection_state: DeviceState::Disconnected,
            battery: None,
            anc_mode: None,
            firmware_version: None,
            last_updated: 0,
        }
    }
}

impl DeviceStateInfo {
    pub fn new() -> (info: Self)
        ensures
            info@ == DeviceStateView::initial(),
    {
        Self {
            connection_state: DeviceState::Disconnected,
            battery: None,
            anc_mode: None,
            firmware_version: None,
            last_updated: 0,
        }
    }
}

impl DeviceStateInfo {
    /// Records what `delta` says.
    pub fn record(&mut self, delta: &StateDelta)
        ensures
            final(self)@ == old(self)@.with_delta(delta@),
    {
        match delta {
            StateDelta::BatteryUpdated(battery) => {
                self.battery = Some(*battery);
            },
            StateDelta::AncModeChanged(mode) => {
                self.anc_mode = Some(*mode);
            },
            StateDelta::FirmwareVersionChanged(version) => {
                self.firmware_version = Some(version.clone());
            },
            StateDelta::Observed(_) => {},
            StateDelta::Ignored => {},
        }
    }
}

impl Default for DeviceStateInfo {
    fn default() -> (info: Self)
        ensures
            info@ == DeviceStateView::initial(),
    {
        Self::new()
    }
}

} // verus!
