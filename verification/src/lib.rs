//! Accessory protocol core: framing with an integrity checksum, the message
//! registry, session cryptography, replay protection and the device model,
//! and the coordinator that runs frames through all of them.

pub mod backends;
pub mod bluetooth;
pub mod change_applier;
pub mod ci_pipeline;
pub mod codebase_diff;
pub mod collections;
pub mod coverage_analyzer;
pub mod crypto;
pub mod device;
pub mod dmca_scanner;
pub mod error;
pub mod events;
pub mod firmware_analyzer;
pub mod firmware_security;
pub mod firmware_version_analyzer;
pub mod gpl_checker;
pub mod implementation_executor;
pub mod ingestion;
pub mod legal_scan;
pub mod manager;
pub mod merge_planner;
pub mod models;
pub mod parser;
pub mod protocol;
pub mod protocol_analyzer;
pub mod protocol_comparator;
pub mod protocol_drift;
pub mod ranking;
pub mod release_manager;
pub mod release_notes;
pub mod sbom_generator;
pub mod security;
pub mod session;
pub mod state;
pub mod test_runner;
pub mod text;
pub mod three_way_diff;
pub mod trademark_checker;
pub mod upstream;
pub mod verification;

pub use device::{Device, DeviceCapability, DeviceModel};
pub use error::{Error, Result};
pub use events::{Event, EventBus};
pub use models::{
    AncMode, ConversationAwarenessState, CustomTransparencyConfig, EarDetectionState,
    HeadGestureConfig, HearingAidConfig, HeartRateMeasurement, LongPressAction, MultipointInfo,
    RenameRequest, SpatialAudioConfig,
};
pub use protocol::{Message, MessageType};
pub use state::DeviceState;

use collections::{
    distinct_keys, lemma_mapped_values, lemma_mapped_with_entry, lemma_with_entry,
    lemma_without_key, mapped_values, value_under, with_entry, without_key, TextMap,
};
use device::{
    capability_for, filed_by_id, inbound_delta, lemma_filed_lookup, lemma_filed_with_entry,
    required_capability, DeviceView,
};
use events::{EventType, EventView};
use protocol::{class_of_opcode, copy_bytes, decoded, opcode_to_kind};
use session::{opened_body, Session, SessionView, DIRECTION_INBOUND, DIRECTION_OUTBOUND};
use state::{transition_target, ConnectionEvent, StateDelta, StateDeltaView};
use vstd::prelude::*;

verus! {

/// The coordinator: it owns the devices, one session per connection and the
/// stream of events.
pub struct Engine {
    devices: TextMap<Device>,
    sessions: TextMap<Session>,
    event_bus: EventBus,
}

/// The mathematical content of the coordinator: devices and sessions by
/// device id, in the order of their arrival, and the events not yet
/// collected.
pub ghost struct EngineView {
    pub devices: Seq<(Seq<char>, DeviceView)>,
    pub sessions: Seq<(Seq<char>, SessionView)>,
    pub events: Seq<EventView>,
}

/// The event that tells of an applied delta, if the delta says that
/// something changed.
pub open spec fn event_for(
    id: Seq<char>,
    delta: StateDeltaView,
    sequence: u64,
    payload: Seq<u8>,
) -> Option<EventView> {
    match delta {
        StateDeltaView::Ignored => None,
        StateDeltaView::BatteryUpdated(_) => Some(
            EventView {
                event_type: EventType::BatteryUpdated,
                device_id: id,
                payload,
                timestamp: sequence,
            },
        ),
        _ => Some(
            EventView {
                event_type: EventType::StateChanged,
                device_id: id,
                payload,
                timestamp: sequence,
            },
        ),
    }
}

/// The event that tells of a frame that was discarded for a framing or
/// crypto error.
pub open spec fn error_event(id: Seq<char>) -> EventView {
    EventView {
        event_type: EventType::Error,
        device_id: id,
        payload: Seq::<u8>::empty(),
        timestamp: 0,
    }
}

impl EngineView {
    /// The coordinator that owns nothing yet.
    pub open spec fn empty() -> EngineView {
        EngineView {
            devices: Seq::<(Seq<char>, DeviceView)>::empty(),
            sessions: Seq::<(Seq<char>, SessionView)>::empty(),
            events: Seq::<EventView>::empty(),
        }
    }

    /// Every device stands under its own id, no id occurs twice, and no
    /// device has two sessions. The empty coordinator is in order, and
    /// every method keeps the order.
    pub open spec fn wf(self) -> bool {
        &&& filed_by_id(self.devices)
        &&& distinct_keys(self.sessions)
    }

    /// The device under `id`.
    pub open spec fn device(self, id: Seq<char>) -> Option<DeviceView> {
        value_under(self.devices, id)
    }

    /// The session of the device under `id`.
    pub open spec fn session(self, id: Seq<char>) -> Option<SessionView> {
        value_under(self.sessions, id)
    }

    /// Whether frames can pass: the device is known, it is connected and it
    /// has a session.
    pub open spec fn ready(self, id: Seq<char>) -> bool {
        &&& self.device(id).is_some()
        &&& self.device(id).unwrap().state() == DeviceState::Connected
        &&& self.session(id).is_some()
    }

    /// What the frame in `bytes` holds for the device under `id`: opcode,
    /// sequence number and message payload, or the reason why the frame is
    /// discarded before the replay window sees it.
    pub open spec fn reception(self, id: Seq<char>, bytes: Seq<u8>) -> core::result::Result<
        (u8, u64, Seq<u8>),
        Error,
    > {
        if !self.ready(id) {
            Err(Error::DeviceNotConnected)
        } else {
            match decoded(bytes) {
                Err(e) => Err(e),
                Ok(frame) => match opened_body(
                    self.session(id).unwrap().key,
                    DIRECTION_INBOUND,
                    frame.payload,
                ) {
                    None => Err(Error::CryptoError),
                    Some((sequence, payload)) => Ok((frame.opcode, sequence, payload)),
                },
            }
        }
    }

    /// What delivering an authenticated message to the device under `id`
    /// returns: the delta, or the reason why the message is not applied.
    pub open spec fn delivery(
        self,
        id: Seq<char>,
        opcode: u8,
        sequence: u64,
        payload: Seq<u8>,
    ) -> core::result::Result<StateDeltaView, Error> {
        if !self.ready(id) {
            Err(Error::DeviceNotConnected)
        } else if !self.session(id).unwrap().replay.accepts(sequence) {
            Err(Error::ReplayRejected)
        } else {
            Ok(inbound_delta(self.device(id).unwrap().capabilities, class_of_opcode(opcode), payload))
        }
    }

    /// The coordinator after the delivery. A message that is not applied
    /// changes nothing. An applied one is remembered by the replay window,
    /// changes the device as its delta says, stamps the device with the
    /// sequence number and adds one event, unless the delta is an ignored
    /// one, which leaves the device alone and adds no event.
    pub open spec fn after_delivery(
        self,
        id: Seq<char>,
        opcode: u8,
        sequence: u64,
        payload: Seq<u8>,
    ) -> EngineView {
        match self.delivery(id, opcode, sequence, payload) {
            Err(_) => self,
            Ok(delta) => {
                let device = self.device(id).unwrap();
                let session = self.session(id).unwrap();
                let changed = device.after_inbound(class_of_opcode(opcode), payload);
                EngineView {
                    devices: with_entry(
                        self.devices,
                        id,
                        if delta == StateDeltaView::Ignored {
                            device
                        } else {
                            DeviceView {
                                info: state::DeviceStateView {
                                    last_updated: sequence,
                                    ..changed.info
                                },
                                ..changed
                            }
                        },
                    ),
                    sessions: with_entry(
                        self.sessions,
                        id,
                        SessionView { replay: session.replay.after_check(sequence), ..session },
                    ),
                    events: match event_for(id, delta, sequence, payload) {
                        Some(event) => self.events.push(event),
                        None => self.events,
                    },
                }
            },
        }
    }

    /// Why a command cannot be sent, if it cannot: the device is unknown,
    /// not connected or without a session; it lacks the capability of the
    /// kind; the sequence numbers are used up; the payload does not fit a
    /// frame; the key is not a key.
    pub open spec fn send_refusal(self, id: Seq<char>, kind: MessageType, payload: Seq<u8>) -> Option<
        Error,
    > {
        if !self.ready(id) {
            Some(Error::DeviceNotConnected)
        } else if !self.device(id).unwrap().supports(capability_for(kind)) {
            Some(Error::UnsupportedDevice)
        } else {
            let session = self.session(id).unwrap();
            if session.next_outbound == u64::MAX {
                Some(Error::CryptoError)
            } else if payload.len() > (if session.key.is_some() {
                session::MAX_SEALED_MESSAGE_LEN
            } else {
                session::MAX_PLAIN_MESSAGE_LEN
            }) {
                Some(Error::PayloadTooLarge)
            } else if session.key.is_some() && session.key.unwrap().len() != 32 {
                Some(Error::CryptoError)
            } else {
                None
            }
        }
    }
}

/// A delivery keeps the coordinator in order, whatever it is given.
pub proof fn lemma_delivery_keeps_order(
    engine: EngineView,
    id: Seq<char>,
    opcode: u8,
    sequence: u64,
    payload: Seq<u8>,
)
    requires
        engine.wf(),
    ensures
        engine.after_delivery(id, opcode, sequence, payload).wf(),
        engine.after_delivery(id, opcode, sequence, payload).devices.len() == engine.devices.len(),
        engine.after_delivery(id, opcode, sequence, payload).sessions.len()
            == engine.sessions.len(),
{
    match engine.delivery(id, opcode, sequence, payload) {
        Err(_) => {},
        Ok(delta) => {
            let device = engine.device(id).unwrap();
            let session = engine.session(id).unwrap();
            let changed = device.after_inbound(class_of_opcode(opcode), payload);
            let stored = if delta == StateDeltaView::Ignored {
                device
            } else {
                DeviceView {
                    info: state::DeviceStateView { last_updated: sequence, ..changed.info },
                    ..changed
                }
            };
            lemma_filed_lookup(engine.devices, id);
            lemma_filed_with_entry(engine.devices, stored, id);
            lemma_with_entry(
                engine.sessions,
                id,
                SessionView { replay: session.replay.after_check(sequence), ..session },
                id,
            );
        },
    }
}

impl View for Engine {
    type V = EngineView;

    closed spec fn view(&self) -> EngineView {
        EngineView {
            devices: mapped_values(self.devices@, |d: Device| d@),
            sessions: mapped_values(self.sessions@, |s: Session| s@),
            events: self.event_bus@,
        }
    }
}

impl Engine {
    /// A coordinator without devices.
    pub fn new() -> (engine: Self)
        ensures
            engine@ == EngineView::empty(),
            engine@.wf(),
    {
        let engine = Self {
            devices: TextMap::new(),
            sessions: TextMap::new(),
            event_bus: EventBus::new(),
        };
        assert(engine@.devices =~= Seq::<(Seq<char>, DeviceView)>::empty());
        assert(engine@.sessions =~= Seq::<(Seq<char>, SessionView)>::empty());
        engine
    }

    /// The event stream, for collecting what was emitted.
    pub fn event_bus_mut(&mut self) -> (bus: &mut EventBus)
        ensures
            bus@ == old(self)@.events,
            final(self)@ == (EngineView { events: final(bus)@, ..old(self)@ }),
    {
        &mut self.event_bus
    }

    pub fn event_bus(&self) -> (bus: &EventBus)
        ensures
            bus@ == self@.events,
    {
        &self.event_bus
    }

    /// Takes a device in, under its own id. A device that was there under
    /// the same id is replaced and keeps its place.
    pub fn register_device(&mut self, device: Device)
        ensures
            final(self)@ == (EngineView {
                devices: with_entry(old(self)@.devices, device@.id, device@),
                ..old(self)@
            }),
            final(self)@.device(device@.id) == Some(device@),
            old(self)@.wf() ==> final(self)@.wf(),
    {
        let id = String::from_str(device.id());
        proof {
            lemma_mapped_with_entry(self.devices@, |d: Device| d@, id@, device);
            collections::lemma_with_entry_value(self@.devices, device@.id, device@);
            if self@.wf() {
                lemma_filed_with_entry(self@.devices, device@, device@.id);
            }
        }
        self.devices.insert(id, device);
    }

    pub fn get_device(&self, id: &str) -> (device: Option<&Device>)
        ensures
            match device {
                Some(d) => self@.device(id@) == Some(d@) && (self@.wf() ==> d@.id == id@),
                None => self@.device(id@).is_none(),
            },
    {
        proof {
            lemma_mapped_values(self.devices@, |d: Device| d@, id@);
            if self@.wf() {
                lemma_filed_lookup(self@.devices, id@);
            }
        }
        self.devices.get(id)
    }

    /// The device under `id`, for changing it in place. The coordinator
    /// stays in order as long as the device keeps its id.
    pub fn get_device_mut(&mut self, id: &str) -> (device: Option<&mut Device>)
        ensures
            match device {
                Some(d) => {
                    &&& old(self)@.device(id@) == Some(d@)
                    &&& final(self)@ == (EngineView {
                        devices: with_entry(old(self)@.devices, id@, final(d)@),
                        ..old(self)@
                    })
                    &&& old(self)@.wf() ==> d@.id == id@
                    &&& old(self)@.wf() && final(d)@.id == id@ ==> final(self)@.wf()
                },
                None => old(self)@.device(id@).is_none() && final(self)@ == old(self)@,
            },
    {
        proof {
            lemma_mapped_values(self.devices@, |d: Device| d@, id@);
            if self@.wf() {
                lemma_filed_lookup(self@.devices, id@);
            }
        }
        let ghost before = self.devices@;
        let ghost was = self@;
        match self.devices.get_mut(id) {
            Some(device) => {
                proof {
                    lemma_mapped_with_entry(before, |d: Device| d@, id@, *final(device));
                    if was.wf() {
                        lemma_filed_with_entry(was.devices, final(device)@, id@);
                    }
                }
                Some(device)
            },
            None => None,
        }
    }

    /// The devices, in the order of their arrival.
    pub fn devices(&self) -> (devices: Vec<&Device>)
        ensures
            devices@.len() == self@.devices.len(),
            forall|i: int| 0 <= i < devices@.len() ==> devices@[i]@ == (#[trigger] self@.devices[i]).1,
    {
        let mut devices: Vec<&Device> = Vec::new();
        let mut i: usize = 0;
        while i < self.devices.len()
            invariant
                i <= self.devices@.len(),
                devices@.len() == i,
                forall|j: int| 0 <= j < i ==> *devices@[j] == (#[trigger] self.devices@[j]).1,
            decreases self.devices@.len() - i,
        {
            devices.push(self.devices.value_at(i));
            i += 1;
        }
        devices
    }

    /// Gives the device under `id` a session, in place of the one it had.
    /// Fails with `DeviceNotConnected` where no such device is registered.
    pub fn open_session(&mut self, id: &str, session: Session) -> (outcome: Result<()>)
        ensures
            match old(self)@.device(id@) {
                Some(_) => outcome.is_ok() && final(self)@ == (EngineView {
                    sessions: with_entry(old(self)@.sessions, id@, session@),
                    ..old(self)@
                }),
                None => outcome == Err::<(), Error>(Error::DeviceNotConnected) && final(self)@
                    == old(self)@,
            },
            outcome.is_ok() ==> final(self)@.session(id@) == Some(session@),
            old(self)@.wf() ==> final(self)@.wf(),
    {
        proof {
            lemma_mapped_values(self.devices@, |d: Device| d@, id@);
            lemma_mapped_with_entry(self.sessions@, |s: Session| s@, id@, session);
            collections::lemma_with_entry_value(self@.sessions, id@, session@);
            if self@.wf() {
                lemma_with_entry(self@.sessions, id@, session@, id@);
            }
        }
        if !self.devices.contains_key(id) {
            return Err(Error::DeviceNotConnected);
        }
        let previous = self.sessions.insert(String::from_str(id), session);
        match previous {
            Some(mut old_session) => {
                old_session.close();
            },
            None => {},
        }
        Ok(())
    }

    /// Ends the session of the device under `id`, if it has one, and
    /// overwrites its key with zeros.
    pub fn close_session(&mut self, id: &str)
        ensures
            final(self)@ == (EngineView {
                sessions: without_key(old(self)@.sessions, id@),
                ..old(self)@
            }),
            old(self)@.wf() ==> final(self)@.wf() && final(self)@.session(id@).is_none(),
    {
        proof {
            lemma_mapped_values(self.sessions@, |s: Session| s@, id@);
            if self@.wf() {
                lemma_without_key(self@.sessions, id@, id@);
            }
        }
        match self.sessions.remove(id) {
            Some(mut session) => {
                session.close();
            },
            None => {},
        }
    }

    /// Moves the connection of the device under `id` along the transition
    /// table. A connection that ends, in `Disconnected` or in `Error`, takes
    /// its session with it: the key is overwritten with zeros. An event that
    /// is not legal in the device's state is refused with
    /// `InvalidTransition`, an unknown device with `DeviceNotConnected`; a
    /// refusal changes nothing.
    pub fn transition(&mut self, id: &str, event: ConnectionEvent) -> (outcome: Result<()>)
        ensures
            match old(self)@.device(id@) {
                None => outcome == Err::<(), Error>(Error::DeviceNotConnected) && final(self)@
                    == old(self)@,
                Some(device) => match transition_target(device.state(), event) {
                    None => outcome == Err::<(), Error>(Error::InvalidTransition) && final(self)@
                        == old(self)@,
                    Some(target) => outcome.is_ok() && final(self)@ == (EngineView {
                        devices: with_entry(old(self)@.devices, id@, device.with_state(target)),
                        sessions: if target == DeviceState::Disconnected || target
                            == DeviceState::Error {
                            without_key(old(self)@.sessions, id@)
                        } else {
                            old(self)@.sessions
                        },
                        ..old(self)@
                    }),
                },
            },
            outcome.is_ok() ==> final(self)@.device(id@) == Some(
                old(self)@.device(id@).unwrap().after_event(event),
            ),
            old(self)@.wf() ==> final(self)@.wf(),
    {
        proof {
            lemma_mapped_values(self.devices@, |d: Device| d@, id@);
            if self@.wf() {
                lemma_filed_lookup(self@.devices, id@);
            }
            if self@.device(id@).is_some() {
                collections::lemma_with_entry_value(
                    self@.devices,
                    id@,
                    self@.device(id@).unwrap().after_event(event),
                );
            }
        }
        let ghost before = self.devices@;
        let ghost was = self@;
        let target = match self.devices.get_mut(id) {
            None => {
                return Err(Error::DeviceNotConnected);
            },
            Some(device) => {
                let ghost found = device@;
                let target = device.state().next(event);
                let outcome = device.transition(event);
                proof {
                    lemma_mapped_with_entry(before, |d: Device| d@, id@, *final(device));
                    if outcome.is_err() {
                        collections::lemma_with_entry_same(was.devices, id@, found);
                    } else if was.wf() {
                        lemma_filed_with_entry(was.devices, found.after_event(event), id@);
                    }
                }
                match target {
                    None => {
                        return Err(Error::InvalidTransition);
                    },
                    Some(target) => target,
                }
            },
        };
        if target == DeviceState::Disconnected || target == DeviceState::Error {
            self.close_session(id);
        }
        Ok(())
    }

    /// Hands one authenticated message to the device under `id`: the replay
    /// window admits or rejects the sequence number, the registry classifies
    /// the opcode, the device applies the payload, and an event tells of
    /// what changed.
    pub fn deliver(&mut self, id: &str, opcode: u8, sequence: u64, payload: &[u8]) -> (delta:
        Result<StateDelta>)
        ensures
            match old(self)@.delivery(id@, opcode, sequence, payload@) {
                Ok(expected) => delta.is_ok() && delta.unwrap()@ == expected,
                Err(e) => delta == Err::<StateDelta, Error>(e),
            },
            final(self)@ == old(self)@.after_delivery(id@, opcode, sequence, payload@),
            old(self)@.wf() ==> final(self)@.wf(),
    {
        proof {
            lemma_mapped_values(self.devices@, |d: Device| d@, id@);
            lemma_mapped_values(self.sessions@, |s: Session| s@, id@);
            if self@.wf() {
                lemma_delivery_keeps_order(self@, id@, opcode, sequence, payload@);
            }
        }
        let ghost devices_before = self.devices@;
        let ghost sessions_before = self.sessions@;
        let connected = match self.devices.get(id) {
            Some(device) => *device.state() == DeviceState::Connected,
            None => false,
        };
        if !connected || !self.sessions.contains_key(id) {
            return Err(Error::DeviceNotConnected);
        }
        let accepted = match self.sessions.get_mut(id) {
            Some(session) => {
                let accepted = session.check_sequence(sequence);
                proof {
                    lemma_mapped_with_entry(sessions_before, |s: Session| s@, id@, *final(session));
                }
                accepted
            },
            None => false,
        };
        if !accepted {
            proof {
                collections::lemma_position_of(old(self)@.sessions, id@);
                assert(self@.sessions =~= old(self)@.sessions);
            }
            return Err(Error::ReplayRejected);
        }
        let class = opcode_to_kind(opcode);
        let delta = match self.devices.get_mut(id) {
            Some(device) => {
                let delta = device.apply_inbound(class, payload);
                if !delta.is_ignored() {
                    device.touch(sequence);
                }
                proof {
                    lemma_mapped_with_entry(devices_before, |d: Device| d@, id@, *final(device));
                }
                delta
            },
            None => StateDelta::Ignored,
        };
        match &delta {
            StateDelta::Ignored => {},
            StateDelta::BatteryUpdated(_) => {
                self.event_bus.emit(
                    Event {
                        event_type: EventType::BatteryUpdated,
                        device_id: String::from_str(id),
                        payload: copy_bytes(payload),
                        timestamp: sequence,
                    },
                );
            },
            _ => {
                self.event_bus.emit(
                    Event {
                        event_type: EventType::StateChanged,
                        device_id: String::from_str(id),
                        payload: copy_bytes(payload),
                        timestamp: sequence,
                    },
                );
            },
        }
        Ok(delta)
    }

    /// Runs the bytes of one inbound frame through the whole pipeline:
    /// the codec extracts the frame and checks its checksum, the session
    /// opens the body, and the message is delivered as `deliver` says.
    ///
    /// A frame that the codec or the session discards leaves devices and
    /// sessions as they were and adds one error event; the connection stays
    /// up. A replayed frame is rejected without an event.
    pub fn on_bytes_received(&mut self, id: &str, bytes: &[u8]) -> (delta: Result<StateDelta>)
        ensures
            match old(self)@.reception(id@, bytes@) {
                Err(e) => delta == Err::<StateDelta, Error>(e) && final(self)@ == (EngineView {
                    events: if old(self)@.ready(id@) {
                        old(self)@.events.push(error_event(id@))
                    } else {
                        old(self)@.events
                    },
                    ..old(self)@
                }),
                Ok((opcode, sequence, payload)) => {
                    &&& match old(self)@.delivery(id@, opcode, sequence, payload) {
                        Ok(expected) => delta.is_ok() && delta.unwrap()@ == expected,
                        Err(e) => delta == Err::<StateDelta, Error>(e),
                    }
                    &&& final(self)@ == old(self)@.after_delivery(id@, opcode, sequence, payload)
                },
            },
            old(self)@.wf() ==> final(self)@.wf(),
    {
        proof {
            lemma_mapped_values(self.devices@, |d: Device| d@, id@);
            lemma_mapped_values(self.sessions@, |s: Session| s@, id@);
        }
        let connected = match self.devices.get(id) {
            Some(device) => *device.state() == DeviceState::Connected,
            None => false,
        };
        if !connected {
            return Err(Error::DeviceNotConnected);
        }
        let opened = match self.sessions.get(id) {
            None => {
                return Err(Error::DeviceNotConnected);
            },
            Some(session) => match protocol::decode(bytes) {
                Err(e) => Err(e),
                Ok(frame) => match session.open(frame.payload.as_slice()) {
                    Err(e) => Err(e),
                    Ok((sequence, payload)) => Ok((frame.opcode, sequence, payload)),
                },
            },
        };
        match opened {
            Err(e) => {
                self.event_bus.emit(
                    Event {
                        event_type: EventType::Error,
                        device_id: String::from_str(id),
                        payload: Vec::new(),
                        timestamp: 0,
                    },
                );
                Err(e)
            },
            Ok((opcode, sequence, payload)) => self.deliver(id, opcode, sequence, payload.as_slice()),
        }
    }

    /// Builds the frame of a command for the device under `id`: the session
    /// seals the payload under the next sequence number and the codec frames
    /// it under the opcode of `kind`. The bytes are for the transport. The
    /// command is refused where the device is not connected or lacks the
    /// capability that the kind needs; a refusal changes nothing.
    pub fn send_command(&mut self, id: &str, kind: MessageType, payload: &[u8]) -> (bytes: Result<
        Vec<u8>,
    >)
        ensures
            match old(self)@.send_refusal(id@, kind, payload@) {
                Some(e) => bytes == Err::<Vec<u8>, Error>(e) && final(self)@ == old(self)@,
                None => {
                    let session = old(self)@.session(id@).unwrap();
                    &&& bytes.is_ok()
                    &&& decoded(bytes.unwrap()@).is_ok()
                    &&& decoded(bytes.unwrap()@).unwrap().opcode == kind.opcode_value()
                    &&& opened_body(
                        session.key,
                        DIRECTION_OUTBOUND,
                        decoded(bytes.unwrap()@).unwrap().payload,
                    ) == Some((session.next_outbound, payload@))
                    &&& final(self)@ == (EngineView {
                        sessions: with_entry(
                            old(self)@.sessions,
                            id@,
                            SessionView {
                                next_outbound: (session.next_outbound + 1) as u64,
                                ..session
                            },
                        ),
                        ..old(self)@
                    })
                },
            },
            old(self)@.wf() ==> final(self)@.wf(),
    {
        proof {
            lemma_mapped_values(self.devices@, |d: Device| d@, id@);
            lemma_mapped_values(self.sessions@, |s: Session| s@, id@);
            if self@.wf() && self@.session(id@).is_some() {
                lemma_with_entry(
                    self@.sessions,
                    id@,
                    SessionView {
                        next_outbound: (self@.session(id@).unwrap().next_outbound + 1) as u64,
                        ..self@.session(id@).unwrap()
                    },
                    id@,
                );
            }
        }
        let ghost sessions_before = self.sessions@;
        let (connected, supported) = match self.devices.get(id) {
            Some(device) => (
                *device.state() == DeviceState::Connected,
                device.has_capability(required_capability(kind)),
            ),
            None => (false, false),
        };
        if !connected || !self.sessions.contains_key(id) {
            return Err(Error::DeviceNotConnected);
        }
        if !supported {
            return Err(Error::UnsupportedDevice);
        }
        let body = match self.sessions.get_mut(id) {
            Some(session) => {
                let body = session.seal(payload);
                proof {
                    lemma_mapped_with_entry(sessions_before, |s: Session| s@, id@, *final(session));
                }
                body
            },
            None => Err(Error::DeviceNotConnected),
        };
        match body {
            Err(e) => {
                proof {
                    collections::lemma_position_of(old(self)@.sessions, id@);
                    assert(self@.sessions =~= old(self)@.sessions);
                }
                Err(e)
            },
            Ok(sealed) => {
                proof {
                    protocol::lemma_encode_decode_round_trip(kind.opcode_value(), sealed@);
                }
                protocol::encode(kind.opcode(), sealed.as_slice())
            },
        }
    }
}

impl Default for Engine {
    fn default() -> (engine: Self)
        ensures
            engine@ == EngineView::empty(),
            engine@.wf(),
    {
        Self::new()
    }
}

} // verus!
