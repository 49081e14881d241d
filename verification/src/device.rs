//! One accessory: its identity, what it can do, where its connection stands
//! and what it has reported.

use crate::collections::{
    distinct_keys,
    lemma_position_of,
    lemma_with_entry,
    lemma_without_key,
    position_of,
    value_under,
    with_entry,
    without_key,
    TextMap,
};
use crate::error::{Error, Result};
use crate::protocol::{MessageType, OpcodeClass};
use crate::state::{
    payload_delta,
    legal_edge,
    read_payload,
    transition_target,
    ConnectionEvent,
    DeviceState,
    DeviceStateInfo,
    DeviceStateView,
    StateDelta,
    StateDeltaView,
};
use vstd::prelude::*;

verus! {

/// The hardware variant of an accessory.
#[derive(Debug, Clone, Copy, PartialEq, Eq, Structural)]
pub enum DeviceModel {
    AirPods2,
    AirPods3,
    AirPods4,
    AirPodsProGen1,
    AirPodsProGen2,
    AirPodsProGen3,
    AirPodsMax,
    BeatsFitPro,
}

/// A feature that an accessory may support.
#[derive(Debug, Clone, Copy, PartialEq, Eq, Hash, Structural)]
pub enum DeviceCapability {
    BatteryMonitoring,
    NoiseControl,
    AdaptiveTransparency,
    EarDetection,
    ConversationAwareness,
    HeadGestures,
    HearingAid,
    CustomTransparency,
    DeviceRename,
    LongPressActions,
    Multipoint,
    FirmwareInfo,
    FindMy,
    HeartRate,
    SpatialAudio,
}

impl DeviceCapability {
    /// The name of this capability.
    pub open spec fn name_text(self) -> Seq<char> {
        match self {
            DeviceCapability::BatteryMonitoring => "BatteryMonitoring"@,
            DeviceCapability::NoiseControl => "NoiseControl"@,
            DeviceCapability::AdaptiveTransparency => "AdaptiveTransparency"@,
            DeviceCapability::EarDetection => "EarDetection"@,
            DeviceCapability::ConversationAwareness => "ConversationAwareness"@,
            DeviceCapability::HeadGestures => "HeadGestures"@,
            DeviceCapability::HearingAid => "HearingAid"@,
            DeviceCapability::CustomTransparency => "CustomTransparency"@,
            DeviceCapability::DeviceRename => "DeviceRename"@,
            DeviceCapability::LongPressActions => "LongPressActions"@,
            DeviceCapability::Multipoint => "Multipoint"@,
            DeviceCapability::FirmwareInfo => "FirmwareInfo"@,
            DeviceCapability::FindMy => "FindMy"@,
            DeviceCapability::HeartRate => "HeartRate"@,
            DeviceCapability::SpatialAudio => "SpatialAudio"@,
        }
    }

    /// The name of this capability.
    pub fn name(&self) -> (name: &'static str)
        ensures
            name@ == self.name_text(),
    {
        match self {
            DeviceCapability::BatteryMonitoring => "BatteryMonitoring",
            DeviceCapability::NoiseControl => "NoiseControl",
            DeviceCapability::AdaptiveTransparency => "AdaptiveTransparency",
            DeviceCapability::EarDetection => "EarDetection",
            DeviceCapability::ConversationAwareness => "ConversationAwareness",
            DeviceCapability::HeadGestures => "HeadGestures",
            DeviceCapability::HearingAid => "HearingAid",
            DeviceCapability::CustomTransparency => "CustomTransparency",
            DeviceCapability::DeviceRename => "DeviceRename",
            DeviceCapability::LongPressActions => "LongPressActions",
            DeviceCapability::Multipoint => "Multipoint",
            DeviceCapability::FirmwareInfo => "FirmwareInfo",
            DeviceCapability::FindMy => "FindMy",
            DeviceCapability::HeartRate => "HeartRate",
            DeviceCapability::SpatialAudio => "SpatialAudio",
        }
    }

    /// The capabilities in the order in which the protocol lists them.
    pub open spec fn listed(index: int) -> DeviceCapability {
        if index == 0 {
            DeviceCapability::BatteryMonitoring
        } else if index == 1 {
            DeviceCapability::NoiseControl
        } else if index == 2 {
            DeviceCapability::AdaptiveTransparency
        } else if index == 3 {
            DeviceCapability::EarDetection
        } else if index == 4 {
            DeviceCapability::ConversationAwareness
        } else if index == 5 {
            DeviceCapability::HeadGestures
        } else if index == 6 {
            DeviceCapability::HearingAid
        } else if index == 7 {
            DeviceCapability::CustomTransparency
        } else if index == 8 {
            DeviceCapability::DeviceRename
        } else if index == 9 {
            DeviceCapability::LongPressActions
        } else if index == 10 {
            DeviceCapability::Multipoint
        } else if index == 11 {
            DeviceCapability::FirmwareInfo
        } else if index == 12 {
            DeviceCapability::FindMy
        } else if index == 13 {
            DeviceCapability::HeartRate
        } else {
            DeviceCapability::SpatialAudio
        }
    }

    /// The capability at `index` of the protocol's list, `index` from 0 to
    /// 14.
    pub fn at(index: usize) -> (capability: DeviceCapability)
        ensures
            capability == Self::listed(index as int),
    {
        match index {
            0 => DeviceCapability::BatteryMonitoring,
            1 => DeviceCapability::NoiseControl,
            2 => DeviceCapability::AdaptiveTransparency,
            3 => DeviceCapability::EarDetection,
            4 => DeviceCapability::ConversationAwareness,
            5 => DeviceCapability::HeadGestures,
            6 => DeviceCapability::HearingAid,
            7 => DeviceCapability::CustomTransparency,
            8 => DeviceCapability::DeviceRename,
            9 => DeviceCapability::LongPressActions,
            10 => DeviceCapability::Multipoint,
            11 => DeviceCapability::FirmwareInfo,
            12 => DeviceCapability::FindMy,
            13 => DeviceCapability::HeartRate,
            _ => DeviceCapability::SpatialAudio,
        }
    }
}

/// The capability that a device needs for messages of the given kind.
pub open spec fn capability_for(kind: MessageType) -> DeviceCapability {
    match kind {
        MessageType::BatteryStatus => DeviceCapability::BatteryMonitoring,
        MessageType::AncControl => DeviceCapability::NoiseControl,
        MessageType::EarDetection => DeviceCapability::EarDetection,
        MessageType::FirmwareInfo => DeviceCapability::FirmwareInfo,
        MessageType::SpatialAudio => DeviceCapability::SpatialAudio,
        MessageType::HeartRate => DeviceCapability::HeartRate,
        MessageType::FindMy => DeviceCapability::FindMy,
        MessageType::ConversationAwareness => DeviceCapability::ConversationAwareness,
        MessageType::HearingAid => DeviceCapability::HearingAid,
        MessageType::DeviceRename => DeviceCapability::DeviceRename,
        MessageType::MultipointControl => DeviceCapability::Multipoint,
        MessageType::AdaptiveTransparency => DeviceCapability::AdaptiveTransparency,
        MessageType::LongPressActions => DeviceCapability::LongPressActions,
        MessageType::CustomTransparency => DeviceCapability::CustomTransparency,
        MessageType::HeadGestures => DeviceCapability::HeadGestures,
    }
}

/// The capability that a device needs for messages of the given kind.
pub fn required_capability(kind: MessageType) -> (capability: DeviceCapability)
    ensures
        capability == capability_for(kind),
{
    match kind {
        MessageType::BatteryStatus => DeviceCapability::BatteryMonitoring,
        MessageType::AncControl => DeviceCapability::NoiseControl,
        MessageType::EarDetection => DeviceCapability::EarDetection,
        MessageType::FirmwareInfo => DeviceCapability::FirmwareInfo,
        MessageType::SpatialAudio => DeviceCapability::SpatialAudio,
        MessageType::HeartRate => DeviceCapability::HeartRate,
        MessageType::FindMy => DeviceCapability::FindMy,
        MessageType::ConversationAwareness => DeviceCapability::ConversationAwareness,
        MessageType::HearingAid => DeviceCapability::HearingAid,
        MessageType::DeviceRename => DeviceCapability::DeviceRename,
        MessageType::MultipointControl => DeviceCapability::Multipoint,
        MessageType::AdaptiveTransparency => DeviceCapability::AdaptiveTransparency,
        MessageType::LongPressActions => DeviceCapability::LongPressActions,
        MessageType::CustomTransparency => DeviceCapability::CustomTransparency,
        MessageType::HeadGestures => DeviceCapability::HeadGestures,
    }
}

/// What an inbound message changes on a device with the given capabilities.
/// An unknown opcode and a kind that the device does not support change
/// nothing, and neither is an error.
pub open spec fn inbound_delta(
    capabilities: Seq<DeviceCapability>,
    class: OpcodeClass,
    payload: Seq<u8>,
) -> StateDeltaView {
    match class {
        OpcodeClass::Unknown(_) => StateDeltaView::Ignored,
        OpcodeClass::Known(kind) => if capabilities.contains(capability_for(kind)) {
            payload_delta(kind, payload)
        } else {
            StateDeltaView::Ignored
        },
    }
}

/// One accessory.
#[derive(Debug, Clone)]
pub struct Device {
    id: String,
    name: String,
    model: DeviceModel,
    info: DeviceStateInfo,
    capabilities: Vec<DeviceCapability>,
    metadata: TextMap<String>,
}

/// The mathematical content of a device.
pub ghost struct DeviceView {
    pub id: Seq<char>,
    pub name: Seq<char>,
    pub model: DeviceModel,
    pub info: DeviceStateView,
    pub capabilities: Seq<DeviceCapability>,
    pub metadata: Seq<(Seq<char>, String)>,
}

impl DeviceView {
    /// The connection state of the device.
    pub open spec fn state(self) -> DeviceState {
        self.info.connection_state
    }

    /// The device with another connection state and all else unchanged.
    pub open spec fn with_state(self, state: DeviceState) -> DeviceView {
        DeviceView { info: DeviceStateView { connection_state: state, ..self.info }, ..self }
    }

    /// Whether the device supports `capability`.
    pub open spec fn supports(self, capability: DeviceCapability) -> bool {
        self.capabilities.contains(capability)
    }

    /// The device after `event`: in the target state where the transition
    /// table has the pair, unchanged where it has not.
    pub open spec fn after_event(self, event: ConnectionEvent) -> DeviceView {
        match transition_target(self.state(), event) {
            Some(target) => self.with_state(target),
            None => self,
        }
    }

    /// The device after an inbound message.
    pub open spec fn after_inbound(self, class: OpcodeClass, payload: Seq<u8>) -> DeviceView {
        DeviceView {
            info: self.info.with_delta(inbound_delta(self.capabilities, class, payload)),
            ..self
        }
    }
}

/// The state machine is total: whatever the state and the event, the device
/// afterwards is either in the state that the transition table gives, with
/// all else unchanged, or exactly as it was.
pub proof fn lemma_state_machine_total(device: DeviceView, event: ConnectionEvent)
    ensures
        transition_target(device.state(), event).is_none() ==> device.after_event(event) == device,
        transition_target(device.state(), event).is_some() ==> device.after_event(event)
            == device.with_state(transition_target(device.state(), event).unwrap()),
        device.after_event(event).id == device.id,
        device.after_event(event).name == device.name,
        device.after_event(event).model == device.model,
        device.after_event(event).capabilities == device.capabilities,
        device.after_event(event).metadata == device.metadata,
        device.after_event(event).info.battery == device.info.battery,
        device.after_event(event).info.anc_mode == device.info.anc_mode,
        device.after_event(event).info.firmware_version == device.info.firmware_version,
        device.after_event(event).info.last_updated == device.info.last_updated,
{
}

/// Every device stands under its own id, and no id occurs twice.
pub open spec fn filed_by_id(entries: Seq<(Seq<char>, DeviceView)>) -> bool {
    &&& distinct_keys(entries)
    &&& forall|i: int| 0 <= i < entries.len() ==> (#[trigger] entries[i]).0 == entries[i].1.id
}

/// What is found under an id is the device of that id.
pub proof fn lemma_filed_lookup(entries: Seq<(Seq<char>, DeviceView)>, id: Seq<char>)
    requires
        filed_by_id(entries),
    ensures
        value_under(entries, id).is_some() ==> value_under(entries, id).unwrap().id == id,
{
    lemma_position_of(entries, id);
}

/// Filing a device under its own id keeps the order of the registry: the
/// device is then found under its id, every other id finds what it found
/// before, and the count grows by one exactly where the id is new.
pub proof fn lemma_filed_with_entry(
    entries: Seq<(Seq<char>, DeviceView)>,
    device: DeviceView,
    other: Seq<char>,
)
    requires
        filed_by_id(entries),
    ensures
        filed_by_id(with_entry(entries, device.id, device)),
        value_under(with_entry(entries, device.id, device), device.id) == Some(device),
        other != device.id ==> value_under(with_entry(entries, device.id, device), other)
            == value_under(entries, other),
        value_under(entries, device.id).is_some() ==> with_entry(
            entries,
            device.id,
            device,
        ).len() == entries.len(),
        value_under(entries, device.id).is_none() ==> with_entry(
            entries,
            device.id,
            device,
        ).len() == entries.len() + 1,
{
    lemma_with_entry(entries, device.id, device, other);
    lemma_position_of(entries, device.id);
}

/// Taking an id out keeps the order of the registry: nothing is found under
/// that id afterwards, every other id finds what it found before, and the
/// count falls by one exactly where the id was there.
pub proof fn lemma_filed_without_key(
    entries: Seq<(Seq<char>, DeviceView)>,
    id: Seq<char>,
    other: Seq<char>,
)
    requires
        filed_by_id(entries),
    ensures
        filed_by_id(without_key(entries, id)),
        value_under(without_key(entries, id), id).is_none(),
        other != id ==> value_under(without_key(entries, id), other) == value_under(
            entries,
            other,
        ),
        value_under(entries, id).is_some() ==> without_key(entries, id).len() + 1
            == entries.len(),
        value_under(entries, id).is_none() ==> without_key(entries, id) == entries,
{
    lemma_without_key(entries, id, other);
    lemma_position_of(entries, id);
    let after = without_key(entries, id);
    let p = position_of(entries, id);
    assert forall|i: int| 0 <= i < after.len() implies (#[trigger] after[i]).0 == after[i].1.id by {
        if value_under(entries, id).is_some() {
            if i < p {
                assert(after[i] == entries[i]);
            } else {
                assert(after[i] == entries[i + 1]);
            }
        }
    }
}

impl View for Device {
    type V = DeviceView;

    closed spec fn view(&self) -> DeviceView {
        DeviceView {
            id: self.id@,
            name: self.name@,
            model: self.model,
            info: self.info@,
            capabilities: self.capabilities@,
            metadata: self.metadata@,
        }
    }
}

impl Device {
    /// No capability is listed twice and no metadata key occurs twice.
    pub open spec fn wf(&self) -> bool {
        &&& self@.capabilities.no_duplicates()
        &&& crate::collections::distinct_keys(self@.metadata)
    }

    /// A device that is disconnected, has no capabilities yet and has
    /// reported nothing.
    pub fn new(id: String, name: String, model: DeviceModel) -> (device: Self)
        ensures
            device@ == (DeviceView {
                id: id@,
                name: name@,
                model,
                info: DeviceStateView::initial(),
                capabilities: Seq::<DeviceCapability>::empty(),
                metadata: Seq::<(Seq<char>, String)>::empty(),
            }),
            device.wf(),
    {
        Self {
            id,
            name,
            model,
            info: DeviceStateInfo::new(),
            capabilities: Vec::new(),
            metadata: TextMap::new(),
        }
    }

    pub fn id(&self) -> (id: &str)
        ensures
            id@ == self@.id,
    {
        self.id.as_str()
    }

    pub fn name(&self) -> (name: &str)
        ensures
            name@ == self@.name,
    {
        self.name.as_str()
    }

    pub fn set_name(&mut self, name: String)
        ensures
            final(self)@ == (DeviceView { name: name@, ..old(self)@ }),
    {
        self.name = name;
    }

    pub fn model(&self) -> (model: DeviceModel)
        ensures
            model == self@.model,
    {
        self.model
    }

    pub fn state(&self) -> (state: &DeviceState)
        ensures
            *state == self@.state(),
    {
        &self.info.connection_state
    }

    /// Puts the device into `state` where the transition table has an event
    /// that leads there from the state it is in. Any other request is
    /// refused with `InvalidTransition` and leaves the device exactly as it
    /// was.
    pub fn set_state(&mut self, state: DeviceState) -> (outcome: Result<()>)
        ensures
            legal_edge(old(self)@.state(), state) ==> outcome.is_ok() && final(self)@ == old(
                self,
            )@.with_state(state),
            !legal_edge(old(self)@.state(), state) ==> outcome == Err::<(), Error>(
                Error::InvalidTransition,
            ) && *final(self) == *old(self),
    {
        if self.info.connection_state.leads_to(state) {
            self.info.connection_state = state;
            Ok(())
        } else {
            Err(Error::InvalidTransition)
        }
    }

    /// What the device has reported so far.
    pub fn info(&self) -> (info: &DeviceStateInfo)
        ensures
            info@ == self@.info,
    {
        &self.info
    }

    pub fn capabilities(&self) -> (capabilities: &[DeviceCapability])
        ensures
            capabilities@ == self@.capabilities,
    {
        self.capabilities.as_slice()
    }

    /// Adds a capability. One that the device already has is not added
    /// again.
    pub fn add_capability(&mut self, capability: DeviceCapability)
        ensures
            final(self)@ == (DeviceView {
                capabilities: if old(self)@.supports(capability) {
                    old(self)@.capabilities
                } else {
                    old(self)@.capabilities.push(capability)
                },
                ..old(self)@
            }),
            final(self)@.supports(capability),
            old(self).wf() ==> final(self).wf(),
    {
        if !self.has_capability(capability) {
            let ghost before = self.capabilities@;
            self.capabilities.push(capability);
            proof {
                assert(self.capabilities@[before.len() as int] == capability);
                assert forall|i: int, j: int|
                    before.no_duplicates() && 0 <= i < self.capabilities@.len() && 0 <= j
                        < self.capabilities@.len() && i != j implies self.capabilities@[i]
                    != self.capabilities@[j] by {
                    if i < before.len() {
                        assert(before[i] == self.capabilities@[i]);
                    }
                    if j < before.len() {
                        assert(before[j] == self.capabilities@[j]);
                    }
                }
            }
        }
    }

    pub fn has_capability(&self, capability: DeviceCapability) -> (supported: bool)
        ensures
            supported == self@.supports(capability),
    {
        let mut i: usize = 0;
        while i < self.capabilities.len()
            invariant
                i <= self.capabilities@.len(),
                forall|j: int| 0 <= j < i ==> self.capabilities@[j] != capability,
            decreases self.capabilities@.len() - i,
        {
            if self.capabilities[i] == capability {
                return true;
            }
            i += 1;
        }
        false
    }

    /// Sets a metadata value. The last write under a key wins.
    pub fn set_metadata(&mut self, key: String, value: String)
        ensures
            final(self)@ == (DeviceView {
                metadata: with_entry(old(self)@.metadata, key@, value),
                ..old(self)@
            }),
            old(self).wf() ==> final(self).wf(),
    {
        self.metadata.insert(key, value);
    }

    pub fn get_metadata(&self, key: &str) -> (value: Option<&str>)
        ensures
            match value {
                Some(text) => crate::collections::value_under(self@.metadata, key@).is_some()
                    && text@ == crate::collections::value_under(self@.metadata, key@).unwrap()@,
                None => crate::collections::value_under(self@.metadata, key@).is_none(),
            },
    {
        match self.metadata.get(key) {
            Some(text) => Some(text.as_str()),
            None => None,
        }
    }

    /// Moves the connection along the transition table. An event that the
    /// table does not have for the current state is refused and leaves the
    /// device exactly as it was.
    pub fn transition(&mut self, event: ConnectionEvent) -> (outcome: Result<()>)
        ensures
            final(self)@ == old(self)@.after_event(event),
            match transition_target(old(self)@.state(), event) {
                Some(target) => outcome.is_ok() && final(self)@.state() == target,
                None => outcome == Err::<(), Error>(Error::InvalidTransition) && *final(self)
                    == *old(self),
            },
    {
        match self.info.connection_state.next(event) {
            Some(target) => {
                self.info.connection_state = target;
                Ok(())
            },
            None => Err(Error::InvalidTransition),
        }
    }

    /// Applies a classified message. What changed comes back as the delta;
    /// an unknown opcode, a kind that the device does not support and a
    /// malformed payload are recorded as an ignored delta, never as an
    /// error, and change nothing.
    pub fn apply_inbound(&mut self, class: OpcodeClass, payload: &[u8]) -> (delta: StateDelta)
        ensures
            delta@ == inbound_delta(old(self)@.capabilities, class, payload@),
            final(self)@ == old(self)@.after_inbound(class, payload@),
            delta@ == StateDeltaView::Ignored ==> final(self)@ == old(self)@,
    {
        let delta = match class {
            OpcodeClass::Unknown(_) => StateDelta::Ignored,
            OpcodeClass::Known(kind) => {
                if self.has_capability(required_capability(kind)) {
                    read_payload(kind, payload)
                } else {
                    StateDelta::Ignored
                }
            },
        };
        self.info.record(&delta);
        delta
    }

    /// Notes the moment of the last applied update.
    pub fn touch(&mut self, stamp: u64)
        ensures
            final(self)@ == (DeviceView {
                info: DeviceStateView { last_updated: stamp, ..old(self)@.info },
                ..old(self)@
            }),
    {
        self.info.last_updated = stamp;
    }
}

} // verus!
