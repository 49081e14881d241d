//! A registry of devices by id, for callers that track devices without
//! running frames through sessions.

use crate::collections::{
    lemma_mapped_values,
    lemma_mapped_with_entry,
    lemma_select_ends,
    lemma_select_step,
    lemma_with_entry_same,
    lemma_with_entry_value,
    mapped_values,
    value_under,
    with_entry,
    without_key,
    TextMap,
};
use crate::device::{
    filed_by_id,
    lemma_filed_lookup,
    lemma_filed_with_entry,
    lemma_filed_without_key,
    Device,
    DeviceView,
};
use crate::error::{Error, Result};
use crate::events::EventBus;
use crate::state::{legal_edge, DeviceState};
use vstd::prelude::*;

verus! {

/// Coordinates several devices.
pub struct DeviceManager {
    devices: TextMap<Device>,
    event_bus: EventBus,
}

impl View for DeviceManager {
    type V = Seq<(Seq<char>, DeviceView)>;

    closed spec fn view(&self) -> Seq<(Seq<char>, DeviceView)> {
        mapped_values(self.devices@, |d: Device| d@)
    }
}

/// The content of the devices that a sequence of references points to.
pub open spec fn device_views(devices: Seq<&Device>) -> Seq<DeviceView> {
    devices.map_values(|d: &Device| d@)
}

/// The devices of the entries, without their keys.
pub open spec fn entry_devices(entries: Seq<(Seq<char>, DeviceView)>) -> Seq<DeviceView> {
    entries.map_values(|e: (Seq<char>, DeviceView)| e.1)
}

impl DeviceManager {
    /// Every device stands under its own id, and no id occurs twice. The
    /// empty manager is in order, and every method keeps the order.
    pub open spec fn wf(&self) -> bool {
        filed_by_id(self@)
    }

    pub fn new() -> (manager: Self)
        ensures
            manager@ == Seq::<(Seq<char>, DeviceView)>::empty(),
            manager.wf(),
    {
        let manager = Self { devices: TextMap::new(), event_bus: EventBus::new() };
        assert(manager@ =~= Seq::<(Seq<char>, DeviceView)>::empty());
        manager
    }

    /// Takes a device in, under its own id. A device that was there under
    /// the same id is replaced.
    pub fn add_device(&mut self, device: Device) -> (outcome: Result<()>)
        ensures
            outcome.is_ok(),
            final(self)@ == with_entry(old(self)@, device@.id, device@),
            value_under(final(self)@, device@.id) == Some(device@),
            old(self).wf() ==> final(self).wf(),
    {
        let id = String::from_str(device.id());
        proof {
            lemma_mapped_with_entry(self.devices@, |d: Device| d@, id@, device);
            lemma_with_entry_value(self@, device@.id, device@);
            if self.wf() {
                lemma_filed_with_entry(self@, device@, device@.id);
            }
        }
        self.devices.insert(id, device);
        Ok(())
    }

    /// Takes the device under `id` out and hands it back, if there is one.
    /// Nothing is found under `id` afterwards.
    pub fn remove_device(&mut self, id: &str) -> (removed: Result<Option<Device>>)
        ensures
            removed.is_ok(),
            match removed.unwrap() {
                Some(device) => value_under(old(self)@, id@) == Some(device@),
                None => value_under(old(self)@, id@).is_none(),
            },
            final(self)@ == without_key(old(self)@, id@),
            old(self).wf() ==> {
                &&& final(self).wf()
                &&& value_under(final(self)@, id@).is_none()
                &&& match removed.unwrap() {
                    Some(device) => device@.id == id@ && final(self)@.len() + 1 == old(self)@.len(),
                    None => final(self)@ == old(self)@,
                }
            },
    {
        proof {
            lemma_mapped_values(self.devices@, |d: Device| d@, id@);
            if self.wf() {
                lemma_filed_without_key(self@, id@, id@);
                lemma_filed_lookup(self@, id@);
            }
        }
        Ok(self.devices.remove(id))
    }

    pub fn get_device(&self, id: &str) -> (device: Option<&Device>)
        ensures
            match device {
                Some(d) => value_under(self@, id@) == Some(d@) && (self.wf() ==> d@.id == id@),
                None => value_under(self@, id@).is_none(),
            },
    {
        proof {
            lemma_mapped_values(self.devices@, |d: Device| d@, id@);
            if self.wf() {
                lemma_filed_lookup(self@, id@);
            }
        }
        self.devices.get(id)
    }

    /// The device under `id`, for changing it in place. The manager stays
    /// in order as long as the device keeps its id.
    pub fn get_device_mut(&mut self, id: &str) -> (device: Option<&mut Device>)
        ensures
            match device {
                Some(d) => {
                    &&& value_under(old(self)@, id@) == Some(d@)
                    &&& final(self)@ == with_entry(old(self)@, id@, final(d)@)
                    &&& old(self).wf() ==> d@.id == id@
                    &&& old(self).wf() && final(d)@.id == id@ ==> final(self).wf()
                },
                None => value_under(old(self)@, id@).is_none() && final(self)@ == old(self)@,
            },
    {
        proof {
            lemma_mapped_values(self.devices@, |d: Device| d@, id@);
            if self.wf() {
                lemma_filed_lookup(self@, id@);
            }
        }
        let ghost before = self.devices@;
        let ghost was = self@;
        match self.devices.get_mut(id) {
            Some(device) => {
                proof {
                    lemma_mapped_with_entry(before, |d: Device| d@, id@, *final(device));
                    if filed_by_id(was) {
                        lemma_filed_with_entry(was, final(device)@, id@);
                    }
                }
                Some(device)
            },
            None => None,
        }
    }

    /// All devices, in the order of their arrival.
    pub fn list_devices(&self) -> (devices: Vec<&Device>)
        ensures
            device_views(devices@) == entry_devices(self@),
    {
        let mut devices: Vec<&Device> = Vec::new();
        let mut i: usize = 0;
        while i < self.devices.len()
            invariant
                i <= self.devices@.len(),
                devices@.len() == i,
                forall|j: int| 0 <= j < i ==> *devices@[j] == (#[trigger] self.devices@[j]).1,
            decreases self.devices@.len() - i,
        {
            devices.push(self.devices.value_at(i));
            i += 1;
        }
        assert(device_views(devices@) =~= entry_devices(self@));
        devices
    }

    /// The devices that are connected, in the order of their arrival.
    pub fn connected_devices(&self) -> (devices: Vec<&Device>)
        ensures
            device_views(devices@) == entry_devices(self@).filter(
                |d: DeviceView| d.state() == DeviceState::Connected,
            ),
    {
        let ghost all = entry_devices(self@);
        let ghost keep = |d: DeviceView| d.state() == DeviceState::Connected;
        let mut devices: Vec<&Device> = Vec::new();
        let mut i: usize = 0;
        proof {
            lemma_select_ends(all, keep);
        }
        while i < self.devices.len()
            invariant
                i <= self.devices@.len(),
                all == entry_devices(self@),
                all.len() == self.devices@.len(),
                keep == |d: DeviceView| d.state() == DeviceState::Connected,
                device_views(devices@) == all.take(i as int).filter(keep),
            decreases self.devices@.len() - i,
        {
            let device = self.devices.value_at(i);
            proof {
                lemma_select_step(all, i as int, keep);
                assert(all[i as int] == device@);
            }
            if *device.state() == DeviceState::Connected {
                let ghost before = devices@;
                devices.push(device);
                assert(device_views(devices@) =~= device_views(before).push(device@));
            }
            i += 1;
        }
        devices
    }

    /// Puts the device under `id` into `state` where the transition table
    /// has an event that leads there from the state it is in. Any other
    /// request is refused with `InvalidTransition`, an unknown id with
    /// `DeviceNotConnected`; a refusal changes nothing.
    pub fn update_device_state(&mut self, id: &str, state: DeviceState) -> (outcome: Result<()>)
        ensures
            match value_under(old(self)@, id@) {
                Some(device) => if legal_edge(device.state(), state) {
                    outcome.is_ok() && final(self)@ == with_entry(
                        old(self)@,
                        id@,
                        device.with_state(state),
                    )
                } else {
                    outcome == Err::<(), Error>(Error::InvalidTransition) && final(self)@ == old(
                        self,
                    )@
                },
                None => outcome == Err::<(), Error>(Error::DeviceNotConnected) && final(self)@
                    == old(self)@,
            },
            outcome.is_ok() ==> value_under(final(self)@, id@) == Some(
                value_under(old(self)@, id@).unwrap().with_state(state),
            ),
            old(self).wf() ==> final(self).wf(),
    {
        proof {
            lemma_mapped_values(self.devices@, |d: Device| d@, id@);
            if self.wf() {
                lemma_filed_lookup(self@, id@);
            }
            if value_under(self@, id@).is_some() {
                lemma_with_entry_value(self@, id@, value_under(self@, id@).unwrap().with_state(state));
            }
        }
        let ghost before = self.devices@;
        let ghost was = self@;
        match self.devices.get_mut(id) {
            Some(device) => {
                let ghost found = device@;
                let outcome = device.set_state(state);
                proof {
                    lemma_mapped_with_entry(before, |d: Device| d@, id@, *final(device));
                    if outcome.is_err() {
                        lemma_with_entry_same(was, id@, found);
                    } else if filed_by_id(was) {
                        lemma_filed_with_entry(was, found.with_state(state), id@);
                    }
                }
                outcome
            },
            None => Err(Error::DeviceNotConnected),
        }
    }
}

impl Default for DeviceManager {
    fn default() -> (manager: Self)
        ensures
            manager@ == Seq::<(Seq<char>, DeviceView)>::empty(),
            manager.wf(),
    {
        Self::new()
    }
}

} // verus!
