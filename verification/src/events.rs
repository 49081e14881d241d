//! The events that the core hands to whoever presents devices to a user.

use vstd::prelude::*;

verus! {

/// What an event reports.
#[derive(Debug, Clone, Copy, PartialEq, Eq, Structural)]
pub enum EventType {
    DeviceDiscovered,
    DeviceConnected,
    DeviceDisconnected,
    BatteryUpdated,
    StateChanged,
    Error,
}

/// One event of one device.
#[derive(Debug, Clone, PartialEq, Eq)]
pub struct Event {
    pub event_type: EventType,
    pub device_id: String,
    pub payload: Vec<u8>,
    pub timestamp: u64,
}

/// The mathematical content of an event.
pub ghost struct EventView {
    pub event_type: EventType,
    pub device_id: Seq<char>,
    pub payload: Seq<u8>,
    pub timestamp: u64,
}

impl View for Event {
    type V = EventView;

    open spec fn view(&self) -> EventView {
        EventView {
            event_type: self.event_type,
            device_id: self.device_id@,
            payload: self.payload@,
            timestamp: self.timestamp,
        }
    }
}

/// The views of a sequence of events.
pub open spec fn event_views(events: Seq<Event>) -> Seq<EventView> {
    events.map_values(|e: Event| e@)
}

/// The stream of events that were emitted and not yet collected, oldest
/// first. Whoever subscribes collects them with `drain`.
pub struct EventBus {
    pending: Vec<Event>,
}

impl View for EventBus {
    type V = Seq<EventView>;

    closed spec fn view(&self) -> Seq<EventView> {
        event_views(self.pending@)
    }
}

impl EventBus {
    pub fn new() -> (bus: Self)
        ensures
            bus@ == Seq::<EventView>::empty(),
    {
        let bus = Self { pending: Vec::new() };
        assert(bus@ =~= Seq::<EventView>::empty());
        bus
    }

    /// Appends an event to the stream.
    pub fn emit(&mut self, event: Event)
        ensures
            final(self)@ == old(self)@.push(event@),
    {
        self.pending.push(event);
        assert(self@ =~= old(self)@.push(event@));
    }

    /// How many events wait to be collected.
    pub fn len(&self) -> (count: usize)
        ensures
            count == self@.len(),
    {
        self.pending.len()
    }

    /// The events that wait to be collected, oldest first.
    pub fn pending(&self) -> (events: &[Event])
        ensures
            event_views(events@) == self@,
    {
        self.pending.as_slice()
    }

    /// Hands out the waiting events, oldest first, and leaves the stream
    /// empty.
    pub fn drain(&mut self) -> (events: Vec<Event>)
        ensures
            event_views(events@) == old(self)@,
            final(self)@ == Seq::<EventView>::empty(),
    {
        let mut events: Vec<Event> = Vec::new();
        core::mem::swap(&mut events, &mut self.pending);
        assert(self@ =~= Seq::<EventView>::empty());
        events
    }

    /// Discards the waiting events.
    pub fn clear(&mut self)
        ensures
            final(self)@ == Seq::<EventView>::empty(),
    {
        self.pending.clear();
        assert(self@ =~= Seq::<EventView>::empty());
    }
}

impl Default for EventBus {
    fn default() -> (bus: Self)
        ensures
            bus@ == Seq::<EventView>::empty(),
    {
        Self::new()
    }
}

} // verus!
