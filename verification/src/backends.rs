//! Platform backends of the transport interface.

pub mod android;
pub mod bluez;
pub mod corebluetooth;
