//! The transport as the core sees it: an interface that a platform backend
//! implements. The core never names a concrete platform.

use crate::error::Result;
use vstd::prelude::*;

verus! {

/// A device as a scan reports it.
#[derive(Debug, Clone)]
pub struct BluetoothDevice {
    pub address: String,
    pub name: String,
    pub rssi: i32,
    pub is_connected: bool,
}

/// What a platform backend offers. The core consumes the bytes that arrive
/// and hands over the bytes to send; everything else is the backend's own
/// business, so the methods promise nothing about their results.
pub trait BluetoothBackend: Send + Sync {
    fn start_scan(&mut self) -> Result<()>;

    fn stop_scan(&mut self) -> Result<()>;

    fn connect(&mut self, address: &str) -> Result<()>;

    fn disconnect(&mut self, address: &str) -> Result<()>;

    fn write_characteristic(
        &mut self,
        address: &str,
        service_uuid: u128,
        char_uuid: u128,
        data: &[u8],
    ) -> Result<()>;

    fn read_characteristic(&mut self, address: &str, service_uuid: u128, char_uuid: u128) -> Result<
        Vec<u8>,
    >;

    fn enable_notifications(
        &mut self,
        address: &str,
        service_uuid: u128,
        char_uuid: u128,
    ) -> Result<()>;
}

pub struct BluetoothManager;

impl BluetoothManager {
    pub fn new() -> Self {
        Self
    }
}

impl Default for BluetoothManager {
    fn default() -> Self {
        Self::new()
    }
}

} // verus!
