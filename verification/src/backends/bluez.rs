//! The backend for Linux, over BlueZ. It accepts every request and moves no bytes yet.

use crate::bluetooth::BluetoothBackend;
use crate::error::Result;
use vstd::prelude::*;

verus! {

pub struct BlueZBackend;

impl BluetoothBackend for BlueZBackend {
    fn start_scan(&mut self) -> (outcome: Result<()>)
        ensures
            outcome.is_ok(),
    {
        Ok(())
    }

    fn stop_scan(&mut self) -> (outcome: Result<()>)
        ensures
            outcome.is_ok(),
    {
        Ok(())
    }

    fn connect(&mut self, _address: &str) -> (outcome: Result<()>)
        ensures
            outcome.is_ok(),
    {
        Ok(())
    }

    fn disconnect(&mut self, _address: &str) -> (outcome: Result<()>)
        ensures
            outcome.is_ok(),
    {
        Ok(())
    }

    fn write_characteristic(
        &mut self,
        _address: &str,
        _service_uuid: u128,
        _char_uuid: u128,
        _data: &[u8],
    ) -> (outcome: Result<()>)
        ensures
            outcome.is_ok(),
    {
        Ok(())
    }

    fn read_characteristic(
        &mut self,
        _address: &str,
        _service_uuid: u128,
        _char_uuid: u128,
    ) -> (data: Result<Vec<u8>>)
        ensures
            data.is_ok(),
            data.unwrap()@ == Seq::<u8>::empty(),
    {
        Ok(Vec::new())
    }

    fn enable_notifications(
        &mut self,
        _address: &str,
        _service_uuid: u128,
        _char_uuid: u128,
    ) -> (outcome: Result<()>)
        ensures
            outcome.is_ok(),
    {
        Ok(())
    }
}

} // verus!
