//! The error taxonomy shared by every layer of the protocol core.

use vstd::prelude::*;

verus! {

/// Everything that can go wrong between raw bytes and an applied update.
#[derive(Debug, Clone, PartialEq, Eq)]
pub enum Error {
    /// A frame is truncated or a payload is shorter than its layout.
    InvalidLength,
    /// The transmitted checksum differs from the recomputed one.
    CrcMismatch,
    /// The opcode is outside the known registry.
    UnknownMessageType(u8),
    /// Key handling or authenticated encryption failed.
    CryptoError,
    BluetoothError(String),
    /// The device lacks the capability that a command needs.
    UnsupportedDevice,
    VersionMismatch,
    /// The requested state-machine event is not legal in the current state.
    InvalidState,
    /// A command was issued for a device that is not connected.
    DeviceNotConnected,
    PermissionDenied,
    Timeout,
    ParseError(String),
    ConfigError(String),
    IoError(String),
    /// A payload does not fit the one-byte length field.
    PayloadTooLarge,
    /// The sequence number is a duplicate or older than the replay window.
    ReplayRejected,
    /// The event has no transition from the current connection state.
    InvalidTransition,
}

pub type Result<T> = core::result::Result<T, Error>;

impl Error {
    /// The text that `message` produces, as a sequence of characters.
    pub open spec fn message_text(self) -> Seq<char> {
        match self {
            Error::InvalidLength => "Invalid message length"@,
            Error::CrcMismatch => "CRC checksum mismatch"@,
            Error::UnknownMessageType(op) => "Unknown message type: "@ + crate::text::decimal(
                op as nat,
            ),
            Error::CryptoError => "Cryptographic operation failed"@,
            Error::BluetoothError(detail) => "Bluetooth error: "@ + detail@,
            Error::UnsupportedDevice => "Unsupported device model"@,
            Error::VersionMismatch => "Protocol version mismatch"@,
            Error::InvalidState => "Invalid device state"@,
            Error::DeviceNotConnected => "Device not connected"@,
            Error::PermissionDenied => "Permission denied"@,
            Error::Timeout => "Operation timeout"@,
            Error::ParseError(detail) => "Parse error: "@ + detail@,
            Error::ConfigError(detail) => "Configuration error: "@ + detail@,
            Error::IoError(detail) => "IO error: "@ + detail@,
            Error::PayloadTooLarge => "Payload too large"@,
            Error::ReplayRejected => "Replayed or stale sequence number"@,
            Error::InvalidTransition => "Invalid state transition"@,
        }
    }

    /// A human-readable description of the error.
    pub fn message(&self) -> (text: String)
        ensures
            text@ == self.message_text(),
    {
        match self {
            Error::InvalidLength => String::from_str("Invalid message length"),
            Error::CrcMismatch => String::from_str("CRC checksum mismatch"),
            Error::UnknownMessageType(op) => {
                let mut text = String::from_str("Unknown message type: ");
                crate::text::push_decimal(&mut text, *op as u64);
                text
            },
            Error::CryptoError => String::from_str("Cryptographic operation failed"),
            Error::BluetoothError(detail) => String::from_str("Bluetooth error: ").concat(
                detail.as_str(),
            ),
            Error::UnsupportedDevice => String::from_str("Unsupported device model"),
            Error::VersionMismatch => String::from_str("Protocol version mismatch"),
            Error::InvalidState => String::from_str("Invalid device state"),
            Error::DeviceNotConnected => String::from_str("Device not connected"),
            Error::PermissionDenied => String::from_str("Permission denied"),
            Error::Timeout => String::from_str("Operation timeout"),
            Error::ParseError(detail) => String::from_str("Parse error: ").concat(detail.as_str()),
            Error::ConfigError(detail) => String::from_str("Configuration error: ").concat(
                detail.as_str(),
            ),
            Error::IoError(detail) => String::from_str("IO error: ").concat(detail.as_str()),
            Error::PayloadTooLarge => String::from_str("Payload too large"),
            Error::ReplayRejected => String::from_str("Replayed or stale sequence number"),
            Error::InvalidTransition => String::from_str("Invalid state transition"),
        }
    }
}

} // verus!
