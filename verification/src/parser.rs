//! Parsers for frames and for the fixed payload layouts of the message
//! kinds whose content the device model tracks.

use crate::error::{Error, Result};
use crate::protocol::{
    from_big_endian,
    join_big_endian,
    class_of_opcode,
    kind_of_opcode,
    copy_bytes,
    Message,
    MessageType,
    OpcodeClass,
};
use crate::state::{AncMode, BatteryInfo};
use crate::text::push_char;
use vstd::prelude::*;

verus! {

/// What `parse_message` reads from the start of `input`: how many bytes the
/// frame takes, or the error. The opcode is looked up as soon as it is
/// read; the checksum is read and not verified.
pub open spec fn message_extent(input: Seq<u8>) -> core::result::Result<int, Error> {
    if input.len() < 1 {
        Err(Error::InvalidLength)
    } else if kind_of_opcode(input[0]).is_none() {
        Err(Error::UnknownMessageType(input[0]))
    } else if input.len() < 2 || input.len() < 4 + input[1] as int {
        Err(Error::InvalidLength)
    } else {
        Ok(4 + input[1] as int)
    }
}

/// Reads one message from the start of `input` and returns it with the
/// bytes that follow it. The checksum is taken as sent: this parser does not
/// verify it. Input that ends before the frame does is `InvalidLength`; an
/// opcode outside the registry is `UnknownMessageType`.
pub fn parse_message(input: &[u8]) -> (parsed: Result<(&[u8], Message)>)
    ensures
        match message_extent(input@) {
            Ok(end) => parsed.is_ok() && parsed.unwrap().0@ == input@.subrange(
                end,
                input@.len() as int,
            ) && class_of_opcode(input@[0]) == parsed.unwrap().1.msg_type
                && parsed.unwrap().1.payload@ == input@.subrange(2, end - 2)
                && parsed.unwrap().1.crc == from_big_endian(input@[end - 2], input@[end - 1]),
            Err(e) => parsed == Err::<(&[u8], Message), Error>(e),
        },
{
    if input.len() < 1 {
        return Err(Error::InvalidLength);
    }
    let msg_type = match MessageType::from_u8(input[0]) {
        Ok(kind) => kind,
        Err(e) => {
            return Err(e);
        },
    };
    if input.len() < 2 {
        return Err(Error::InvalidLength);
    }
    let len = input[1] as usize;
    if input.len() < 4 + len {
        return Err(Error::InvalidLength);
    }
    let body = &input[2..2 + len];
    assert(body@ =~= input@.subrange(2, 2 + len as int));
    let payload = copy_bytes(body);
    let crc = join_big_endian(input[2 + len], input[3 + len]);
    let rest = &input[4 + len..input.len()];
    assert(rest@ =~= input@.subrange(4 + len as int, input@.len() as int));
    Ok((rest, Message { msg_type: OpcodeClass::Known(msg_type), payload, crc }))
}

/// The battery levels of a battery-status payload: left bud, right bud,
/// case. A payload of fewer than three bytes is refused.
pub fn parse_battery_status(payload: &[u8]) -> (levels: Result<(u8, u8, u8)>)
    ensures
        payload@.len() < 3 ==> levels == Err::<(u8, u8, u8), Error>(Error::InvalidLength),
        payload@.len() >= 3 ==> levels == Ok::<(u8, u8, u8), Error>(
            (payload@[0], payload@[1], payload@[2]),
        ),
{
    if payload.len() < 3 {
        return Err(Error::InvalidLength);
    }
    Ok((payload[0], payload[1], payload[2]))
}

/// The battery record of a battery-status payload. A fourth byte, where
/// there is one, says whether the device is charging.
pub open spec fn battery_of(payload: Seq<u8>) -> Option<BatteryInfo> {
    if payload.len() < 3 {
        None
    } else {
        Some(
            BatteryInfo {
                left_bud: payload[0],
                right_bud: payload[1],
                case: payload[2],
                is_charging: payload.len() > 3 && payload[3] != 0,
            },
        )
    }
}

/// Parses a battery-status payload into a battery record.
pub fn parse_battery_info(payload: &[u8]) -> (battery: Option<BatteryInfo>)
    ensures
        battery == battery_of(payload@),
{
    match parse_battery_status(payload) {
        Ok((left_bud, right_bud, case)) => {
            let is_charging = payload.len() > 3 && payload[3] != 0;
            Some(BatteryInfo { left_bud, right_bud, case, is_charging })
        },
        Err(_) => None,
    }
}

/// The noise-control mode that a wire value stands for.
pub open spec fn anc_mode_of_value(value: u8) -> Option<AncMode> {
    if value == 0 {
        Some(AncMode::Off)
    } else if value == 1 {
        Some(AncMode::Active)
    } else if value == 2 {
        Some(AncMode::Transparency)
    } else if value == 3 {
        Some(AncMode::Adaptive)
    } else {
        None
    }
}

/// The wire value of a noise-control mode.
pub open spec fn anc_mode_value(mode: AncMode) -> u8 {
    match mode {
        AncMode::Off => 0,
        AncMode::Active => 1,
        AncMode::Transparency => 2,
        AncMode::Adaptive => 3,
    }
}

/// The noise-control mode of an ANC payload: its first byte, 0 to 3.
pub open spec fn anc_mode_of(payload: Seq<u8>) -> Option<AncMode> {
    if payload.len() < 1 {
        None
    } else {
        anc_mode_of_value(payload[0])
    }
}

/// Parses an ANC payload.
pub fn parse_anc_mode(payload: &[u8]) -> (mode: Option<AncMode>)
    ensures
        mode == anc_mode_of(payload@),
{
    if payload.len() < 1 {
        return None;
    }
    match payload[0] {
        0 => Some(AncMode::Off),
        1 => Some(AncMode::Active),
        2 => Some(AncMode::Transparency),
        3 => Some(AncMode::Adaptive),
        _ => None,
    }
}

/// The byte that encodes a noise-control mode in a command payload.
pub fn encode_anc_mode(mode: AncMode) -> (value: u8)
    ensures
        value == anc_mode_value(mode),
        anc_mode_of_value(value) == Some(mode),
{
    match mode {
        AncMode::Off => 0,
        AncMode::Active => 1,
        AncMode::Transparency => 2,
        AncMode::Adaptive => 3,
    }
}

/// The text that ASCII bytes spell.
pub open spec fn ascii_text(bytes: Seq<u8>) -> Seq<char> {
    bytes.map_values(|b: u8| b as char)
}

/// Whether every byte is an ASCII code.
pub open spec fn all_ascii(bytes: Seq<u8>) -> bool {
    forall|i: int| 0 <= i < bytes.len() ==> bytes[i] < 128
}

/// The firmware version of a firmware-info payload: its bytes as text, where
/// the payload is not empty and all of it is ASCII.
pub open spec fn firmware_version_of(payload: Seq<u8>) -> Option<Seq<char>> {
    if payload.len() >= 1 && all_ascii(payload) {
        Some(ascii_text(payload))
    } else {
        None
    }
}

/// Parses a firmware-info payload.
pub fn parse_firmware_version(payload: &[u8]) -> (version: Option<String>)
    ensures
        match firmware_version_of(payload@) {
            Some(text) => version.is_some() && version.unwrap()@ == text,
            None => version.is_none(),
        },
{
    if payload.len() < 1 {
        return None;
    }
    let mut text = String::new();
    let mut i: usize = 0;
    while i < payload.len()
        invariant
            i <= payload@.len(),
            text@ == ascii_text(payload@.subrange(0, i as int)),
            all_ascii(payload@.subrange(0, i as int)),
        decreases payload@.len() - i,
    {
        let byte = payload[i];
        if byte >= 128 {
            return None;
        }
        push_char(&mut text, byte as char);
        proof {
            let before = payload@.subrange(0, i as int);
            let after = payload@.subrange(0, i + 1);
            assert(after =~= before.push(byte));
            assert(ascii_text(after) =~= ascii_text(before).push(byte as char));
        }
        i += 1;
    }
    assert(payload@.subrange(0, i as int) =~= payload@);
    Some(text)
}

} // verus!
