//! The wire format: `opcode | length | payload | checksum`, with a CRC-16/X.25
//! checksum over the payload, and the registry that maps opcodes to message
//! kinds.

use crate::error::{Error, Result};
use vstd::prelude::*;

verus! {

pub const AAP_SERVICE_UUID: u128 = 0x7DFC90007D1C495186AA8D9728F8D66C;

pub const AAP_CHARACTERISTIC_UUID: u128 = 0x7DFC90017D1C495186AA8D9728F8D66C;

/// The longest payload that the one-byte length field can describe.
pub const MAX_PAYLOAD_LEN: usize = 255;

/// The semantic kind of a message. Each kind owns exactly one opcode.
#[derive(Debug, Clone, Copy, PartialEq, Eq, Structural)]
pub enum MessageType {
    BatteryStatus,
    AncControl,
    EarDetection,
    FirmwareInfo,
    SpatialAudio,
    HeartRate,
    FindMy,
    ConversationAwareness,
    HearingAid,
    DeviceRename,
    MultipointControl,
    AdaptiveTransparency,
    LongPressActions,
    CustomTransparency,
    HeadGestures,
}

/// What the registry makes of one opcode byte.
#[derive(Debug, Clone, Copy, PartialEq, Eq, Structural)]
pub enum OpcodeClass {
    Known(MessageType),
    Unknown(u8),
}

/// The kind that owns `value`, if any: opcodes `0x01` to `0x0F` are taken.
pub open spec fn kind_of_opcode(value: u8) -> Option<MessageType> {
    if value == 0x01 {
        Some(MessageType::BatteryStatus)
    } else if value == 0x02 {
        Some(MessageType::AncControl)
    } else if value == 0x03 {
        Some(MessageType::EarDetection)
    } else if value == 0x04 {
        Some(MessageType::FirmwareInfo)
    } else if value == 0x05 {
        Some(MessageType::SpatialAudio)
    } else if value == 0x06 {
        Some(MessageType::HeartRate)
    } else if value == 0x07 {
        Some(MessageType::FindMy)
    } else if value == 0x08 {
        Some(MessageType::ConversationAwareness)
    } else if value == 0x09 {
        Some(MessageType::HearingAid)
    } else if value == 0x0A {
        Some(MessageType::DeviceRename)
    } else if value == 0x0B {
        Some(MessageType::MultipointControl)
    } else if value == 0x0C {
        Some(MessageType::AdaptiveTransparency)
    } else if value == 0x0D {
        Some(MessageType::LongPressActions)
    } else if value == 0x0E {
        Some(MessageType::CustomTransparency)
    } else if value == 0x0F {
        Some(MessageType::HeadGestures)
    } else {
        None
    }
}

/// The registry's verdict on `value` as a value of the model.
pub open spec fn class_of_opcode(value: u8) -> OpcodeClass {
    match kind_of_opcode(value) {
        Some(kind) => OpcodeClass::Known(kind),
        None => OpcodeClass::Unknown(value),
    }
}

impl OpcodeClass {
    /// The opcode byte that was classified.
    pub open spec fn opcode_value(self) -> u8 {
        match self {
            OpcodeClass::Known(kind) => kind.opcode_value(),
            OpcodeClass::Unknown(value) => value,
        }
    }

    /// The opcode byte that was classified.
    pub fn opcode(&self) -> (value: u8)
        ensures
            value == self.opcode_value(),
    {
        match self {
            OpcodeClass::Known(kind) => kind.opcode(),
            OpcodeClass::Unknown(value) => *value,
        }
    }
}

impl MessageType {
    /// The opcode byte of this kind.
    pub open spec fn opcode_value(self) -> u8 {
        match self {
            MessageType::BatteryStatus => 0x01,
            MessageType::AncControl => 0x02,
            MessageType::EarDetection => 0x03,
            MessageType::FirmwareInfo => 0x04,
            MessageType::SpatialAudio => 0x05,
            MessageType::HeartRate => 0x06,
            MessageType::FindMy => 0x07,
            MessageType::ConversationAwareness => 0x08,
            MessageType::HearingAid => 0x09,
            MessageType::DeviceRename => 0x0A,
            MessageType::MultipointControl => 0x0B,
            MessageType::AdaptiveTransparency => 0x0C,
            MessageType::LongPressActions => 0x0D,
            MessageType::CustomTransparency => 0x0E,
            MessageType::HeadGestures => 0x0F,
        }
    }

    /// The name of this kind.
    pub open spec fn name_text(self) -> Seq<char> {
        match self {
            MessageType::BatteryStatus => "BatteryStatus"@,
            MessageType::AncControl => "AncControl"@,
            MessageType::EarDetection => "EarDetection"@,
            MessageType::FirmwareInfo => "FirmwareInfo"@,
            MessageType::SpatialAudio => "SpatialAudio"@,
            MessageType::HeartRate => "HeartRate"@,
            MessageType::FindMy => "FindMy"@,
            MessageType::ConversationAwareness => "ConversationAwareness"@,
            MessageType::HearingAid => "HearingAid"@,
            MessageType::DeviceRename => "DeviceRename"@,
            MessageType::MultipointControl => "MultipointControl"@,
            MessageType::AdaptiveTransparency => "AdaptiveTransparency"@,
            MessageType::LongPressActions => "LongPressActions"@,
            MessageType::CustomTransparency => "CustomTransparency"@,
            MessageType::HeadGestures => "HeadGestures"@,
        }
    }

    /// The name of this kind.
    pub fn name(&self) -> (name: &'static str)
        ensures
            name@ == self.name_text(),
    {
        match self {
            MessageType::BatteryStatus => "BatteryStatus",
            MessageType::AncControl => "AncControl",
            MessageType::EarDetection => "EarDetection",
            MessageType::FirmwareInfo => "FirmwareInfo",
            MessageType::SpatialAudio => "SpatialAudio",
            MessageType::HeartRate => "HeartRate",
            MessageType::FindMy => "FindMy",
            MessageType::ConversationAwareness => "ConversationAwareness",
            MessageType::HearingAid => "HearingAid",
            MessageType::DeviceRename => "DeviceRename",
            MessageType::MultipointControl => "MultipointControl",
            MessageType::AdaptiveTransparency => "AdaptiveTransparency",
            MessageType::LongPressActions => "LongPressActions",
            MessageType::CustomTransparency => "CustomTransparency",
            MessageType::HeadGestures => "HeadGestures",
        }
    }

    /// Looks an opcode up; an opcode outside the registry is an error that
    /// carries the byte.
    pub fn from_u8(value: u8) -> (kind: Result<Self>)
        ensures
            kind == match kind_of_opcode(value) {
                Some(k) => Ok::<MessageType, Error>(k),
                None => Err::<MessageType, Error>(Error::UnknownMessageType(value)),
            },
    {
        match value {
            0x01 => Ok(MessageType::BatteryStatus),
            0x02 => Ok(MessageType::AncControl),
            0x03 => Ok(MessageType::EarDetection),
            0x04 => Ok(MessageType::FirmwareInfo),
            0x05 => Ok(MessageType::SpatialAudio),
            0x06 => Ok(MessageType::HeartRate),
            0x07 => Ok(MessageType::FindMy),
            0x08 => Ok(MessageType::ConversationAwareness),
            0x09 => Ok(MessageType::HearingAid),
            0x0A => Ok(MessageType::DeviceRename),
            0x0B => Ok(MessageType::MultipointControl),
            0x0C => Ok(MessageType::AdaptiveTransparency),
            0x0D => Ok(MessageType::LongPressActions),
            0x0E => Ok(MessageType::CustomTransparency),
            0x0F => Ok(MessageType::HeadGestures),
            _ => Err(Error::UnknownMessageType(value)),
        }
    }

    /// The opcode byte that stands for this kind on the wire.
    pub fn opcode(&self) -> (value: u8)
        ensures
            value == self.opcode_value(),
            kind_of_opcode(value) == Some(*self),
    {
        match self {
            MessageType::BatteryStatus => 0x01,
            MessageType::AncControl => 0x02,
            MessageType::EarDetection => 0x03,
            MessageType::FirmwareInfo => 0x04,
            MessageType::SpatialAudio => 0x05,
            MessageType::HeartRate => 0x06,
            MessageType::FindMy => 0x07,
            MessageType::ConversationAwareness => 0x08,
            MessageType::HearingAid => 0x09,
            MessageType::DeviceRename => 0x0A,
            MessageType::MultipointControl => 0x0B,
            MessageType::AdaptiveTransparency => 0x0C,
            MessageType::LongPressActions => 0x0D,
            MessageType::CustomTransparency => 0x0E,
            MessageType::HeadGestures => 0x0F,
        }
    }
}

/// Kinds and opcodes correspond one to one: every kind is found again under
/// its own opcode, and an opcode that names a kind is that kind's opcode.
pub proof fn lemma_registry_bijective(kind: MessageType, value: u8)
    ensures
        kind_of_opcode(kind.opcode_value()) == Some(kind),
        kind_of_opcode(value) == Some(kind) ==> kind.opcode_value() == value,
        kind_of_opcode(value).is_some() <==> 0x01 <= value <= 0x0F,
{
}

/// Classifies one opcode byte. Total over `u8`: an opcode outside the known
/// set is reported as unknown, with the byte.
pub fn opcode_to_kind(value: u8) -> (class: OpcodeClass)
    ensures
        class == class_of_opcode(value),
{
    match MessageType::from_u8(value) {
        Ok(kind) => OpcodeClass::Known(kind),
        Err(_) => OpcodeClass::Unknown(value),
    }
}

/// Whether `value` is the opcode of a known kind.
pub fn is_known_opcode(value: u8) -> (known: bool)
    ensures
        known == kind_of_opcode(value).is_some(),
{
    0x01 <= value && value <= 0x0F
}

/// One step of the checksum register: the register moves one bit to the
/// right, and the reflected polynomial `0x8408` is added where a one fell
/// out.
pub open spec fn crc_shift(register: u16) -> u16 {
    if register & 1 == 1 {
        (register >> 1) ^ 0x8408
    } else {
        register >> 1
    }
}

/// The checksum register after one more byte: the byte is added to the low
/// half of the register, and the register takes eight steps.
pub open spec fn crc_feed(register: u16, byte: u8) -> u16 {
    crc_shift(
        crc_shift(
            crc_shift(
                crc_shift(crc_shift(crc_shift(crc_shift(crc_shift(register ^ (byte as u16)))))),
            ),
        ),
    )
}

/// The checksum register after the bytes, from the initial value `0xFFFF`.
pub open spec fn crc_register(data: Seq<u8>) -> u16
    decreases data.len(),
{
    if data.len() == 0 {
        0xFFFF
    } else {
        crc_feed(crc_register(data.drop_last()), data.last())
    }
}

/// The CRC-16/X.25 (IBM-SDLC) checksum of a byte sequence: polynomial
/// `0x1021`, initial value `0xFFFF`, input and output reflected, final
/// complement.
pub open spec fn crc16_ibm_sdlc(data: Seq<u8>) -> u16 {
    crc_register(data) ^ 0xFFFF
}

/// Calls `crc::Crc::<u16>::checksum` with the catalogue's `CRC_16_IBM_SDLC`
/// parameters. The contract claims that the table-driven computation of
/// that function gives the checksum as the parameters define it bit by
/// bit.
#[verifier::external_body]
pub(crate) fn checksum_ibm_sdlc(data: &[u8]) -> (crc: u16)
    ensures
        crc == crc16_ibm_sdlc(data@),
{
    crc::Crc::<u16>::new(&crc::CRC_16_IBM_SDLC).checksum(data)
}

/// The high byte of a checksum, sent first.
pub open spec fn high_byte(value: u16) -> u8 {
    (value >> 8) as u8
}

/// The low byte of a checksum, sent second.
pub open spec fn low_byte(value: u16) -> u8 {
    (value & 0xff) as u8
}

/// The checksum that two bytes in big-endian order spell.
pub open spec fn from_big_endian(high: u8, low: u8) -> u16 {
    ((high as u16) << 8) | (low as u16)
}

/// Splitting a checksum into bytes and joining them again loses nothing,
/// in both directions.
pub proof fn lemma_big_endian_round_trip(value: u16, high: u8, low: u8)
    ensures
        from_big_endian(high_byte(value), low_byte(value)) == value,
        high_byte(from_big_endian(high, low)) == high,
        low_byte(from_big_endian(high, low)) == low,
{
    assert(((((value >> 8) as u8) as u16) << 8) | (((value & 0xff) as u8) as u16) == value)
        by (bit_vector);
    assert(((((high as u16) << 8) | (low as u16)) >> 8) as u8 == high) by (bit_vector);
    assert(((((high as u16) << 8) | (low as u16)) & 0xff) as u8 == low) by (bit_vector);
}

/// The bytes of the frame that carries `payload` under `opcode`.
pub open spec fn frame_bytes(opcode: u8, payload: Seq<u8>) -> Seq<u8>
    recommends
        payload.len() <= 255,
{
    seq![opcode, payload.len() as u8] + payload + seq![
        high_byte(crc16_ibm_sdlc(payload)),
        low_byte(crc16_ibm_sdlc(payload)),
    ]
}

/// One frame as the codec sees it, before the opcode is classified.
#[derive(Debug, Clone, PartialEq, Eq)]
pub struct Frame {
    pub opcode: u8,
    pub length: u8,
    pub payload: Vec<u8>,
    pub checksum: u16,
}

/// The mathematical content of a frame.
pub ghost struct FrameView {
    pub opcode: u8,
    pub payload: Seq<u8>,
    pub checksum: u16,
}

impl View for Frame {
    type V = FrameView;

    open spec fn view(&self) -> FrameView {
        FrameView { opcode: self.opcode, payload: self.payload@, checksum: self.checksum }
    }
}

impl Frame {
    /// The length field counts the payload, and the checksum is that of the
    /// payload.
    pub open spec fn wf(&self) -> bool {
        &&& self.length as int == self.payload@.len()
        &&& self.checksum == crc16_ibm_sdlc(self.payload@)
    }
}

/// Where the frame that starts `bytes` ends, if `bytes` holds all of it:
/// two header bytes, the payload, two checksum bytes.
pub open spec fn frame_end(bytes: Seq<u8>) -> Option<int> {
    if bytes.len() >= 2 && bytes.len() >= 4 + bytes[1] as int {
        Some(4 + bytes[1] as int)
    } else {
        None
    }
}

/// What decoding `bytes` yields: the frame at the start of the buffer, or the
/// reason why there is none.
pub open spec fn decoded(bytes: Seq<u8>) -> core::result::Result<FrameView, Error> {
    match frame_end(bytes) {
        None => Err(Error::InvalidLength),
        Some(end) => {
            let payload = bytes.subrange(2, end - 2);
            let sent = from_big_endian(bytes[end - 2], bytes[end - 1]);
            if crc16_ibm_sdlc(payload) == sent {
                Ok(FrameView { opcode: bytes[0], payload, checksum: sent })
            } else {
                Err(Error::CrcMismatch)
            }
        },
    }
}

/// Frames `payload` under `opcode`: opcode, length, payload, then the
/// checksum of the payload in big-endian order. A payload of more than 255
/// bytes is refused.
pub fn encode(opcode: u8, payload: &[u8]) -> (bytes: Result<Vec<u8>>)
    ensures
        payload@.len() > 255 ==> bytes == Err::<Vec<u8>, Error>(Error::PayloadTooLarge),
        payload@.len() <= 255 ==> bytes.is_ok() && bytes.unwrap()@ == frame_bytes(
            opcode,
            payload@,
        ),
{
    if payload.len() > MAX_PAYLOAD_LEN {
        return Err(Error::PayloadTooLarge);
    }
    let crc = checksum_ibm_sdlc(payload);
    let mut out: Vec<u8> = Vec::new();
    out.push(opcode);
    out.push(payload.len() as u8);
    out.extend_from_slice(payload);
    assert(crc >> 8 <= 0xff) by (bit_vector);
    assert(crc & 0xff <= 0xff) by (bit_vector);
    out.push((crc >> 8) as u8);
    out.push((crc & 0xff) as u8);
    assert(out@ =~= frame_bytes(opcode, payload@));
    Ok(out)
}

/// Extracts the frame at the start of `bytes` and checks its checksum.
/// Never panics: every length is checked before a byte is read. Bytes after
/// the frame are left alone.
pub fn decode(bytes: &[u8]) -> (frame: Result<Frame>)
    ensures
        match decoded(bytes@) {
            Ok(view) => frame.is_ok() && frame.unwrap()@ == view && frame.unwrap().wf(),
            Err(e) => frame == Err::<Frame, Error>(e),
        },
{
    if bytes.len() < 2 {
        return Err(Error::InvalidLength);
    }
    let opcode = bytes[0];
    let length = bytes[1];
    let len = length as usize;
    if bytes.len() < 4 + len {
        return Err(Error::InvalidLength);
    }
    let body = &bytes[2..2 + len];
    assert(body@ =~= bytes@.subrange(2, 2 + len as int));
    let sent = join_big_endian(bytes[2 + len], bytes[3 + len]);
    let computed = checksum_ibm_sdlc(body);
    if computed != sent {
        return Err(Error::CrcMismatch);
    }
    let payload = copy_bytes(body);
    Ok(Frame { opcode, length, payload, checksum: sent })
}

/// Joins two bytes in big-endian order.
pub fn join_big_endian(high: u8, low: u8) -> (value: u16)
    ensures
        value == from_big_endian(high, low),
{
    ((high as u16) << 8) | (low as u16)
}

/// An owned copy of a byte slice.
pub fn copy_bytes(bytes: &[u8]) -> (copy: Vec<u8>)
    ensures
        copy@ == bytes@,
{
    let mut copy: Vec<u8> = Vec::new();
    copy.extend_from_slice(bytes);
    assert(copy@ =~= bytes@);
    copy
}

/// Decoding an encoded frame gives back the opcode and the payload, for
/// every opcode and every payload of at most 255 bytes.
pub proof fn lemma_encode_decode_round_trip(opcode: u8, payload: Seq<u8>)
    requires
        payload.len() <= 255,
    ensures
        decoded(frame_bytes(opcode, payload)) == Ok::<FrameView, Error>(
            FrameView { opcode, payload, checksum: crc16_ibm_sdlc(payload) },
        ),
{
    let bytes = frame_bytes(opcode, payload);
    let crc = crc16_ibm_sdlc(payload);
    assert(bytes.len() == payload.len() + 4);
    assert(bytes[1] as int == payload.len());
    assert(bytes.subrange(2, 2 + payload.len() as int) =~= payload);
    lemma_big_endian_round_trip(crc, 0, 0);
    assert(bytes[payload.len() as int + 2] == high_byte(crc));
    assert(bytes[payload.len() as int + 3] == low_byte(crc));
}

/// A frame whose checksum bytes were altered in transit is rejected with
/// `CrcMismatch`, whatever the alteration.
pub proof fn lemma_checksum_corruption_detected(
    opcode: u8,
    payload: Seq<u8>,
    high: u8,
    low: u8,
)
    requires
        payload.len() <= 255,
        high != high_byte(crc16_ibm_sdlc(payload)) || low != low_byte(crc16_ibm_sdlc(payload)),
    ensures
        decoded(seq![opcode, payload.len() as u8] + payload + seq![high, low]) == Err::<
            FrameView,
            Error,
        >(Error::CrcMismatch),
{
    let bytes = seq![opcode, payload.len() as u8] + payload + seq![high, low];
    let crc = crc16_ibm_sdlc(payload);
    assert(bytes.len() == payload.len() + 4);
    assert(bytes[1] as int == payload.len());
    assert(bytes.subrange(2, 2 + payload.len() as int) =~= payload);
    assert(bytes[payload.len() as int + 2] == high);
    assert(bytes[payload.len() as int + 3] == low);
    lemma_big_endian_round_trip(crc, high, low);
}

/// A step of the register loses nothing: two registers that step to the
/// same value are the same.
pub proof fn lemma_crc_shift_injective(a: u16, b: u16)
    requires
        crc_shift(a) == crc_shift(b),
    ensures
        a == b,
{
    assert(a == b) by (bit_vector)
        requires
            (if a & 1 == 1 {
                (a >> 1) ^ 0x8408u16
            } else {
                a >> 1
            }) == (if b & 1 == 1 {
                (b >> 1) ^ 0x8408u16
            } else {
                b >> 1
            }),
    ;
}

/// Feeding a byte loses nothing: where two feeds end in the same register,
/// they began in the same register if the bytes were the same, and with the
/// same byte if the registers were.
pub proof fn lemma_crc_feed_injective(a: u16, x: u8, b: u16, y: u8)
    requires
        crc_feed(a, x) == crc_feed(b, y),
    ensures
        a == b <==> x == y,
{
    let left = a ^ (x as u16);
    let right = b ^ (y as u16);
    let left1 = crc_shift(left);
    let right1 = crc_shift(right);
    let left2 = crc_shift(left1);
    let right2 = crc_shift(right1);
    let left3 = crc_shift(left2);
    let right3 = crc_shift(right2);
    let left4 = crc_shift(left3);
    let right4 = crc_shift(right3);
    let left5 = crc_shift(left4);
    let right5 = crc_shift(right4);
    let left6 = crc_shift(left5);
    let right6 = crc_shift(right5);
    let left7 = crc_shift(left6);
    let right7 = crc_shift(right6);
    lemma_crc_shift_injective(left7, right7);
    lemma_crc_shift_injective(left6, right6);
    lemma_crc_shift_injective(left5, right5);
    lemma_crc_shift_injective(left4, right4);
    lemma_crc_shift_injective(left3, right3);
    lemma_crc_shift_injective(left2, right2);
    lemma_crc_shift_injective(left1, right1);
    lemma_crc_shift_injective(left, right);
    assert((a == b) == (x == y)) by (bit_vector)
        requires
            a ^ (x as u16) == b ^ (y as u16),
    ;
}

/// Two byte sequences of one length that differ in exactly one byte have
/// different checksums.
pub proof fn lemma_checksum_tells_one_byte(data: Seq<u8>, altered: Seq<u8>, at: int)
    requires
        altered.len() == data.len(),
        0 <= at < data.len(),
        altered[at] != data[at],
        forall|i: int| 0 <= i < data.len() && i != at ==> altered[i] == data[i],
    ensures
        crc_register(altered) != crc_register(data),
        crc16_ibm_sdlc(altered) != crc16_ibm_sdlc(data),
    decreases data.len(),
{
    let a = crc_register(altered.drop_last());
    let b = crc_register(data.drop_last());
    if at == data.len() - 1 {
        assert(altered.drop_last() =~= data.drop_last());
    } else {
        lemma_checksum_tells_one_byte(data.drop_last(), altered.drop_last(), at);
    }
    if crc_register(altered) == crc_register(data) {
        lemma_crc_feed_injective(a, altered.last(), b, data.last());
    }
    let x = crc_register(altered);
    let y = crc_register(data);
    assert(x ^ 0xFFFFu16 != y ^ 0xFFFFu16) by (bit_vector)
        requires
            x != y,
    ;
}

/// A frame in which one byte of the payload was altered in transit is
/// rejected with `CrcMismatch`, whatever the alteration of that byte: a
/// single flipped bit, or all eight.
pub proof fn lemma_payload_byte_corruption_detected(
    opcode: u8,
    payload: Seq<u8>,
    at: int,
    byte: u8,
)
    requires
        payload.len() <= 255,
        0 <= at < payload.len(),
        byte != payload[at],
    ensures
        decoded(frame_bytes(opcode, payload).update(at + 2, byte)) == Err::<FrameView, Error>(
            Error::CrcMismatch,
        ),
{
    let altered = payload.update(at, byte);
    lemma_checksum_tells_one_byte(payload, altered, at);
    lemma_payload_corruption_detected(opcode, payload, altered);
    assert(frame_bytes(opcode, payload).update(at + 2, byte) =~= seq![
        opcode,
        payload.len() as u8,
    ] + altered + seq![
        high_byte(crc16_ibm_sdlc(payload)),
        low_byte(crc16_ibm_sdlc(payload)),
    ]);
}

/// Flipping one bit in the payload or in the checksum of an encoded frame
/// makes decoding fail with `CrcMismatch`. The frame's bytes count from
/// zero: the payload begins at the third byte, and the checksum is the last
/// two.
pub proof fn lemma_bit_flip_detected(opcode: u8, payload: Seq<u8>, index: int, bit: u8)
    requires
        payload.len() <= 255,
        2 <= index < payload.len() + 4,
        bit < 8,
    ensures
        decoded(
            frame_bytes(opcode, payload).update(
                index,
                frame_bytes(opcode, payload)[index] ^ (1u8 << bit),
            ),
        ) == Err::<FrameView, Error>(Error::CrcMismatch),
{
    let frame = frame_bytes(opcode, payload);
    let sent = frame[index];
    let flipped = sent ^ (1u8 << bit);
    assert(flipped != sent) by (bit_vector)
        requires
            flipped == sent ^ (1u8 << bit),
            bit < 8,
    ;
    let crc = crc16_ibm_sdlc(payload);
    if index < payload.len() + 2 {
        assert(frame[index] == payload[index - 2]);
        lemma_payload_byte_corruption_detected(opcode, payload, index - 2, flipped);
    } else if index == payload.len() + 2 {
        lemma_checksum_corruption_detected(opcode, payload, flipped, low_byte(crc));
        assert(frame.update(index, flipped) =~= seq![opcode, payload.len() as u8] + payload + seq![
            flipped,
            low_byte(crc),
        ]);
    } else {
        lemma_checksum_corruption_detected(opcode, payload, high_byte(crc), flipped);
        assert(frame.update(index, flipped) =~= seq![opcode, payload.len() as u8] + payload + seq![
            high_byte(crc),
            flipped,
        ]);
    }
}

/// A frame whose payload was altered in transit, its length kept, never
/// decodes to the payload that was sent: it is rejected with `CrcMismatch`
/// unless the altered payload has the checksum of the payload that was sent.
pub proof fn lemma_payload_corruption_detected(opcode: u8, payload: Seq<u8>, altered: Seq<u8>)
    requires
        payload.len() <= 255,
        altered.len() == payload.len(),
        altered != payload,
    ensures
        ({
            let bytes = seq![opcode, payload.len() as u8] + altered + seq![
                high_byte(crc16_ibm_sdlc(payload)),
                low_byte(crc16_ibm_sdlc(payload)),
            ];
            if crc16_ibm_sdlc(altered) == crc16_ibm_sdlc(payload) {
                decoded(bytes) == Ok::<FrameView, Error>(
                    FrameView { opcode, payload: altered, checksum: crc16_ibm_sdlc(payload) },
                )
            } else {
                decoded(bytes) == Err::<FrameView, Error>(Error::CrcMismatch)
            }
        }),
{
    let crc = crc16_ibm_sdlc(payload);
    let bytes = seq![opcode, payload.len() as u8] + altered + seq![high_byte(crc), low_byte(crc)];
    assert(bytes.len() == payload.len() + 4);
    assert(bytes[1] as int == payload.len());
    assert(bytes.subrange(2, 2 + payload.len() as int) =~= altered);
    assert(bytes[payload.len() as int + 2] == high_byte(crc));
    assert(bytes[payload.len() as int + 3] == low_byte(crc));
    lemma_big_endian_round_trip(crc, 0, 0);
}

/// A classified message: the registry's verdict on the opcode, the payload
/// and the payload's checksum.
#[derive(Debug, Clone)]
pub struct Message {
    pub msg_type: OpcodeClass,
    pub payload: Vec<u8>,
    pub crc: u16,
}

impl Message {
    /// A message of the given kind, with the checksum of its payload.
    pub fn new(msg_type: MessageType, payload: Vec<u8>) -> (message: Self)
        ensures
            message.msg_type == OpcodeClass::Known(msg_type),
            message.payload@ == payload@,
            message.crc == crc16_ibm_sdlc(payload@),
    {
        let crc = Self::calculate_crc(payload.as_slice());
        Self { msg_type: OpcodeClass::Known(msg_type), payload, crc }
    }

    /// Parses the frame at the start of `data` into a message. Fails where
    /// decoding fails: on a buffer that is too short and on a checksum that
    /// does not match. The opcode is classified only after the frame was
    /// decoded, so a frame with an opcode outside the registry is a message
    /// too, of an unknown kind.
    pub fn parse(data: &[u8]) -> (message: Result<Self>)
        ensures
            match decoded(data@) {
                Ok(view) => message.is_ok() && message.unwrap().msg_type == class_of_opcode(
                    view.opcode,
                ) && message.unwrap().payload@ == view.payload && message.unwrap().crc
                    == view.checksum && message.unwrap().crc == crc16_ibm_sdlc(view.payload),
                Err(e) => message == Err::<Message, Error>(e),
            },
    {
        match decode(data) {
            Ok(frame) => Ok(
                Self {
                    msg_type: opcode_to_kind(frame.opcode),
                    payload: frame.payload,
                    crc: frame.checksum,
                },
            ),
            Err(e) => Err(e),
        }
    }

    /// The bytes of this message on the wire: opcode, length, payload, then
    /// the stored checksum in big-endian order. A payload of more than 255
    /// bytes is refused.
    pub fn serialize(&self) -> (bytes: Result<Vec<u8>>)
        ensures
            self.payload@.len() > 255 ==> bytes == Err::<Vec<u8>, Error>(Error::PayloadTooLarge),
            self.payload@.len() <= 255 ==> bytes.is_ok() && bytes.unwrap()@ == seq![
                self.msg_type.opcode_value(),
                self.payload@.len() as u8,
            ] + self.payload@ + seq![high_byte(self.crc), low_byte(self.crc)],
            self.payload@.len() <= 255 && self.crc == crc16_ibm_sdlc(self.payload@)
                ==> bytes.unwrap()@ == frame_bytes(self.msg_type.opcode_value(), self.payload@),
    {
        if self.payload.len() > MAX_PAYLOAD_LEN {
            return Err(Error::PayloadTooLarge);
        }
        let crc = self.crc;
        let mut out: Vec<u8> = Vec::new();
        out.push(self.msg_type.opcode());
        out.push(self.payload.len() as u8);
        out.extend_from_slice(self.payload.as_slice());
        assert(crc >> 8 <= 0xff) by (bit_vector);
        assert(crc & 0xff <= 0xff) by (bit_vector);
        out.push((crc >> 8) as u8);
        out.push((crc & 0xff) as u8);
        assert(out@ =~= seq![self.msg_type.opcode_value(), self.payload@.len() as u8]
            + self.payload@ + seq![high_byte(self.crc), low_byte(self.crc)]);
        Ok(out)
    }

    /// The checksum that a payload must carry.
    pub fn calculate_crc(data: &[u8]) -> (crc: u16)
        ensures
            crc == crc16_ibm_sdlc(data@),
    {
        checksum_ibm_sdlc(data)
    }
}

/// A message that was built with `Message::new` and serialized parses back
/// to its kind and payload.
pub proof fn lemma_message_round_trip(kind: MessageType, payload: Seq<u8>)
    requires
        payload.len() <= 255,
    ensures
        decoded(frame_bytes(kind.opcode_value(), payload)) == Ok::<FrameView, Error>(
            FrameView {
                opcode: kind.opcode_value(),
                payload,
                checksum: crc16_ibm_sdlc(payload),
            },
        ),
        class_of_opcode(kind.opcode_value()) == OpcodeClass::Known(kind),
{
    lemma_encode_decode_round_trip(kind.opcode_value(), payload);
    lemma_registry_bijective(kind, 0);
}

/// A frame under an opcode outside the registry decodes like any other;
/// what it yields is a message of an unknown kind that carries the opcode.
pub proof fn lemma_unknown_opcode_decodes(opcode: u8, payload: Seq<u8>)
    requires
        payload.len() <= 255,
        !(0x01 <= opcode <= 0x0F),
    ensures
        decoded(frame_bytes(opcode, payload)) == Ok::<FrameView, Error>(
            FrameView { opcode, payload, checksum: crc16_ibm_sdlc(payload) },
        ),
        class_of_opcode(opcode) == OpcodeClass::Unknown(opcode),
{
    lemma_encode_decode_round_trip(opcode, payload);
}

} // verus!
