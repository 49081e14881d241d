use librepods_core::crypto::{Crypto, SecureKey};
use librepods_core::device::required_capability;
use librepods_core::error::Error;
use librepods_core::events::EventType;
use librepods_core::parser::{
    encode_anc_mode, parse_anc_mode, parse_battery_info, parse_firmware_version, parse_message,
};
use librepods_core::protocol::{
    decode, encode, is_known_opcode, opcode_to_kind, Frame, Message, MessageType, OpcodeClass,
};
use librepods_core::manager::DeviceManager;
use librepods_core::security::{ReplayWindow, SecureBuffer};
use librepods_core::session::{
    build_nonce, decode_sequence, encode_sequence, open_body, seal_body, Session,
    DIRECTION_INBOUND, DIRECTION_OUTBOUND,
};
use librepods_core::state::{
    AncMode, BatteryInfo, ConnectionEvent, DeviceState, DeviceStateInfo, StateDelta,
};
use librepods_core::{Device, DeviceCapability, DeviceModel, Engine};

fn walk_to(device: &mut Device, state: DeviceState) {
    let path: &[DeviceState] = match state {
        DeviceState::Disconnected => &[],
        DeviceState::Connecting => &[DeviceState::Connecting],
        DeviceState::Connected => &[DeviceState::Connecting, DeviceState::Connected],
        DeviceState::Disconnecting => {
            &[DeviceState::Connecting, DeviceState::Connected, DeviceState::Disconnecting]
        }
        DeviceState::Error => &[DeviceState::Connecting, DeviceState::Error],
    };
    for step in path {
        assert_eq!(device.set_state(*step), Ok(()));
    }
}

fn legal_edges() -> Vec<(DeviceState, DeviceState)> {
    vec![
        (DeviceState::Disconnected, DeviceState::Connecting),
        (DeviceState::Connecting, DeviceState::Connected),
        (DeviceState::Connected, DeviceState::Disconnecting),
        (DeviceState::Disconnecting, DeviceState::Disconnected),
        (DeviceState::Error, DeviceState::Connecting),
        (DeviceState::Connecting, DeviceState::Error),
        (DeviceState::Connected, DeviceState::Error),
        (DeviceState::Disconnecting, DeviceState::Error),
    ]
}

fn all_states() -> [DeviceState; 5] {
    [
        DeviceState::Disconnected,
        DeviceState::Connecting,
        DeviceState::Connected,
        DeviceState::Disconnecting,
        DeviceState::Error,
    ]
}

#[test]
fn set_state_follows_the_transition_table() {
    for from in all_states() {
        for to in all_states() {
            let legal = legal_edges().contains(&(from, to));
            assert_eq!(from.leads_to(to), legal);
            let mut device = Device::new("d".to_string(), "n".to_string(), DeviceModel::AirPods4);
            device.add_capability(DeviceCapability::NoiseControl);
            device.set_metadata("k".to_string(), "v".to_string());
            walk_to(&mut device, from);
            let outcome = device.set_state(to);
            if legal {
                assert_eq!(outcome, Ok(()));
                assert_eq!(*device.state(), to);
            } else {
                assert_eq!(outcome, Err(Error::InvalidTransition));
                assert_eq!(*device.state(), from);
            }
            assert_eq!(device.id(), "d");
            assert_eq!(device.name(), "n");
            assert_eq!(device.model(), DeviceModel::AirPods4);
            assert_eq!(device.capabilities(), &[DeviceCapability::NoiseControl]);
            assert_eq!(device.get_metadata("k"), Some("v"));
        }
    }
}

#[test]
fn manager_refuses_a_state_outside_the_table() {
    let mut manager = DeviceManager::new();
    manager
        .add_device(Device::new("d1".to_string(), "Pods".to_string(), DeviceModel::AirPods3))
        .unwrap();
    assert_eq!(
        manager.update_device_state("d1", DeviceState::Connected),
        Err(Error::InvalidTransition)
    );
    assert_eq!(*manager.get_device("d1").unwrap().state(), DeviceState::Disconnected);
    assert_eq!(manager.update_device_state("d1", DeviceState::Connecting), Ok(()));
    assert_eq!(manager.update_device_state("d1", DeviceState::Connecting), Err(Error::InvalidTransition));
    assert_eq!(manager.update_device_state("d1", DeviceState::Connected), Ok(()));
    assert_eq!(*manager.get_device("d1").unwrap().state(), DeviceState::Connected);
    assert_eq!(manager.connected_devices().len(), 1);
    assert_eq!(
        manager.update_device_state("nobody", DeviceState::Connecting),
        Err(Error::DeviceNotConnected)
    );
}

#[test]
fn manager_files_each_device_once_under_its_id() {
    let mut manager = DeviceManager::new();
    for id in ["a", "b", "c"] {
        manager
            .add_device(Device::new(id.to_string(), "first".to_string(), DeviceModel::AirPods2))
            .unwrap();
    }
    manager
        .add_device(Device::new("b".to_string(), "second".to_string(), DeviceModel::AirPodsMax))
        .unwrap();
    assert_eq!(manager.list_devices().len(), 3);
    assert_eq!(manager.get_device("b").unwrap().name(), "second");
    assert_eq!(manager.list_devices()[1].id(), "b");

    let removed = manager.remove_device("b").unwrap().unwrap();
    assert_eq!(removed.id(), "b");
    assert_eq!(removed.name(), "second");
    assert!(manager.get_device("b").is_none());
    assert_eq!(manager.list_devices().len(), 2);
    assert!(manager.remove_device("b").unwrap().is_none());
    assert_eq!(manager.list_devices().len(), 2);
    assert_eq!(manager.get_device("a").unwrap().id(), "a");
    assert_eq!(manager.get_device("c").unwrap().id(), "c");
}

fn all_kinds() -> Vec<MessageType> {
    vec![
        MessageType::BatteryStatus,
        MessageType::AncControl,
        MessageType::EarDetection,
        MessageType::FirmwareInfo,
        MessageType::SpatialAudio,
        MessageType::HeartRate,
        MessageType::FindMy,
        MessageType::ConversationAwareness,
        MessageType::HearingAid,
        MessageType::DeviceRename,
        MessageType::MultipointControl,
        MessageType::AdaptiveTransparency,
        MessageType::LongPressActions,
        MessageType::CustomTransparency,
        MessageType::HeadGestures,
    ]
}

fn sample_payload(len: usize) -> Vec<u8> {
    (0..len).map(|i| (i * 7 + 3) as u8).collect()
}

#[test]
fn checksum_matches_the_x25_check_value() {
    assert_eq!(Message::calculate_crc(b"123456789"), 0x906e);
}

#[test]
fn encode_lays_out_opcode_length_payload_checksum() {
    let bytes = encode(0x01, &[50, 60, 70]).unwrap();
    let crc = Message::calculate_crc(&[50, 60, 70]);
    assert_eq!(bytes, vec![0x01, 3, 50, 60, 70, (crc >> 8) as u8, (crc & 0xff) as u8]);
}

#[test]
fn encode_decode_round_trip_for_every_known_opcode() {
    for kind in all_kinds() {
        for len in [0usize, 1, 2, 17, 254, 255] {
            let payload = sample_payload(len);
            let bytes = encode(kind.opcode(), &payload).unwrap();
            assert_eq!(bytes.len(), len + 4);
            let frame = decode(&bytes).unwrap();
            assert_eq!(frame.opcode, kind.opcode());
            assert_eq!(frame.length as usize, len);
            assert_eq!(frame.payload, payload);
            assert_eq!(frame.checksum, Message::calculate_crc(&payload));
        }
    }
}

#[test]
fn encode_refuses_a_payload_of_256_bytes() {
    assert_eq!(encode(0x01, &sample_payload(256)), Err(Error::PayloadTooLarge));
    assert!(encode(0x01, &sample_payload(255)).is_ok());
}

#[test]
fn decode_refuses_truncated_buffers() {
    assert_eq!(decode(&[]), Err(Error::InvalidLength));
    assert_eq!(decode(&[0x01]), Err(Error::InvalidLength));
    assert_eq!(decode(&[0x01, 0x00, 0x00]), Err(Error::InvalidLength));
    let bytes = encode(0x01, &[50, 60, 70]).unwrap();
    for cut in 0..bytes.len() {
        assert_eq!(decode(&bytes[..cut]), Err(Error::InvalidLength));
    }
    assert!(decode(&bytes).is_ok());
}

#[test]
fn decode_ignores_bytes_after_the_frame() {
    let mut bytes = encode(0x02, &[1]).unwrap();
    bytes.extend_from_slice(&[9, 9, 9]);
    let frame = decode(&bytes).unwrap();
    assert_eq!(frame.payload, vec![1]);
}

#[test]
fn every_single_bit_flip_in_payload_or_checksum_is_detected() {
    let payload = sample_payload(24);
    let bytes = encode(0x01, &payload).unwrap();
    for index in 2..bytes.len() {
        for bit in 0..8 {
            let mut corrupted = bytes.clone();
            corrupted[index] ^= 1 << bit;
            assert_eq!(decode(&corrupted), Err(Error::CrcMismatch));
        }
    }
}

#[test]
fn registry_maps_kinds_and_opcodes_one_to_one() {
    let kinds = all_kinds();
    for (i, kind) in kinds.iter().enumerate() {
        assert_eq!(kind.opcode(), (i + 1) as u8);
        assert_eq!(MessageType::from_u8(kind.opcode()), Ok(*kind));
        assert_eq!(opcode_to_kind(kind.opcode()), OpcodeClass::Known(*kind));
    }
    for value in 0..=255u8 {
        let known = (1..=15).contains(&value);
        assert_eq!(is_known_opcode(value), known);
        if !known {
            assert_eq!(MessageType::from_u8(value), Err(Error::UnknownMessageType(value)));
            assert_eq!(opcode_to_kind(value), OpcodeClass::Unknown(value));
        }
    }
}

#[test]
fn message_parse_round_trip_and_errors() {
    let msg = Message::new(MessageType::AncControl, vec![2]);
    let bytes = msg.serialize().unwrap();
    let parsed = Message::parse(&bytes).unwrap();
    assert_eq!(msg.msg_type, OpcodeClass::Known(MessageType::AncControl));
    assert_eq!(parsed.msg_type, OpcodeClass::Known(MessageType::AncControl));
    assert_eq!(parsed.payload, vec![2]);
    assert_eq!(parsed.crc, msg.crc);

    assert_eq!(Message::parse(&[0x02, 0x00]).err(), Some(Error::InvalidLength));
    assert_eq!(Message::parse(&[0x02, 0x05, 0x00, 0x00]).err(), Some(Error::InvalidLength));
    let mut broken = bytes.clone();
    broken[2] ^= 0x10;
    assert_eq!(Message::parse(&broken).err(), Some(Error::CrcMismatch));
}

fn checksum_bit_by_bit(data: &[u8]) -> u16 {
    let mut register: u16 = 0xFFFF;
    for byte in data {
        register ^= *byte as u16;
        for _ in 0..8 {
            register = if register & 1 == 1 { (register >> 1) ^ 0x8408 } else { register >> 1 };
        }
    }
    register ^ 0xFFFF
}

#[test]
fn checksum_is_the_one_that_its_parameters_define() {
    assert_eq!(checksum_bit_by_bit(b"123456789"), 0x906e);
    assert_eq!(Message::calculate_crc(&[]), checksum_bit_by_bit(&[]));
    assert_eq!(Message::calculate_crc(&[]), 0x0000);
    for value in 0..=255u8 {
        assert_eq!(Message::calculate_crc(&[value]), checksum_bit_by_bit(&[value]));
        assert_eq!(Message::calculate_crc(&[value, 0]), checksum_bit_by_bit(&[value, 0]));
    }
    let mut data: Vec<u8> = Vec::new();
    let mut seed: u32 = 0x2545_F491;
    for _ in 0..300 {
        seed = seed.wrapping_mul(1_664_525).wrapping_add(1_013_904_223);
        data.push((seed >> 24) as u8);
        assert_eq!(Message::calculate_crc(&data), checksum_bit_by_bit(&data));
    }
}

#[test]
fn every_single_bit_flip_behind_the_header_is_detected() {
    for payload in [vec![], vec![0u8], vec![50, 60, 70], sample_payload(255)] {
        let frame = encode(0x01, &payload).unwrap();
        assert!(decode(&frame).is_ok());
        for index in 2..frame.len() {
            for bit in 0..8 {
                let mut broken = frame.clone();
                broken[index] ^= 1 << bit;
                assert_eq!(decode(&broken).err(), Some(Error::CrcMismatch));
                assert_eq!(Message::parse(&broken).err(), Some(Error::CrcMismatch));
            }
        }
    }
}

#[test]
fn message_parse_classifies_after_decoding() {
    let empty_crc = Message::calculate_crc(&[]);
    let bytes = vec![0xFE, 0x00, (empty_crc >> 8) as u8, (empty_crc & 0xff) as u8];
    let parsed = Message::parse(&bytes).unwrap();
    assert_eq!(parsed.msg_type, OpcodeClass::Unknown(0xFE));
    assert_eq!(parsed.msg_type.opcode(), 0xFE);
    assert!(parsed.payload.is_empty());
    assert_eq!(parsed.crc, empty_crc);
    assert_eq!(parsed.serialize().unwrap(), bytes);

    assert_eq!(bytes, vec![0xFE, 0x00, 0x00, 0x00]);
    let frame = decode(&[0xFE, 0x00, 0x00, 0x00]).unwrap();
    assert_eq!((frame.opcode, frame.payload.len(), frame.checksum), (0xFE, 0, 0x0000));
    assert_eq!(opcode_to_kind(frame.opcode), OpcodeClass::Unknown(0xFE));

    let framed = encode(0xFE, &[1, 2, 3]).unwrap();
    let parsed = Message::parse(&framed).unwrap();
    assert_eq!(parsed.msg_type, OpcodeClass::Unknown(0xFE));
    assert_eq!(parsed.payload, vec![1, 2, 3]);

    let mut broken = framed.clone();
    broken[3] ^= 0x01;
    assert_eq!(Message::parse(&broken).err(), Some(Error::CrcMismatch));
    assert_eq!(Message::parse(&[0xFE, 0x00]).err(), Some(Error::InvalidLength));
    assert_eq!(OpcodeClass::Known(MessageType::HeadGestures).opcode(), 0x0F);
}

#[test]
fn message_serialize_refuses_a_long_payload() {
    let msg = Message::new(MessageType::FirmwareInfo, sample_payload(300));
    assert_eq!(msg.serialize(), Err(Error::PayloadTooLarge));
}

#[test]
fn parse_message_returns_the_rest_and_skips_the_checksum_check() {
    let mut bytes = encode(0x03, &[1, 2]).unwrap();
    let last = bytes.len() - 1;
    bytes[last] ^= 0xff;
    bytes.extend_from_slice(&[7, 8]);
    let (rest, msg) = parse_message(&bytes).unwrap();
    assert_eq!(rest, &[7, 8]);
    assert_eq!(msg.msg_type, OpcodeClass::Known(MessageType::EarDetection));
    assert_eq!(msg.payload, vec![1, 2]);
    assert_ne!(msg.crc, Message::calculate_crc(&[1, 2]));

    assert_eq!(parse_message(&[]).err(), Some(Error::InvalidLength));
    assert_eq!(parse_message(&[0x40, 0, 0, 0]).err(), Some(Error::UnknownMessageType(0x40)));
    assert_eq!(parse_message(&[0x03, 2, 1, 2, 0]).err(), Some(Error::InvalidLength));
}

#[test]
fn payload_parsers_follow_their_layouts() {
    assert_eq!(parse_battery_info(&[50, 60]), None);
    assert_eq!(
        parse_battery_info(&[50, 60, 70]),
        Some(BatteryInfo { left_bud: 50, right_bud: 60, case: 70, is_charging: false })
    );
    assert_eq!(
        parse_battery_info(&[50, 60, 70, 1]),
        Some(BatteryInfo { left_bud: 50, right_bud: 60, case: 70, is_charging: true })
    );
    assert_eq!(parse_anc_mode(&[]), None);
    assert_eq!(parse_anc_mode(&[0]), Some(AncMode::Off));
    assert_eq!(parse_anc_mode(&[3]), Some(AncMode::Adaptive));
    assert_eq!(parse_anc_mode(&[4]), None);
    for mode in [AncMode::Off, AncMode::Active, AncMode::Transparency, AncMode::Adaptive] {
        assert_eq!(parse_anc_mode(&[encode_anc_mode(mode)]), Some(mode));
    }
    assert_eq!(parse_firmware_version(b"5E135"), Some("5E135".to_string()));
    assert_eq!(parse_firmware_version(b""), None);
    assert_eq!(parse_firmware_version(&[0x35, 0xC3, 0xA9]), None);
}

#[test]
fn replay_check_twice_is_true_then_false() {
    for n in [1u64, 2, 127, 128, 129, 1000, u64::MAX] {
        let mut window = ReplayWindow::new();
        assert!(window.check(n));
        assert!(!window.check(n));
        assert_eq!(window.last_sequence(), n);
    }
}

#[test]
fn replay_accepts_out_of_order_inside_the_window() {
    let mut window = ReplayWindow::new();
    assert!(window.check(10));
    assert!(window.check(9));
    assert!(!window.check(9));
    assert!(window.check(1));
    assert!(!window.check(10));
    assert_eq!(window.last_sequence(), 10);
}

#[test]
fn replay_rejects_what_is_128_or_more_behind() {
    let mut window = ReplayWindow::new();
    assert!(window.check(200));
    assert!(!window.check(72));
    assert!(!window.check(71));
    assert!(window.check(73));
    assert!(window.check(199));
    assert!(!window.check(73));
}

#[test]
fn replay_never_accepts_zero_and_forgets_on_a_long_jump() {
    let mut window = ReplayWindow::new();
    assert!(!window.check(0));
    assert!(window.check(5));
    assert!(window.check(5 + 128));
    assert!(!window.check(5));
    assert!(window.check(6));
    assert!(window.check(1000));
    assert!(!window.check(6));
    assert!(!window.check(872));
    assert!(window.check(873));
}

#[test]
fn replay_accepts_each_number_at_most_once_in_a_long_run() {
    let mut window = ReplayWindow::new();
    let mut accepted = std::collections::HashSet::new();
    let mut x: u64 = 12345;
    for _ in 0..5000 {
        x = x.wrapping_mul(6364136223846793005).wrapping_add(1442695040888963407);
        let n = (x >> 33) % 400;
        if window.check(n) {
            assert!(accepted.insert(n));
        }
    }
    assert!(accepted.len() > 100);
}

#[test]
fn derive_key_is_deterministic_and_32_bytes() {
    let a = Crypto::derive_key(b"shared secret", b"salt").unwrap();
    let b = Crypto::derive_key(b"shared secret", b"salt").unwrap();
    let c = Crypto::derive_key(b"shared secreu", b"salt").unwrap();
    let d = Crypto::derive_key(b"shared secret", b"salu").unwrap();
    assert_eq!(a.len(), 32);
    assert_eq!(a, b);
    assert_ne!(a, c);
    assert_ne!(a, d);
    assert_ne!(a.as_slice(), &b"shared secret"[..]);
}

#[test]
fn hash_matches_the_known_digest_of_the_empty_input() {
    let expected: [u8; 32] = [
        0xaf, 0x13, 0x49, 0xb9, 0xf5, 0xf9, 0xa1, 0xa6, 0xa0, 0x40, 0x4d, 0xea, 0x36, 0xdc, 0xc9,
        0x49, 0x9b, 0xcb, 0x25, 0xc9, 0xad, 0xc1, 0x12, 0xb7, 0xcc, 0x9a, 0x93, 0xca, 0xe4, 0x1f,
        0x32, 0x62,
    ];
    assert_eq!(Crypto::hash(b""), expected.to_vec());
    assert!(Crypto::verify_hash(b"", &expected));
    assert!(!Crypto::verify_hash(b"x", &expected));
    assert!(!Crypto::verify_hash(b"", &expected[..31]));
}

#[test]
fn decrypt_opens_what_encrypt_sealed() {
    let key = Crypto::derive_key(b"secret", b"salt").unwrap();
    for len in [0usize, 1, 15, 16, 17, 300] {
        let plaintext = sample_payload(len);
        let nonce = build_nonce(DIRECTION_INBOUND, len as u64 + 1);
        let sealed = Crypto::encrypt(&key, &plaintext, &nonce).unwrap();
        assert_eq!(sealed.len(), len + 16);
        if len > 0 {
            assert_ne!(&sealed[..len], plaintext.as_slice());
        }
        assert_eq!(Crypto::decrypt(&key, &sealed, &nonce), Ok(plaintext));
    }
}

#[test]
fn decrypt_fails_when_ciphertext_nonce_or_key_is_altered() {
    let key = Crypto::derive_key(b"secret", b"salt").unwrap();
    let nonce = build_nonce(DIRECTION_INBOUND, 7);
    let sealed = Crypto::encrypt(&key, b"noise control off", &nonce).unwrap();
    for index in 0..sealed.len() {
        let mut altered = sealed.clone();
        altered[index] ^= 0x01;
        assert_eq!(Crypto::decrypt(&key, &altered, &nonce), Err(Error::CryptoError));
    }
    for index in 0..nonce.len() {
        let mut altered = nonce.clone();
        altered[index] ^= 0x80;
        assert_eq!(Crypto::decrypt(&key, &sealed, &altered), Err(Error::CryptoError));
    }
    for index in 0..key.len() {
        let mut altered = key.clone();
        altered[index] ^= 0x04;
        assert_eq!(Crypto::decrypt(&altered, &sealed, &nonce), Err(Error::CryptoError));
    }
    assert_eq!(Crypto::decrypt(&key, &sealed[..15], &nonce), Err(Error::CryptoError));
    assert_eq!(Crypto::decrypt(&key, &[], &nonce), Err(Error::CryptoError));
}

#[test]
fn encrypt_and_decrypt_refuse_wrong_key_and_nonce_lengths() {
    let key = vec![7u8; 32];
    let nonce = vec![1u8; 12];
    assert_eq!(Crypto::encrypt(&key[..31], b"x", &nonce), Err(Error::CryptoError));
    assert_eq!(Crypto::encrypt(&key, b"x", &nonce[..11]), Err(Error::CryptoError));
    assert_eq!(Crypto::decrypt(&key[..31], &[0u8; 17], &nonce), Err(Error::CryptoError));
    assert_eq!(Crypto::decrypt(&key, &[0u8; 17], &[0u8; 13]), Err(Error::CryptoError));
}

#[test]
fn secure_key_holds_zeros_after_zeroize() {
    let mut key = SecureKey::new(vec![9u8; 32]);
    assert_eq!(key.as_ref(), &[9u8; 32][..]);
    key.zeroize();
    assert_eq!(key.as_ref(), &[0u8; 32][..]);

    let mut buffer = SecureBuffer::new(vec![1, 2, 3, 4, 5]);
    buffer.zeroize();
    assert_eq!(buffer.as_slice(), &[0u8; 5][..]);

    let mut empty = SecureKey::new(Vec::new());
    empty.zeroize();
    assert!(empty.as_ref().is_empty());
}

#[test]
fn closed_session_has_no_key_to_work_with() {
    let mut session = Session::with_key(SecureKey::new(vec![7u8; 32]));
    assert!(session.seal(&[1, 2, 3]).is_ok());
    session.close();
    assert!(session.is_encrypted());
    assert_eq!(session.seal(&[1, 2, 3]), Err(Error::CryptoError));
}

#[test]
fn sequence_numbers_and_nonces_are_big_endian() {
    assert_eq!(encode_sequence(0x0102030405060708), vec![1, 2, 3, 4, 5, 6, 7, 8]);
    assert_eq!(decode_sequence(&[1, 2, 3, 4, 5, 6, 7, 8, 99]), 0x0102030405060708);
    assert_eq!(decode_sequence(&encode_sequence(u64::MAX)), u64::MAX);
    assert_eq!(build_nonce(2, 258), vec![2, 0, 0, 0, 0, 0, 0, 0, 0, 0, 1, 2]);
}

#[test]
fn bodies_open_to_what_was_sealed() {
    let key = Crypto::derive_key(b"secret", b"salt").unwrap();
    let body = seal_body(Some(&key), DIRECTION_INBOUND, 41, &[50, 60, 70]).unwrap();
    assert_eq!(body.len(), 8 + 3 + 16);
    assert_eq!(open_body(Some(&key), DIRECTION_INBOUND, &body), Ok((41, vec![50, 60, 70])));
    assert_eq!(open_body(Some(&key), DIRECTION_OUTBOUND, &body), Err(Error::CryptoError));
    assert_eq!(open_body(Some(&key), DIRECTION_INBOUND, &body[..7]), Err(Error::CryptoError));

    let plain = seal_body(None, DIRECTION_INBOUND, 41, &[50, 60, 70]).unwrap();
    assert_eq!(plain, vec![0, 0, 0, 0, 0, 0, 0, 41, 50, 60, 70]);
    assert_eq!(open_body(None, DIRECTION_INBOUND, &plain), Ok((41, vec![50, 60, 70])));

    assert_eq!(seal_body(None, 1, 1, &sample_payload(248)), Err(Error::PayloadTooLarge));
    assert!(seal_body(None, 1, 1, &sample_payload(247)).is_ok());
    assert_eq!(seal_body(Some(&key), 1, 1, &sample_payload(232)), Err(Error::PayloadTooLarge));
    assert!(seal_body(Some(&key), 1, 1, &sample_payload(231)).is_ok());
    assert_eq!(seal_body(Some(&key[..5]), 1, 1, &[1]), Err(Error::CryptoError));
}

#[test]
fn session_counts_outbound_sequence_numbers() {
    let mut session = Session::derive(b"secret", b"salt").unwrap();
    assert!(session.is_encrypted());
    assert_eq!(session.next_sequence(), 1);
    let first = session.seal(&[1]).unwrap();
    let second = session.seal(&[1]).unwrap();
    assert_eq!(session.next_sequence(), 3);
    assert_ne!(first, second);
    assert_eq!(session.seal(&sample_payload(232)), Err(Error::PayloadTooLarge));
    assert_eq!(session.next_sequence(), 3);
    assert!(session.check_sequence(4));
    assert!(!session.check_sequence(4));
    session.close();
    assert_eq!(session.seal(&[1]), Err(Error::CryptoError));
}

#[test]
fn every_state_and_event_pair_follows_the_table() {
    let states = [
        DeviceState::Disconnected,
        DeviceState::Connecting,
        DeviceState::Connected,
        DeviceState::Disconnecting,
        DeviceState::Error,
    ];
    let events = [
        ConnectionEvent::Connect,
        ConnectionEvent::ConnectAck,
        ConnectionEvent::Disconnect,
        ConnectionEvent::DisconnectAck,
        ConnectionEvent::Fail,
    ];
    let legal = [
        (DeviceState::Disconnected, ConnectionEvent::Connect, DeviceState::Connecting),
        (DeviceState::Error, ConnectionEvent::Connect, DeviceState::Connecting),
        (DeviceState::Connecting, ConnectionEvent::ConnectAck, DeviceState::Connected),
        (DeviceState::Connected, ConnectionEvent::Disconnect, DeviceState::Disconnecting),
        (DeviceState::Disconnecting, ConnectionEvent::DisconnectAck, DeviceState::Disconnected),
        (DeviceState::Connecting, ConnectionEvent::Fail, DeviceState::Error),
        (DeviceState::Connected, ConnectionEvent::Fail, DeviceState::Error),
        (DeviceState::Disconnecting, ConnectionEvent::Fail, DeviceState::Error),
    ];
    for state in states {
        for event in events {
            let expected = legal.iter().find(|(s, e, _)| *s == state && *e == event).map(|t| t.2);
            assert_eq!(state.next(event), expected);

            let mut device = Device::new("d".to_string(), "n".to_string(), DeviceModel::AirPods4);
            device.add_capability(DeviceCapability::BatteryMonitoring);
            device.set_metadata("k".to_string(), "v".to_string());
            walk_to(&mut device, state);
            assert_eq!(*device.state(), state);
            let outcome = device.transition(event);
            match expected {
                Some(target) => {
                    assert_eq!(outcome, Ok(()));
                    assert_eq!(*device.state(), target);
                }
                None => {
                    assert_eq!(outcome, Err(Error::InvalidTransition));
                    assert_eq!(*device.state(), state);
                }
            }
            assert_eq!(device.id(), "d");
            assert_eq!(device.name(), "n");
            assert_eq!(device.capabilities(), &[DeviceCapability::BatteryMonitoring]);
            assert_eq!(device.get_metadata("k"), Some("v"));
        }
    }
}

#[test]
fn capabilities_are_a_set_and_metadata_is_last_write_wins() {
    let mut device = Device::new("d".to_string(), "n".to_string(), DeviceModel::AirPodsMax);
    device.add_capability(DeviceCapability::NoiseControl);
    device.add_capability(DeviceCapability::NoiseControl);
    device.add_capability(DeviceCapability::FindMy);
    assert_eq!(device.capabilities(), &[DeviceCapability::NoiseControl, DeviceCapability::FindMy]);
    device.set_metadata("a".to_string(), "1".to_string());
    device.set_metadata("a".to_string(), "2".to_string());
    assert_eq!(device.get_metadata("a"), Some("2"));
    assert_eq!(device.get_metadata("b"), None);
    device.set_name("other".to_string());
    assert_eq!(device.name(), "other");
    assert_eq!(device.model(), DeviceModel::AirPodsMax);
    assert_eq!(required_capability(MessageType::MultipointControl), DeviceCapability::Multipoint);
}

#[test]
fn apply_inbound_records_deltas_and_ignores_what_it_cannot_use() {
    let mut device = Device::new("d".to_string(), "n".to_string(), DeviceModel::AirPodsProGen2);
    device.add_capability(DeviceCapability::BatteryMonitoring);
    device.add_capability(DeviceCapability::FirmwareInfo);
    device.add_capability(DeviceCapability::HeartRate);

    let battery = BatteryInfo { left_bud: 50, right_bud: 60, case: 70, is_charging: false };
    let delta = device.apply_inbound(OpcodeClass::Known(MessageType::BatteryStatus), &[50, 60, 70]);
    assert_eq!(delta, StateDelta::BatteryUpdated(battery));
    assert_eq!(device.info().battery, Some(battery));

    let delta = device.apply_inbound(OpcodeClass::Known(MessageType::FirmwareInfo), b"7.1");
    assert_eq!(delta, StateDelta::FirmwareVersionChanged("7.1".to_string()));
    assert_eq!(device.info().firmware_version, Some("7.1".to_string()));

    let delta = device.apply_inbound(OpcodeClass::Known(MessageType::HeartRate), &[0, 72]);
    assert_eq!(delta, StateDelta::Observed(MessageType::HeartRate));

    let delta = device.apply_inbound(OpcodeClass::Known(MessageType::AncControl), &[1]);
    assert_eq!(delta, StateDelta::Ignored);
    assert!(delta.is_ignored());
    assert_eq!(device.info().anc_mode, None);

    let delta = device.apply_inbound(OpcodeClass::Known(MessageType::BatteryStatus), &[1, 2]);
    assert_eq!(delta, StateDelta::Ignored);
    assert_eq!(device.info().battery, Some(battery));

    let delta = device.apply_inbound(OpcodeClass::Unknown(0xFE), &[1, 2, 3]);
    assert_eq!(delta, StateDelta::Ignored);

    let fresh = DeviceStateInfo::new();
    assert_eq!(fresh.connection_state, DeviceState::Disconnected);
    assert_eq!(fresh.battery, None);
    assert_eq!(fresh.last_updated, 0);
}

fn connected_engine(key: &[u8]) -> Engine {
    let mut engine = Engine::new();
    let mut device = Device::new("pods".to_string(), "AirPods".to_string(), DeviceModel::AirPodsProGen2);
    device.add_capability(DeviceCapability::BatteryMonitoring);
    device.add_capability(DeviceCapability::NoiseControl);
    engine.register_device(device);
    assert_eq!(*engine.get_device("pods").unwrap().state(), DeviceState::Disconnected);
    assert_eq!(engine.transition("pods", ConnectionEvent::Connect), Ok(()));
    assert_eq!(*engine.get_device("pods").unwrap().state(), DeviceState::Connecting);
    assert_eq!(engine.transition("pods", ConnectionEvent::ConnectAck), Ok(()));
    assert_eq!(*engine.get_device("pods").unwrap().state(), DeviceState::Connected);
    engine.open_session("pods", Session::with_key(SecureKey::new(key.to_vec()))).unwrap();
    engine
}

fn inbound_frame(key: &[u8], opcode: u8, sequence: u64, payload: &[u8]) -> Vec<u8> {
    let body = seal_body(Some(key), DIRECTION_INBOUND, sequence, payload).unwrap();
    encode(opcode, &body).unwrap()
}

#[test]
fn battery_frame_updates_the_device_once_and_replay_is_rejected() {
    let key = Crypto::derive_key(b"pairing secret", b"pods").unwrap();
    let mut engine = connected_engine(&key);
    let frame = inbound_frame(&key, 0x01, 1, &[50, 60, 70]);

    let battery = BatteryInfo { left_bud: 50, right_bud: 60, case: 70, is_charging: false };
    assert_eq!(engine.on_bytes_received("pods", &frame), Ok(StateDelta::BatteryUpdated(battery)));
    assert_eq!(engine.get_device("pods").unwrap().info().battery, Some(battery));
    assert_eq!(engine.get_device("pods").unwrap().info().last_updated, 1);
    assert_eq!(engine.event_bus().len(), 1);
    assert_eq!(engine.event_bus().pending()[0].event_type, EventType::BatteryUpdated);
    assert_eq!(engine.event_bus().pending()[0].device_id, "pods");
    assert_eq!(engine.event_bus().pending()[0].payload, vec![50, 60, 70]);

    assert_eq!(engine.on_bytes_received("pods", &frame), Err(Error::ReplayRejected));
    assert_eq!(engine.event_bus().len(), 1);
    assert_eq!(engine.get_device("pods").unwrap().info().battery, Some(battery));

    let events = engine.event_bus_mut().drain();
    assert_eq!(events.len(), 1);
    assert_eq!(engine.event_bus().len(), 0);
}

#[test]
fn unknown_opcode_decodes_classifies_as_unknown_and_is_ignored() {
    let key = Crypto::derive_key(b"pairing secret", b"pods").unwrap();
    let mut engine = connected_engine(&key);
    let frame = inbound_frame(&key, 0xFE, 1, &[1, 2, 3]);

    let decoded: Frame = decode(&frame).unwrap();
    assert_eq!(decoded.opcode, 0xFE);
    assert_eq!(opcode_to_kind(decoded.opcode), OpcodeClass::Unknown(0xFE));

    assert_eq!(engine.on_bytes_received("pods", &frame), Ok(StateDelta::Ignored));
    assert_eq!(engine.event_bus().len(), 0);
    assert_eq!(engine.get_device("pods").unwrap().info().last_updated, 0);
}

#[test]
fn discarded_frames_leave_the_connection_up_and_emit_an_error_event() {
    let key = Crypto::derive_key(b"pairing secret", b"pods").unwrap();
    let mut engine = connected_engine(&key);
    let frame = inbound_frame(&key, 0x01, 1, &[50, 60, 70]);

    let mut corrupted = frame.clone();
    corrupted[10] ^= 0x01;
    assert_eq!(engine.on_bytes_received("pods", &corrupted), Err(Error::CrcMismatch));
    assert_eq!(engine.on_bytes_received("pods", &frame[..5]), Err(Error::InvalidLength));

    let other_key = Crypto::derive_key(b"another secret", b"pods").unwrap();
    let forged = inbound_frame(&other_key, 0x01, 1, &[50, 60, 70]);
    assert_eq!(engine.on_bytes_received("pods", &forged), Err(Error::CryptoError));

    assert_eq!(engine.event_bus().len(), 3);
    assert!(engine.event_bus().pending().iter().all(|e| e.event_type == EventType::Error));
    assert_eq!(*engine.get_device("pods").unwrap().state(), DeviceState::Connected);
    assert_eq!(engine.get_device("pods").unwrap().info().battery, None);

    assert!(engine.on_bytes_received("pods", &frame).is_ok());
}

#[test]
fn frames_for_unknown_or_disconnected_devices_are_refused() {
    let key = Crypto::derive_key(b"pairing secret", b"pods").unwrap();
    let mut engine = connected_engine(&key);
    let frame = inbound_frame(&key, 0x01, 1, &[50, 60, 70]);
    assert_eq!(engine.on_bytes_received("nobody", &frame), Err(Error::DeviceNotConnected));
    assert_eq!(engine.transition("nobody", ConnectionEvent::Connect), Err(Error::DeviceNotConnected));
    assert_eq!(engine.transition("pods", ConnectionEvent::Connect), Err(Error::InvalidTransition));

    assert_eq!(engine.transition("pods", ConnectionEvent::Disconnect), Ok(()));
    assert_eq!(engine.on_bytes_received("pods", &frame), Err(Error::DeviceNotConnected));
    assert_eq!(engine.transition("pods", ConnectionEvent::DisconnectAck), Ok(()));
    assert_eq!(engine.transition("pods", ConnectionEvent::Connect), Ok(()));
    assert_eq!(engine.transition("pods", ConnectionEvent::ConnectAck), Ok(()));
    assert_eq!(engine.on_bytes_received("pods", &frame), Err(Error::DeviceNotConnected));
    assert_eq!(engine.deliver("pods", 0x01, 1, &[50, 60, 70]), Err(Error::DeviceNotConnected));
    assert_eq!(engine.event_bus().len(), 0);
}

#[test]
fn deliver_applies_in_any_order_inside_the_window() {
    let key = Crypto::derive_key(b"pairing secret", b"pods").unwrap();
    let mut engine = connected_engine(&key);
    assert_eq!(
        engine.deliver("pods", 0x02, 10, &[2]),
        Ok(StateDelta::AncModeChanged(AncMode::Transparency))
    );
    assert_eq!(engine.deliver("pods", 0x02, 9, &[1]), Ok(StateDelta::AncModeChanged(AncMode::Active)));
    assert_eq!(engine.deliver("pods", 0x02, 9, &[0]), Err(Error::ReplayRejected));
    assert_eq!(engine.deliver("pods", 0x06, 11, &[1]), Ok(StateDelta::Ignored));
    assert_eq!(engine.get_device("pods").unwrap().info().anc_mode, Some(AncMode::Active));
    assert_eq!(engine.get_device("pods").unwrap().info().last_updated, 9);
    let kinds: Vec<EventType> = engine.event_bus().pending().iter().map(|e| e.event_type).collect();
    assert_eq!(kinds, vec![EventType::StateChanged, EventType::StateChanged]);
}

#[test]
fn send_command_frames_sealed_payloads_for_connected_capable_devices() {
    let key = Crypto::derive_key(b"pairing secret", b"pods").unwrap();
    let mut engine = connected_engine(&key);

    let bytes = engine.send_command("pods", MessageType::AncControl, &[encode_anc_mode(AncMode::Off)]).unwrap();
    let frame = decode(&bytes).unwrap();
    assert_eq!(frame.opcode, 0x02);
    assert_eq!(open_body(Some(&key), DIRECTION_OUTBOUND, &frame.payload), Ok((1, vec![0])));

    let bytes = engine.send_command("pods", MessageType::AncControl, &[3]).unwrap();
    let frame = decode(&bytes).unwrap();
    assert_eq!(open_body(Some(&key), DIRECTION_OUTBOUND, &frame.payload), Ok((2, vec![3])));

    assert_eq!(engine.send_command("pods", MessageType::HeartRate, &[1]), Err(Error::UnsupportedDevice));
    assert_eq!(engine.send_command("nobody", MessageType::AncControl, &[1]), Err(Error::DeviceNotConnected));
    assert_eq!(
        engine.send_command("pods", MessageType::AncControl, &sample_payload(232)),
        Err(Error::PayloadTooLarge)
    );

    engine.transition("pods", ConnectionEvent::Disconnect).unwrap();
    assert_eq!(engine.send_command("pods", MessageType::AncControl, &[1]), Err(Error::DeviceNotConnected));
}

#[test]
fn sessions_end_with_their_connections() {
    let key = Crypto::derive_key(b"pairing secret", b"pods").unwrap();
    let mut engine = connected_engine(&key);
    assert_eq!(engine.transition("pods", ConnectionEvent::Fail), Ok(()));
    assert_eq!(*engine.get_device("pods").unwrap().state(), DeviceState::Error);
    assert_eq!(engine.transition("pods", ConnectionEvent::Connect), Ok(()));
    assert_eq!(engine.transition("pods", ConnectionEvent::ConnectAck), Ok(()));
    assert_eq!(engine.send_command("pods", MessageType::AncControl, &[1]), Err(Error::DeviceNotConnected));
    assert_eq!(engine.open_session("nobody", Session::plain()), Err(Error::DeviceNotConnected));
    engine.open_session("pods", Session::plain()).unwrap();
    let bytes = engine.send_command("pods", MessageType::AncControl, &[1]).unwrap();
    assert_eq!(decode(&bytes).unwrap().payload, vec![0, 0, 0, 0, 0, 0, 0, 1, 1]);
    engine.close_session("pods");
    assert_eq!(engine.send_command("pods", MessageType::AncControl, &[1]), Err(Error::DeviceNotConnected));
    if let Some(device) = engine.get_device_mut("pods") {
        device.set_name("renamed".to_string());
    }
    assert_eq!(engine.get_device("pods").unwrap().name(), "renamed");
}

#[test]
fn error_messages_name_the_failure() {
    assert_eq!(Error::InvalidLength.message(), "Invalid message length");
    assert_eq!(Error::CrcMismatch.message(), "CRC checksum mismatch");
    assert_eq!(Error::UnknownMessageType(254).message(), "Unknown message type: 254");
    assert_eq!(Error::UnknownMessageType(0).message(), "Unknown message type: 0");
    assert_eq!(Error::BluetoothError("off".to_string()).message(), "Bluetooth error: off");
    assert_eq!(Error::DeviceNotConnected.message(), "Device not connected");
    assert_eq!(Error::ParseError("x".to_string()).message(), "Parse error: x");
}
