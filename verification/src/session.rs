//! One connection's cryptographic session: the key, the replay window for
//! what comes in and the sequence counter for what goes out.
//!
//! The body of a frame is the sequence number in eight big-endian bytes,
//! followed by the message payload, which is encrypted where the session has
//! a key. The nonce is a direction byte, three zero bytes and the sequence
//! number, so that no nonce is used twice under one key as long as each side
//! counts upwards.

use crate::crypto::{decrypted, Crypto, SecureKey};
use crate::error::{Error, Result};
use crate::protocol::copy_bytes;
use crate::security::{ReplayModel, ReplayWindow};
use vstd::prelude::*;

verus! {

/// The direction byte of frames from the host to the device.
pub const DIRECTION_OUTBOUND: u8 = 0x01;

/// The direction byte of frames from the device to the host.
pub const DIRECTION_INBOUND: u8 = 0x02;

/// The length of the sequence number at the start of a body.
pub const SEQUENCE_LEN: usize = 8;

/// The longest message payload that fits a frame without encryption.
pub const MAX_PLAIN_MESSAGE_LEN: usize = 247;

/// The longest message payload that fits a frame with encryption.
pub const MAX_SEALED_MESSAGE_LEN: usize = 231;

/// Byte `index` of `value` in big-endian order, `index` from 0 to 7.
pub open spec fn sequence_byte(value: u64, index: int) -> u8 {
    ((value >> ((8 * (7 - index)) as u64)) & 0xff) as u8
}

/// The eight bytes of a sequence number, highest first.
pub open spec fn sequence_bytes(value: u64) -> Seq<u8> {
    Seq::new(8, |i: int| sequence_byte(value, i))
}

/// The sequence number that eight bytes spell, highest first.
pub open spec fn sequence_of(bytes: Seq<u8>) -> u64
    recommends
        bytes.len() == 8,
{
    ((bytes[0] as u64) << 56) | ((bytes[1] as u64) << 48) | ((bytes[2] as u64) << 40) | ((
    bytes[3] as u64) << 32) | ((bytes[4] as u64) << 24) | ((bytes[5] as u64) << 16) | ((
    bytes[6] as u64) << 8) | (bytes[7] as u64)
}

/// Reading the bytes of a sequence number gives the number back.
pub proof fn lemma_sequence_round_trip(value: u64)
    ensures
        sequence_bytes(value).len() == 8,
        sequence_of(sequence_bytes(value)) == value,
{
    let b = sequence_bytes(value);
    assert(b[0] == ((value >> 56) & 0xff) as u8);
    assert(b[1] == ((value >> 48) & 0xff) as u8);
    assert(b[2] == ((value >> 40) & 0xff) as u8);
    assert(b[3] == ((value >> 32) & 0xff) as u8);
    assert(b[4] == ((value >> 24) & 0xff) as u8);
    assert(b[5] == ((value >> 16) & 0xff) as u8);
    assert(b[6] == ((value >> 8) & 0xff) as u8);
    assert(b[7] == ((value >> 0) & 0xff) as u8);
    assert(((((value >> 56) & 0xff) as u8 as u64) << 56) | ((((value >> 48) & 0xff) as u8 as u64)
        << 48) | ((((value >> 40) & 0xff) as u8 as u64) << 40) | ((((value >> 32) & 0xff) as u8
        as u64) << 32) | ((((value >> 24) & 0xff) as u8 as u64) << 24) | ((((value >> 16)
        & 0xff) as u8 as u64) << 16) | ((((value >> 8) & 0xff) as u8 as u64) << 8) | (((value
        >> 0) & 0xff) as u8 as u64) == value) by (bit_vector);
}

/// The nonce of the frame with the given direction and sequence number.
pub open spec fn nonce_for(direction: u8, sequence: u64) -> Seq<u8> {
    seq![direction, 0u8, 0u8, 0u8] + sequence_bytes(sequence)
}

/// Nonces differ as soon as the direction or the sequence number differs.
pub proof fn lemma_nonce_unique(d1: u8, s1: u64, d2: u8, s2: u64)
    requires
        nonce_for(d1, s1) == nonce_for(d2, s2),
    ensures
        d1 == d2,
        s1 == s2,
        nonce_for(d1, s1).len() == 12,
{
    let n1 = nonce_for(d1, s1);
    let n2 = nonce_for(d2, s2);
    assert(n1[0] == d1 && n2[0] == d2);
    assert(n1.subrange(4, 12) =~= sequence_bytes(s1));
    assert(n2.subrange(4, 12) =~= sequence_bytes(s2));
    lemma_sequence_round_trip(s1);
    lemma_sequence_round_trip(s2);
}

/// What a body holds: the sequence number and the message payload, or
/// nothing where the body is shorter than a sequence number or does not
/// authenticate under the key.
pub open spec fn opened_body(key: Option<Seq<u8>>, direction: u8, body: Seq<u8>) -> Option<
    (u64, Seq<u8>),
> {
    if body.len() < 8 {
        None
    } else {
        let sequence = sequence_of(body.subrange(0, 8));
        let rest = body.subrange(8, body.len() as int);
        match key {
            None => Some((sequence, rest)),
            Some(k) => match decrypted(k, rest, nonce_for(direction, sequence)) {
                Some(plaintext) => Some((sequence, plaintext)),
                None => None,
            },
        }
    }
}

/// The eight bytes of a sequence number, highest first.
pub fn encode_sequence(value: u64) -> (bytes: Vec<u8>)
    ensures
        bytes@ == sequence_bytes(value),
{
    let mut bytes: Vec<u8> = Vec::new();
    let mut i: usize = 0;
    while i < 8
        invariant
            i <= 8,
            bytes@.len() == i,
            forall|j: int| 0 <= j < i ==> bytes@[j] == sequence_byte(value, j),
        decreases 8 - i,
    {
        let shift: u64 = (8 * (7 - i)) as u64;
        let part: u64 = (value >> shift) & 0xff;
        assert(part <= 0xff) by (bit_vector)
            requires
                part == (value >> shift) & 0xff,
        ;
        bytes.push(part as u8);
        i += 1;
    }
    assert(bytes@ =~= sequence_bytes(value));
    bytes
}

/// The sequence number at the start of `bytes`.
pub fn decode_sequence(bytes: &[u8]) -> (value: u64)
    requires
        bytes@.len() >= 8,
    ensures
        value == sequence_of(bytes@.subrange(0, 8)),
{
    ((bytes[0] as u64) << 56) | ((bytes[1] as u64) << 48) | ((bytes[2] as u64) << 40) | ((
    bytes[3] as u64) << 32) | ((bytes[4] as u64) << 24) | ((bytes[5] as u64) << 16) | ((
    bytes[6] as u64) << 8) | (bytes[7] as u64)
}

/// The twelve bytes of a nonce.
pub fn build_nonce(direction: u8, sequence: u64) -> (nonce: Vec<u8>)
    ensures
        nonce@ == nonce_for(direction, sequence),
        nonce@.len() == 12,
{
    let mut nonce: Vec<u8> = Vec::new();
    nonce.push(direction);
    nonce.push(0);
    nonce.push(0);
    nonce.push(0);
    let tail = encode_sequence(sequence);
    nonce.extend_from_slice(tail.as_slice());
    assert(nonce@ =~= nonce_for(direction, sequence));
    nonce
}

/// Builds the body of a frame: the sequence number, then the payload,
/// encrypted where a key is given. Fails with `PayloadTooLarge` where the
/// body would not fit the length field of a frame, and with `CryptoError`
/// where the key is not 32 bytes long. Whatever comes back opens again to
/// the sequence number and the payload.
pub fn seal_body(key: Option<&[u8]>, direction: u8, sequence: u64, payload: &[u8]) -> (body:
    Result<Vec<u8>>)
    ensures
        match key {
            None => if payload@.len() > MAX_PLAIN_MESSAGE_LEN {
                body == Err::<Vec<u8>, Error>(Error::PayloadTooLarge)
            } else {
                body.is_ok() && body.unwrap()@ == sequence_bytes(sequence) + payload@
            },
            Some(k) => if payload@.len() > MAX_SEALED_MESSAGE_LEN {
                body == Err::<Vec<u8>, Error>(Error::PayloadTooLarge)
            } else if k@.len() != 32 {
                body == Err::<Vec<u8>, Error>(Error::CryptoError)
            } else {
                body.is_ok() && body.unwrap()@ == sequence_bytes(sequence)
                    + crate::crypto::aes256_gcm_sealed(
                    k@,
                    nonce_for(direction, sequence),
                    payload@,
                )
            },
        },
        body.is_ok() ==> body.unwrap()@.len() <= 255 && opened_body(
            match key {
                Some(k) => Some(k@),
                None => None,
            },
            direction,
            body.unwrap()@,
        ) == Some((sequence, payload@)),
{
    let mut body = encode_sequence(sequence);
    proof {
        lemma_sequence_round_trip(sequence);
    }
    match key {
        None => {
            if payload.len() > MAX_PLAIN_MESSAGE_LEN {
                return Err(Error::PayloadTooLarge);
            }
            body.extend_from_slice(payload);
            assert(body@ =~= sequence_bytes(sequence) + payload@);
            assert(body@.subrange(0, 8) =~= sequence_bytes(sequence));
            assert(body@.subrange(8, body@.len() as int) =~= payload@);
            Ok(body)
        },
        Some(k) => {
            if payload.len() > MAX_SEALED_MESSAGE_LEN {
                return Err(Error::PayloadTooLarge);
            }
            let nonce = build_nonce(direction, sequence);
            match Crypto::encrypt(k, payload, nonce.as_slice()) {
                Ok(sealed) => {
                    body.extend_from_slice(sealed.as_slice());
                    assert(body@ =~= sequence_bytes(sequence) + sealed@);
                    assert(body@.subrange(0, 8) =~= sequence_bytes(sequence));
                    assert(body@.subrange(8, body@.len() as int) =~= sealed@);
                    Ok(body)
                },
                Err(_) => Err(Error::CryptoError),
            }
        },
    }
}

/// Reads the body of a frame: the sequence number and the payload,
/// decrypted and authenticated where a key is given. Fails closed with
/// `CryptoError`, whatever the reason.
pub fn open_body(key: Option<&[u8]>, direction: u8, body: &[u8]) -> (opened: Result<
    (u64, Vec<u8>),
>)
    ensures
        match opened_body(
            match key {
                Some(k) => Some(k@),
                None => None,
            },
            direction,
            body@,
        ) {
            Some((sequence, payload)) => opened.is_ok() && opened.unwrap().0 == sequence
                && opened.unwrap().1@ == payload,
            None => opened == Err::<(u64, Vec<u8>), Error>(Error::CryptoError),
        },
{
    if body.len() < SEQUENCE_LEN {
        return Err(Error::CryptoError);
    }
    let sequence = decode_sequence(body);
    let rest = &body[8..body.len()];
    assert(rest@ =~= body@.subrange(8, body@.len() as int));
    match key {
        None => Ok((sequence, copy_bytes(rest))),
        Some(k) => {
            let nonce = build_nonce(direction, sequence);
            match Crypto::decrypt(k, rest, nonce.as_slice()) {
                Ok(payload) => Ok((sequence, payload)),
                Err(_) => Err(Error::CryptoError),
            }
        },
    }
}

/// The state of one connection's session.
pub struct Session {
    key: Option<SecureKey>,
    replay: ReplayWindow,
    next_outbound: u64,
}

/// The mathematical content of a session.
pub ghost struct SessionView {
    pub key: Option<Seq<u8>>,
    pub replay: ReplayModel,
    pub next_outbound: u64,
}

impl View for Session {
    type V = SessionView;

    closed spec fn view(&self) -> SessionView {
        SessionView {
            key: match self.key {
                Some(key) => Some(key@),
                None => None,
            },
            replay: self.replay@,
            next_outbound: self.next_outbound,
        }
    }
}

impl SessionView {
    /// A session that has sent and received nothing.
    pub open spec fn fresh(key: Option<Seq<u8>>) -> SessionView {
        SessionView { key, replay: ReplayModel::initial(), next_outbound: 1 }
    }
}

impl Session {
    /// A session without encryption: bodies carry the payload in the clear,
    /// replay protection still applies.
    pub fn plain() -> (session: Self)
        ensures
            session@ == SessionView::fresh(None),
    {
        Self { key: None, replay: ReplayWindow::new(), next_outbound: 1 }
    }

    /// A session under the given key.
    pub fn with_key(key: SecureKey) -> (session: Self)
        ensures
            session@ == SessionView::fresh(Some(key@)),
    {
        Self { key: Some(key), replay: ReplayWindow::new(), next_outbound: 1 }
    }

    /// A session whose key is derived from a shared secret and a salt.
    pub fn derive(secret: &[u8], salt: &[u8]) -> (session: Result<Self>)
        ensures
            session.is_ok(),
            session.unwrap()@ == SessionView::fresh(
                Some(
                    crate::crypto::hkdf_sha256(salt@, secret@, crate::crypto::context_label()),
                ),
            ),
    {
        match Crypto::derive_key(secret, salt) {
            Ok(key) => Ok(Self::with_key(SecureKey::new(key))),
            Err(e) => Err(e),
        }
    }

    /// Whether bodies are encrypted.
    pub fn is_encrypted(&self) -> (encrypted: bool)
        ensures
            encrypted == self@.key.is_some(),
    {
        self.key.is_some()
    }

    /// The sequence number that the next outbound frame will carry.
    pub fn next_sequence(&self) -> (sequence: u64)
        ensures
            sequence == self@.next_outbound,
    {
        self.next_outbound
    }

    /// The key bytes, if the session has a key.
    fn key_bytes(&self) -> (key: Option<&[u8]>)
        ensures
            match key {
                Some(k) => self@.key == Some(k@),
                None => self@.key.is_none(),
            },
    {
        match &self.key {
            Some(key) => Some(key.as_ref()),
            None => None,
        }
    }

    /// Builds the body of the next outbound frame and moves the counter on.
    /// A failure leaves the session as it was. The counter never wraps: once
    /// it has reached its highest value the session refuses to send, so that
    /// no nonce is ever used twice.
    pub fn seal(&mut self, payload: &[u8]) -> (body: Result<Vec<u8>>)
        ensures
            body.is_err() ==> final(self)@ == old(self)@,
            old(self)@.next_outbound == u64::MAX ==> body == Err::<Vec<u8>, Error>(
                Error::CryptoError,
            ),
            old(self)@.next_outbound < u64::MAX ==> ({
                let limit = if old(self)@.key.is_some() {
                    MAX_SEALED_MESSAGE_LEN
                } else {
                    MAX_PLAIN_MESSAGE_LEN
                };
                if payload@.len() > limit {
                    body == Err::<Vec<u8>, Error>(Error::PayloadTooLarge)
                } else if old(self)@.key.is_some() && old(self)@.key.unwrap().len() != 32 {
                    body == Err::<Vec<u8>, Error>(Error::CryptoError)
                } else {
                    body.is_ok()
                }
            }),
            body.is_ok() ==> final(self)@ == (SessionView {
                next_outbound: (old(self)@.next_outbound + 1) as u64,
                ..old(self)@
            }) && body.unwrap()@.len() <= 255 && opened_body(
                old(self)@.key,
                DIRECTION_OUTBOUND,
                body.unwrap()@,
            ) == Some((old(self)@.next_outbound, payload@)),
    {
        if self.next_outbound == u64::MAX {
            return Err(Error::CryptoError);
        }
        let sequence = self.next_outbound;
        let body = seal_body(self.key_bytes(), DIRECTION_OUTBOUND, sequence, payload);
        if body.is_ok() {
            self.next_outbound = sequence + 1;
        }
        body
    }

    /// Reads the body of an inbound frame. The replay window is not
    /// consulted: see `check_sequence`.
    pub fn open(&self, body: &[u8]) -> (opened: Result<(u64, Vec<u8>)>)
        ensures
            match opened_body(self@.key, DIRECTION_INBOUND, body@) {
                Some((sequence, payload)) => opened.is_ok() && opened.unwrap().0 == sequence
                    && opened.unwrap().1@ == payload,
                None => opened == Err::<(u64, Vec<u8>), Error>(Error::CryptoError),
            },
    {
        open_body(self.key_bytes(), DIRECTION_INBOUND, body)
    }

    /// Admits or rejects an inbound sequence number.
    pub fn check_sequence(&mut self, sequence: u64) -> (accepted: bool)
        ensures
            accepted == old(self)@.replay.accepts(sequence),
            final(self)@ == (SessionView {
                replay: old(self)@.replay.after_check(sequence),
                ..old(self)@
            }),
    {
        self.replay.check(sequence)
    }

    /// Overwrites the key with zeros and empties it. The session cannot
    /// seal or open encrypted bodies afterwards.
    pub fn close(&mut self)
        ensures
            final(self)@ == (SessionView {
                key: match old(self)@.key {
                    Some(_) => Some(Seq::<u8>::empty()),
                    None => None,
                },
                ..old(self)@
            }),
    {
        match &mut self.key {
            Some(key) => {
                key.retire();
                assert(key@ =~= Seq::<u8>::empty());
            },
            None => {},
        }
    }
}

} // verus!
