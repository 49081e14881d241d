//! Session cryptography: key derivation, authenticated encryption, hashing
//! and the wrapper that keeps key material out of reach once it is done with.

use crate::error::{Error, Result};
use crate::security::{constant_time_eq, wipe, zero_fill, zeros};
use vstd::prelude::*;

verus! {

/// The length of a session key, in bytes.
pub const KEY_LEN: usize = 32;

/// The length of a nonce, in bytes.
pub const NONCE_LEN: usize = 12;

/// The length of the authentication tag that follows the ciphertext.
pub const TAG_LEN: usize = 16;

/// The longest plaintext that one call may encrypt: 2^36 bytes.
pub const MAX_PLAINTEXT_LEN: u64 = 0x10_0000_0000;

/// The context string that binds derived keys to this protocol.
pub open spec fn context_label() -> Seq<u8> {
    seq![
        0x6cu8, 0x69u8, 0x62u8, 0x72u8, 0x65u8, 0x70u8, 0x6fu8, 0x64u8,
        0x73u8, 0x2du8, 0x76u8, 0x31u8, 0x2eu8, 0x30u8, 0x2eu8, 0x30u8,
    ]
}

/// The first 32 bytes of HKDF-SHA256 output for the given salt, input key
/// material and context string.
pub uninterp spec fn hkdf_sha256(salt: Seq<u8>, secret: Seq<u8>, info: Seq<u8>) -> Seq<u8>;

/// The BLAKE3 digest of a byte sequence.
pub uninterp spec fn blake3_digest(data: Seq<u8>) -> Seq<u8>;

/// The AES-256-GCM ciphertext of a plaintext, tag included, with no
/// associated data.
pub uninterp spec fn aes256_gcm_sealed(key: Seq<u8>, nonce: Seq<u8>, plaintext: Seq<u8>) -> Seq<u8>;

/// The plaintext that AES-256-GCM recovers from a ciphertext, or `None`
/// where the tag does not authenticate it.
pub uninterp spec fn aes256_gcm_opened(key: Seq<u8>, nonce: Seq<u8>, ciphertext: Seq<u8>) -> Option<
    Seq<u8>,
>;

/// The sixteen bytes of the context string.
fn context_bytes() -> (label: [u8; 16])
    ensures
        label@ == context_label(),
{
    let label: [u8; 16] = [
        0x6cu8, 0x69u8, 0x62u8, 0x72u8, 0x65u8, 0x70u8, 0x6fu8, 0x64u8,
        0x73u8, 0x2du8, 0x76u8, 0x31u8, 0x2eu8, 0x30u8, 0x2eu8, 0x30u8,
    ];
    assert(label@ =~= context_label());
    label
}

/// The error of `hkdf::Hkdf::expand`: the requested output is too long.
#[verifier::external_type_specification]
#[verifier::external_body]
pub struct ExHkdfInvalidLength(hkdf::InvalidLength);

/// Calls `hkdf::Hkdf::<sha2::Sha256>::new` with the salt and the secret,
/// then `expand` into a buffer of 32 bytes. `expand` fails only for an
/// output longer than 255 hash lengths, so for 32 bytes it succeeds; the
/// contract names what the buffer is filled with.
#[verifier::external_body]
fn hkdf_sha256_expand(salt: &[u8], secret: &[u8], info: &[u8]) -> (okm: core::result::Result<
    Vec<u8>,
    hkdf::InvalidLength,
>)
    ensures
        okm.is_ok(),
        okm.unwrap()@ == hkdf_sha256(salt@, secret@, info@),
        okm.unwrap()@.len() == 32,
{
    let mut okm = [0u8; 32];
    let hk = hkdf::Hkdf::<sha2::Sha256>::new(Some(salt), secret);
    hk.expand(info, &mut okm)?;
    Ok(okm.to_vec())
}

/// Calls `blake3::hash` and copies the 32 bytes of the digest.
#[verifier::external_body]
fn blake3_hash(data: &[u8]) -> (digest: Vec<u8>)
    ensures
        digest@ == blake3_digest(data@),
        digest@.len() == 32,
{
    blake3::hash(data).as_bytes().to_vec()
}

/// Calls `aes_gcm::Aes256Gcm::encrypt` with a key of 32 bytes, a nonce of 12
/// bytes and no associated data. The cipher refuses a plaintext of more than
/// 2^36 bytes, which comes back as `None`, and fails on nothing else. The
/// ciphertext is the plaintext's
/// length plus a tag of 16 bytes, and it is what `decrypt` opens again under
/// the same key and nonce.
#[verifier::external_body]
fn aes256_gcm_encrypt(key: &[u8], nonce: &[u8], plaintext: &[u8]) -> (sealed: Option<Vec<u8>>)
    requires
        key@.len() == 32,
        nonce@.len() == 12,
    ensures
        sealed.is_some() == (plaintext@.len() <= MAX_PLAINTEXT_LEN),
        sealed.is_some() ==> sealed.unwrap()@ == aes256_gcm_sealed(key@, nonce@, plaintext@),
        sealed.is_some() ==> sealed.unwrap()@.len() == plaintext@.len() + 16,
        sealed.is_some() ==> aes256_gcm_opened(key@, nonce@, sealed.unwrap()@) == Some(plaintext@),
{
    let cipher = <aes_gcm::Aes256Gcm as aes_gcm::KeyInit>::new_from_slice(key).ok()?;
    let nonce_arr = aes_gcm::Nonce::from_slice(nonce);
    aes_gcm::aead::Aead::encrypt(&cipher, nonce_arr, aes_gcm::aead::Payload::from(plaintext)).ok()
}

/// Calls `aes_gcm::Aes256Gcm::decrypt` with a key of 32 bytes, a nonce of 12
/// bytes and no associated data. The cipher's one opaque error, which it
/// gives where the tag does not authenticate the ciphertext, comes back as
/// `None`; a recovered plaintext is 16 bytes shorter than the ciphertext.
#[verifier::external_body]
fn aes256_gcm_decrypt(key: &[u8], nonce: &[u8], ciphertext: &[u8]) -> (opened: Option<Vec<u8>>)
    requires
        key@.len() == 32,
        nonce@.len() == 12,
    ensures
        match aes256_gcm_opened(key@, nonce@, ciphertext@) {
            Some(plaintext) => opened.is_some() && opened.unwrap()@ == plaintext,
            None => opened.is_none(),
        },
        opened.is_some() ==> opened.unwrap()@.len() + 16 == ciphertext@.len(),
{
    let cipher = <aes_gcm::Aes256Gcm as aes_gcm::KeyInit>::new_from_slice(key).ok()?;
    let nonce_arr = aes_gcm::Nonce::from_slice(nonce);
    aes_gcm::aead::Aead::decrypt(&cipher, nonce_arr, aes_gcm::aead::Payload::from(ciphertext)).ok()
}

/// What `Crypto::encrypt` returns: the sealed plaintext, or nothing where
/// the key or the nonce has the wrong length or the plaintext is too long.
pub open spec fn encrypted(key: Seq<u8>, plaintext: Seq<u8>, nonce: Seq<u8>) -> Option<Seq<u8>> {
    if key.len() == 32 && nonce.len() == 12 && plaintext.len() <= MAX_PLAINTEXT_LEN {
        Some(aes256_gcm_sealed(key, nonce, plaintext))
    } else {
        None
    }
}

/// What `Crypto::decrypt` returns: the opened ciphertext, or nothing where
/// the key or the nonce has the wrong length or the tag does not match.
pub open spec fn decrypted(key: Seq<u8>, ciphertext: Seq<u8>, nonce: Seq<u8>) -> Option<Seq<u8>> {
    if key.len() == 32 && nonce.len() == 12 {
        aes256_gcm_opened(key, nonce, ciphertext)
    } else {
        None
    }
}

/// The cryptographic operations of a session. It holds no state.
pub struct Crypto;

impl Crypto {
    /// Derives the 32-byte session key from a shared secret and a salt,
    /// bound to the protocol's context string. The same inputs always give
    /// the same key.
    pub fn derive_key(password: &[u8], salt: &[u8]) -> (key: Result<Vec<u8>>)
        ensures
            key.is_ok(),
            key.unwrap()@ == hkdf_sha256(salt@, password@, context_label()),
            key.unwrap()@.len() == 32,
    {
        let label = context_bytes();
        match hkdf_sha256_expand(salt, password, label.as_slice()) {
            Ok(okm) => Ok(okm),
            Err(_) => Err(Error::CryptoError),
        }
    }

    /// The 32-byte digest of `data`.
    pub fn hash(data: &[u8]) -> (digest: Vec<u8>)
        ensures
            digest@ == blake3_digest(data@),
            digest@.len() == 32,
    {
        blake3_hash(data)
    }

    /// Whether `hash` is the digest of `data`.
    pub fn verify_hash(data: &[u8], hash: &[u8]) -> (matches: bool)
        ensures
            matches == (hash@ == blake3_digest(data@)),
    {
        let calculated = Self::hash(data);
        constant_time_eq(calculated.as_slice(), hash)
    }

    /// Encrypts and authenticates `plaintext`. The nonce must never be used
    /// twice under one key; that is the caller's duty. Whatever this returns
    /// as ciphertext, `decrypt` opens to the plaintext under the same key
    /// and nonce.
    pub fn encrypt(key: &[u8], plaintext: &[u8], nonce: &[u8]) -> (ciphertext: Result<Vec<u8>>)
        ensures
            match encrypted(key@, plaintext@, nonce@) {
                Some(sealed) => ciphertext.is_ok() && ciphertext.unwrap()@ == sealed,
                None => ciphertext == Err::<Vec<u8>, Error>(Error::CryptoError),
            },
            ciphertext.is_ok() ==> ciphertext.unwrap()@.len() == plaintext@.len() + 16,
            ciphertext.is_ok() ==> decrypted(key@, ciphertext.unwrap()@, nonce@) == Some(
                plaintext@,
            ),
    {
        if key.len() != KEY_LEN {
            return Err(Error::CryptoError);
        }
        if nonce.len() != NONCE_LEN {
            return Err(Error::CryptoError);
        }
        match aes256_gcm_encrypt(key, nonce, plaintext) {
            Some(sealed) => Ok(sealed),
            None => Err(Error::CryptoError),
        }
    }

    /// Verifies and decrypts `ciphertext`. Fails closed: a wrong length and
    /// a wrong tag give the same error, and no plaintext comes back with it.
    pub fn decrypt(key: &[u8], ciphertext: &[u8], nonce: &[u8]) -> (plaintext: Result<Vec<u8>>)
        ensures
            match decrypted(key@, ciphertext@, nonce@) {
                Some(opened) => plaintext.is_ok() && plaintext.unwrap()@ == opened,
                None => plaintext == Err::<Vec<u8>, Error>(Error::CryptoError),
            },
            plaintext.is_ok() ==> plaintext.unwrap()@.len() + 16 == ciphertext@.len(),
    {
        if key.len() != KEY_LEN {
            return Err(Error::CryptoError);
        }
        if nonce.len() != NONCE_LEN {
            return Err(Error::CryptoError);
        }
        match aes256_gcm_decrypt(key, nonce, ciphertext) {
            Some(opened) => Ok(opened),
            None => Err(Error::CryptoError),
        }
    }
}

/// Key material that is overwritten with zeros when it is dropped, and on
/// request before that.
pub struct SecureKey {
    data: Vec<u8>,
}

impl View for SecureKey {
    type V = Seq<u8>;

    closed spec fn view(&self) -> Seq<u8> {
        self.data@
    }
}

impl SecureKey {
    pub fn new(data: Vec<u8>) -> (key: Self)
        ensures
            key@ == data@,
    {
        Self { data }
    }

    pub fn as_ref(&self) -> (bytes: &[u8])
        ensures
            bytes@ == self@,
    {
        self.data.as_slice()
    }

    /// Overwrites the key with zeros, in place: the wrapper is as long as
    /// before, and nothing of the key can be read from it.
    pub fn zeroize(&mut self)
        ensures
            final(self)@ == zeros(old(self)@.len()),
    {
        zero_fill(&mut self.data);
    }
}

impl SecureKey {
    /// Overwrites the key and the spare capacity behind it with zeros and
    /// empties the wrapper: it holds no key afterwards, not even one of
    /// zeros.
    pub(crate) fn retire(&mut self)
        ensures
            final(self)@.len() == 0,
    {
        zero_fill(&mut self.data);
        assert(self@ == zeros(old(self)@.len()));
        wipe(&mut self.data);
    }
}

impl Drop for SecureKey {
    /// Before the memory is released, every byte of the key is overwritten
    /// with zero; then the spare capacity is overwritten too, and the
    /// wrapper is emptied.
    fn drop(&mut self)
        ensures
            final(self)@.len() == 0,
        opens_invariants none
        no_unwind
    {
        zero_fill(&mut self.data);
        assert(self@ == zeros(old(self)@.len()));
        wipe(&mut self.data);
    }
}

} // verus!
