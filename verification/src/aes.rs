//! AES-GCM with a random 12-byte nonce written in front of the ciphertext.
//!
//! Output format: `[ nonce (12 B) | ciphertext + tag (plaintext.len() + 16 B) ]`.
use vstd::prelude::*;
use crate::bytes::opt_bytes;
use aes_gcm::aead::{Aead, AeadCore, KeyInit, OsRng};

verus! {

/// Longest plaintext that AES-GCM seals (2^36 bytes).
pub const GCM_MAX_PLAINTEXT: u64 = 0x10_0000_0000;

/// Length of the nonce written in front of every ciphertext.
pub const NONCE_LEN: usize = 12;

/// Length of the authentication tag.
pub const TAG_LEN: usize = 16;

/// Sealing `plaintext` with AES-128-GCM under `key` and `nonce` (no associated
/// data): the ciphertext followed by the tag.
pub uninterp spec fn aes128gcm_seal(key: Seq<u8>, nonce: Seq<u8>, plaintext: Seq<u8>) -> Seq<u8>;

/// Opening `data` (ciphertext followed by tag) with AES-128-GCM under `key`
/// and `nonce`: the plaintext, or `None` when the tag does not match.
pub uninterp spec fn aes128gcm_open(key: Seq<u8>, nonce: Seq<u8>, data: Seq<u8>) -> Option<Seq<u8>>;

/// Sealing `plaintext` with AES-256-GCM under `key` and `nonce` (no associated
/// data): the ciphertext followed by the tag.
pub uninterp spec fn aes256gcm_seal(key: Seq<u8>, nonce: Seq<u8>, plaintext: Seq<u8>) -> Seq<u8>;

/// Opening `data` (ciphertext followed by tag) with AES-256-GCM under `key`
/// and `nonce`: the plaintext, or `None` when the tag does not match.
pub uninterp spec fn aes256gcm_open(key: Seq<u8>, nonce: Seq<u8>, data: Seq<u8>) -> Option<Seq<u8>>;

/// A fresh nonce for AES-128-GCM from the operating system's generator
/// (`AeadCore::generate_nonce` with `OsRng`); only its length is claimed.
#[verifier::external_body]
fn aes128gcm_random_nonce() -> (n: Vec<u8>)
    ensures
        n.len() == NONCE_LEN,
{
    aes_gcm::Aes128Gcm::generate_nonce(OsRng).to_vec()
}

/// A fresh nonce for AES-256-GCM from the operating system's generator
/// (`AeadCore::generate_nonce` with `OsRng`); only its length is claimed.
#[verifier::external_body]
fn aes256gcm_random_nonce() -> (n: Vec<u8>)
    ensures
        n.len() == NONCE_LEN,
{
    aes_gcm::Aes256Gcm::generate_nonce(OsRng).to_vec()
}

/// `aes_gcm::Aes128Gcm::encrypt`: fails exactly when the plaintext is longer
/// than 2^36 bytes; otherwise the sealed bytes, 16 bytes longer than the
/// plaintext.
#[verifier::external_body]
fn aes128gcm_seal_exec(key: &[u8], nonce: &[u8], plaintext: &[u8]) -> (r: Option<Vec<u8>>)
    requires
        key.len() == 16,
        nonce.len() == NONCE_LEN,
    ensures
        (r is Some) == (plaintext.len() <= GCM_MAX_PLAINTEXT),
        r matches Some(c) ==> c@ == aes128gcm_seal(key@, nonce@, plaintext@) && c.len()
            == plaintext.len() + TAG_LEN,
{
    let cipher = aes_gcm::Aes128Gcm::new(aes_gcm::Key::<aes_gcm::Aes128Gcm>::from_slice(key));
    cipher.encrypt(aes_gcm::Nonce::from_slice(nonce), plaintext).ok()
}

/// `aes_gcm::Aes128Gcm::decrypt`: the opened plaintext, 16 bytes shorter than
/// `data`; opening what was sealed under the same key and nonce gives back
/// the plaintext.
#[verifier::external_body]
fn aes128gcm_open_exec(key: &[u8], nonce: &[u8], data: &[u8]) -> (r: Option<Vec<u8>>)
    requires
        key.len() == 16,
        nonce.len() == NONCE_LEN,
    ensures
        opt_bytes(r) == aes128gcm_open(key@, nonce@, data@),
        r matches Some(p) ==> p.len() + TAG_LEN == data.len(),
        forall|p: Seq<u8>|
            p.len() <= GCM_MAX_PLAINTEXT && data@ == aes128gcm_seal(key@, nonce@, p) ==> opt_bytes(r)
                == Some(p),
{
    let cipher = aes_gcm::Aes128Gcm::new(aes_gcm::Key::<aes_gcm::Aes128Gcm>::from_slice(key));
    cipher.decrypt(aes_gcm::Nonce::from_slice(nonce), data).ok()
}

/// `aes_gcm::Aes256Gcm::encrypt`: fails exactly when the plaintext is longer
/// than 2^36 bytes; otherwise the sealed bytes, 16 bytes longer than the
/// plaintext.
#[verifier::external_body]
fn aes256gcm_seal_exec(key: &[u8], nonce: &[u8], plaintext: &[u8]) -> (r: Option<Vec<u8>>)
    requires
        key.len() == 32,
        nonce.len() == NONCE_LEN,
    ensures
        (r is Some) == (plaintext.len() <= GCM_MAX_PLAINTEXT),
        r matches Some(c) ==> c@ == aes256gcm_seal(key@, nonce@, plaintext@) && c.len()
            == plaintext.len() + TAG_LEN,
{
    let cipher = aes_gcm::Aes256Gcm::new(aes_gcm::Key::<aes_gcm::Aes256Gcm>::from_slice(key));
    cipher.encrypt(aes_gcm::Nonce::from_slice(nonce), plaintext).ok()
}

/// `aes_gcm::Aes256Gcm::decrypt`: the opened plaintext, 16 bytes shorter than
/// `data`; opening what was sealed under the same key and nonce gives back
/// the plaintext.
#[verifier::external_body]
fn aes256gcm_open_exec(key: &[u8], nonce: &[u8], data: &[u8]) -> (r: Option<Vec<u8>>)
    requires
        key.len() == 32,
        nonce.len() == NONCE_LEN,
    ensures
        opt_bytes(r) == aes256gcm_open(key@, nonce@, data@),
        r matches Some(p) ==> p.len() + TAG_LEN == data.len(),
        forall|p: Seq<u8>|
            p.len() <= GCM_MAX_PLAINTEXT && data@ == aes256gcm_seal(key@, nonce@, p) ==> opt_bytes(r)
                == Some(p),
{
    let cipher = aes_gcm::Aes256Gcm::new(aes_gcm::Key::<aes_gcm::Aes256Gcm>::from_slice(key));
    cipher.decrypt(aes_gcm::Nonce::from_slice(nonce), data).ok()
}

/// What decrypting `ct` with AES-128-GCM under `key` gives.
pub open spec fn aes128gcm_decrypt_spec(key: Seq<u8>, ct: Seq<u8>) -> Option<Seq<u8>> {
    if key.len() == 16 && ct.len() >= NONCE_LEN {
        aes128gcm_open(key, ct.take(NONCE_LEN as int), ct.skip(NONCE_LEN as int))
    } else {
        None
    }
}

/// What decrypting `ct` with AES-256-GCM under `key` gives.
pub open spec fn aes256gcm_decrypt_spec(key: Seq<u8>, ct: Seq<u8>) -> Option<Seq<u8>> {
    if key.len() == 32 && ct.len() >= NONCE_LEN {
        aes256gcm_open(key, ct.take(NONCE_LEN as int), ct.skip(NONCE_LEN as int))
    } else {
        None
    }
}

/// Whether `ct` is an AES-128-GCM encryption of `p` under `key`: a nonce
/// followed by the sealed plaintext.
pub open spec fn is_aes128gcm_encryption(key: Seq<u8>, p: Seq<u8>, ct: Seq<u8>) -> bool {
    &&& ct.len() == NONCE_LEN + p.len() + TAG_LEN
    &&& ct.skip(NONCE_LEN as int) == aes128gcm_seal(key, ct.take(NONCE_LEN as int), p)
}

/// Whether `ct` is an AES-256-GCM encryption of `p` under `key`: a nonce
/// followed by the sealed plaintext.
pub open spec fn is_aes256gcm_encryption(key: Seq<u8>, p: Seq<u8>, ct: Seq<u8>) -> bool {
    &&& ct.len() == NONCE_LEN + p.len() + TAG_LEN
    &&& ct.skip(NONCE_LEN as int) == aes256gcm_seal(key, ct.take(NONCE_LEN as int), p)
}

/// Symmetric authenticated encryption with a key given as bytes.
pub trait Cipher {
    /// Encrypts `plaintext` under `key`; `None` when the key or the
    /// plaintext is refused.
    fn encrypt(key: &[u8], plaintext: &[u8]) -> Option<Vec<u8>>;

    /// Decrypts `ciphertext` under `key`; `None` when the key is refused or
    /// the ciphertext is not authentic.
    fn decrypt(key: &[u8], ciphertext: &[u8]) -> Option<Vec<u8>>;
}

/// AES-128-GCM (16-byte key).
pub struct Aes128Gcm;

/// AES-256-GCM (32-byte key).
pub struct Aes256Gcm;

impl Cipher for Aes128Gcm {
    fn encrypt(key: &[u8], plaintext: &[u8]) -> (r: Option<Vec<u8>>)
        ensures
            (r is Some) == (key.len() == 16 && plaintext.len() <= GCM_MAX_PLAINTEXT),
            r matches Some(out) ==> is_aes128gcm_encryption(key@, plaintext@, out@),
    {
        if key.len() != 16 {
            return None;
        }
        let nonce = aes128gcm_random_nonce();
        let sealed = match aes128gcm_seal_exec(key, nonce.as_slice(), plaintext) {
            Some(c) => c,
            None => return None,
        };
        let mut output: Vec<u8> = Vec::new();
        output.extend_from_slice(nonce.as_slice());
        output.extend_from_slice(sealed.as_slice());
        assert(output@.take(NONCE_LEN as int) =~= nonce@);
        assert(output@.skip(NONCE_LEN as int) =~= sealed@);
        Some(output)
    }

    fn decrypt(key: &[u8], ciphertext: &[u8]) -> (r: Option<Vec<u8>>)
        ensures
            opt_bytes(r) == aes128gcm_decrypt_spec(key@, ciphertext@),
            forall|p: Seq<u8>|
                key.len() == 16 && p.len() <= GCM_MAX_PLAINTEXT && is_aes128gcm_encryption(
                    key@,
                    p,
                    ciphertext@,
                ) ==> opt_bytes(r) == Some(p),
    {
        if key.len() != 16 || ciphertext.len() < NONCE_LEN {
            return None;
        }
        let (nonce, data) = ciphertext.split_at(NONCE_LEN);
        assert(nonce@ =~= ciphertext@.take(NONCE_LEN as int));
        assert(data@ =~= ciphertext@.skip(NONCE_LEN as int));
        aes128gcm_open_exec(key, nonce, data)
    }
}

impl Cipher for Aes256Gcm {
    fn encrypt(key: &[u8], plaintext: &[u8]) -> (r: Option<Vec<u8>>)
        ensures
            (r is Some) == (key.len() == 32 && plaintext.len() <= GCM_MAX_PLAINTEXT),
            r matches Some(out) ==> is_aes256gcm_encryption(key@, plaintext@, out@),
    {
        if key.len() != 32 {
            return None;
        }
        let nonce = aes256gcm_random_nonce();
        let sealed = match aes256gcm_seal_exec(key, nonce.as_slice(), plaintext) {
            Some(c) => c,
            None => return None,
        };
        let mut output: Vec<u8> = Vec::new();
        output.extend_from_slice(nonce.as_slice());
        output.extend_from_slice(sealed.as_slice());
        assert(output@.take(NONCE_LEN as int) =~= nonce@);
        assert(output@.skip(NONCE_LEN as int) =~= sealed@);
        Some(output)
    }

    fn decrypt(key: &[u8], ciphertext: &[u8]) -> (r: Option<Vec<u8>>)
        ensures
            opt_bytes(r) == aes256gcm_decrypt_spec(key@, ciphertext@),
            forall|p: Seq<u8>|
                key.len() == 32 && p.len() <= GCM_MAX_PLAINTEXT && is_aes256gcm_encryption(
                    key@,
                    p,
                    ciphertext@,
                ) ==> opt_bytes(r) == Some(p),
    {
        if key.len() != 32 || ciphertext.len() < NONCE_LEN {
            return None;
        }
        let (nonce, data) = ciphertext.split_at(NONCE_LEN);
        assert(nonce@ =~= ciphertext@.take(NONCE_LEN as int));
        assert(data@ =~= ciphertext@.skip(NONCE_LEN as int));
        aes256gcm_open_exec(key, nonce, data)
    }
}

} // verus!
