//! AES-256-GCM with a fixed 32-byte key, its ciphertexts (nonce followed by
//! sealed data) carried as standard base64 text.
use vstd::prelude::*;
use vstd::utf8::{decode_utf8, valid_utf8};
use crate::aes::{Aes256Gcm, Cipher, GCM_MAX_PLAINTEXT, NONCE_LEN, aes256gcm_decrypt_spec, is_aes256gcm_encryption};
use crate::b64::{base64_decode, base64_decode_exec, base64_encode, base64_encode_exec};
use crate::text::utf8_string;
use sha2::Digest;

verus! {

/// The SHA-256 digest of `data`.
pub uninterp spec fn sha256_hash(data: Seq<u8>) -> Seq<u8>;

/// `sha2::Sha256::digest`: the 32-byte digest of `data`.
#[verifier::external_body]
fn sha256_exec(data: &[u8]) -> (r: [u8; 32])
    ensures
        r@ == sha256_hash(data@),
{
    sha2::Sha256::digest(data).into()
}

/// A result of bytes or of an error message, by their views.
pub open spec fn bytes_outcome(r: Result<Vec<u8>, String>) -> Result<Seq<u8>, Seq<char>> {
    match r {
        Ok(v) => Ok(v@),
        Err(e) => Err(e@),
    }
}

/// A result of text or of an error message, by their views.
pub open spec fn text_outcome(r: Result<String, String>) -> Result<Seq<char>, Seq<char>> {
    match r {
        Ok(v) => Ok(v@),
        Err(e) => Err(e@),
    }
}

/// What decrypting the base64 text `text` under `key` gives: an error
/// message when the text is not base64, when the bytes are shorter than a
/// nonce, or when they do not open; else the plaintext.
pub open spec fn decrypt_text_spec(key: Seq<u8>, text: Seq<char>) -> Result<Seq<u8>, Seq<char>> {
    match base64_decode(text) {
        None => Err("Failed to decode base64 data"@),
        Some(ct) => if ct.len() < NONCE_LEN {
            Err("Encrypted data is too short"@)
        } else {
            match aes256gcm_decrypt_spec(key, ct) {
                Some(p) => Ok(p),
                None => Err("Decryption failed"@),
            }
        },
    }
}

/// AES-256-GCM under one key, with base64 text outside.
pub struct Aes {
    key: Vec<u8>,
}

impl Aes {
    #[verifier::type_invariant]
    spec fn key_is_256_bits(self) -> bool {
        self.key.len() == 32
    }

    /// The key.
    pub closed spec fn key(self) -> Seq<u8> {
        self.key@
    }

    /// A cipher under `key_bytes`, which must be 32 bytes long.
    pub fn new(key_bytes: &[u8]) -> (r: Result<Aes, String>)
        ensures
            (r is Ok) == (key_bytes.len() == 32),
            r matches Ok(a) ==> a.key() == key_bytes@,
            r matches Err(e) ==> e@ == "Key length must be 32 bytes"@,
    {
        if key_bytes.len() != 32 {
            return Err(String::from_str("Key length must be 32 bytes"));
        }
        Ok(Aes { key: vstd::slice::slice_to_vec(key_bytes) })
    }

    /// A 32-byte key made from any input: its SHA-256 digest.
    pub fn derive_key(input: &[u8]) -> (r: [u8; 32])
        ensures
            r@ == sha256_hash(input@),
    {
        sha256_exec(input)
    }

    /// Encrypts `data` under a fresh nonce and gives nonce and sealed data
    /// in base64.
    pub fn encrypt_to_b64(&self, data: &[u8]) -> (r: Result<String, String>)
        ensures
            (r is Ok) == (data.len() <= GCM_MAX_PLAINTEXT),
            r matches Ok(s) ==> exists|ct: Seq<u8>|
                is_aes256gcm_encryption(self.key(), data@, ct) && s@ == #[trigger] base64_encode(ct),
            r matches Err(e) ==> e@ == "Encryption failed"@,
    {
        proof {
            use_type_invariant(self);
        }
        let ciphertext = match Aes256Gcm::encrypt(self.key.as_slice(), data) {
            Some(c) => c,
            None => return Err(String::from_str("Encryption failed")),
        };
        Ok(base64_encode_exec(ciphertext.as_slice()))
    }

    /// Decrypts base64 text made by `encrypt_to_b64` under the same key.
    pub fn decrypt_b64_to_bytes(&self, encoded_data: &str) -> (r: Result<Vec<u8>, String>)
        ensures
            bytes_outcome(r) == decrypt_text_spec(self.key(), encoded_data@),
            forall|ct: Seq<u8>, p: Seq<u8>|
                #![trigger base64_encode(ct), is_aes256gcm_encryption(self.key(), p, ct)]
                base64_encode(ct) == encoded_data@ && p.len() <= GCM_MAX_PLAINTEXT
                    && is_aes256gcm_encryption(self.key(), p, ct) ==> bytes_outcome(r) == Ok::<
                    Seq<u8>,
                    Seq<char>,
                >(p),
    {
        proof {
            use_type_invariant(self);
        }
        let encrypted = match base64_decode_exec(encoded_data) {
            Ok(v) => v,
            Err(_) => return Err(String::from_str("Failed to decode base64 data")),
        };
        if encrypted.len() < NONCE_LEN {
            return Err(String::from_str("Encrypted data is too short"));
        }
        match Aes256Gcm::decrypt(self.key.as_slice(), encrypted.as_slice()) {
            Some(p) => Ok(p),
            None => Err(String::from_str("Decryption failed")),
        }
    }

    /// Decrypts as `decrypt_b64_to_bytes` does and reads the plaintext as
    /// UTF-8.
    pub fn decrypt_b64_to_string(&self, encoded_data: &str) -> (r: Result<String, String>)
        ensures
            match decrypt_text_spec(self.key(), encoded_data@) {
                Err(m) => text_outcome(r) == Err::<Seq<char>, Seq<char>>(m),
                Ok(p) => if valid_utf8(p) {
                    text_outcome(r) == Ok::<Seq<char>, Seq<char>>(decode_utf8(p))
                } else {
                    text_outcome(r) == Err::<Seq<char>, Seq<char>>("Decrypted data is not valid UTF-8"@)
                },
            },
    {
        let decrypted = match self.decrypt_b64_to_bytes(encoded_data) {
            Ok(v) => v,
            Err(e) => return Err(e),
        };
        match utf8_string(decrypted) {
            Ok(s) => Ok(s),
            Err(_) => Err(String::from_str("Decrypted data is not valid UTF-8")),
        }
    }
}

} // verus!
