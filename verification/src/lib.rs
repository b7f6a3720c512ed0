//! Activation codes and the tools they are built from: a big-endian code
//! description, the basE91 and PEM text encodings, contracts around the
//! AEAD, key-derivation, compression, elliptic-curve and RSA crates, and the
//! decisions of the activation client between its calls to the service.

pub mod aes;
pub mod aes_text;
pub mod b64;
pub mod base;
pub mod base_roundtrip;
pub mod bytes;
pub mod client;
pub mod code;
pub mod compress;
pub mod ecc;
pub mod hash;
pub mod kdf;
pub mod pem;
pub mod rsa_oaep;
pub mod text;
