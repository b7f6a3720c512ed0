//! Elliptic-curve signatures (ECDSA over a BLAKE3 digest of the message)
//! and Diffie-Hellman agreement on P-256, secp256k1 and P-384.
//!
//! Public keys are compressed SEC1 points; private keys are the big-endian
//! secret scalar; shared secrets are the x-coordinate of the shared point.
use vstd::prelude::*;
use crate::bytes::opt_bytes;
use crate::hash::{Blake3, blake3_hash};
use crate::kdf::{HkdfSha256, Kdf, hkdf_sha256};
use p256::ecdsa::signature::{Signer, Verifier};
use rand::rngs::OsRng;

verus! {

/// Signatures and key agreement on one curve.
pub trait EccCipher {
    /// Length of a private key on the curve.
    spec fn private_key_len() -> nat;

    /// Length of a signature on the curve.
    spec fn signature_len() -> nat;

    /// Whether `public_key` reads as a SEC1-encoded point of the curve.
    spec fn accepts_public_key(public_key: Seq<u8>) -> bool;

    /// A fresh key pair: (public key, private key).
    fn generate_keypair() -> Option<(Vec<u8>, Vec<u8>)>;

    /// Signs the BLAKE3 digest of `message`; `None` when the private key is
    /// not a valid scalar of the curve's length.
    fn sign(private_key: &[u8], message: &[u8]) -> (r: Option<Vec<u8>>)
        ensures
            private_key.len() != Self::private_key_len() ==> r is None,
    ;

    /// Whether `signature` is a valid signature of `message` under
    /// `public_key`; a key that does not read as a point, or a signature of
    /// the wrong length, is refused.
    fn verify(public_key: &[u8], message: &[u8], signature: &[u8]) -> (r: bool)
        ensures
            signature.len() != Self::signature_len() ==> !r,
            !Self::accepts_public_key(public_key@) ==> !r,
    ;

    /// Agreement with a fresh ephemeral key: (ephemeral public key, shared
    /// secret); `None` when the peer's key is not a valid point.
    fn ecdh(peer_public_key: &[u8]) -> Option<(Vec<u8>, Vec<u8>)>;

    /// Agreement between a private key and a peer's public key.
    fn ecdh_with_key(private_key: &[u8], peer_public_key: &[u8]) -> Option<Vec<u8>>;

    /// Ephemeral agreement followed by HKDF-SHA256 of the shared secret with
    /// `kdf_salt`: (ephemeral public key, derived key).
    fn ecdh_kdf_hkdf256(peer_public_key: &[u8], kdf_salt: &[u8], output_len: usize) -> Option<(Vec<u8>, Vec<u8>)>;
}

/// Length of a compressed P-256 public key.
pub const P256_PUBLIC_KEY_LEN: usize = 33;

/// Length of a P-256 private key.
pub const P256_PRIVATE_KEY_LEN: usize = 32;

/// Length of a P-256 signature.
pub const P256_SIGNATURE_LEN: usize = 64;

/// Length of a P-256 shared secret.
pub const P256_SHARED_LEN: usize = 32;

/// The compressed P-256 public key of the private key `secret`, when
/// `secret` is a valid private key (`SecretKey::from_slice` accepts it).
pub uninterp spec fn p256_public_key(secret: Seq<u8>) -> Option<Seq<u8>>;

/// The deterministic (RFC 6979) P-256 ECDSA signature of `msg` under
/// `secret`, when `secret` is a valid private key.
pub uninterp spec fn p256_ecdsa_sign(secret: Seq<u8>, msg: Seq<u8>) -> Option<Seq<u8>>;

/// Whether `sig` is a valid P-256 ECDSA signature of `msg` under the
/// SEC1-encoded public key `public`.
pub uninterp spec fn p256_ecdsa_verify(public: Seq<u8>, msg: Seq<u8>, sig: Seq<u8>) -> bool;

/// Whether `public` reads as a SEC1-encoded P-256 point
/// (`VerifyingKey::from_sec1_bytes` accepts it).
pub uninterp spec fn p256_sec1_accepts(public: Seq<u8>) -> bool;

/// The P-256 Diffie-Hellman shared secret of `secret` and the
/// SEC1-encoded point `peer`, when both decode.
pub uninterp spec fn p256_ecdh(secret: Seq<u8>, peer: Seq<u8>) -> Option<Seq<u8>>;

/// A fresh P-256 key pair from `SecretKey::random(&mut OsRng)`: its
/// compressed public key and its secret bytes; only that they belong
/// together is claimed.
#[verifier::external_body]
fn p256_generate_exec() -> (r: (Vec<u8>, Vec<u8>))
    ensures
        p256_public_key(r.1@) == Some(r.0@),
        r.0.len() == 33,
        r.1.len() == 32,
{
    let secret = p256::SecretKey::random(&mut OsRng);
    let public = p256::EncodedPoint::from(secret.public_key()).compress().as_bytes().to_vec();
    (public, secret.to_bytes().to_vec())
}

/// `p256::ecdsa::SigningKey::from_bytes` then `Signer::sign` (RFC 6979) and
/// `Signature::to_bytes`; it fails exactly when the private key is not
/// valid.
#[verifier::external_body]
fn p256_sign_exec(secret: &[u8], msg: &[u8]) -> (r: Option<Vec<u8>>)
    requires
        secret.len() == 32,
    ensures
        opt_bytes(r) == p256_ecdsa_sign(secret@, msg@),
        (r is Some) == (p256_public_key(secret@) is Some),
        r matches Some(s) ==> s.len() == 64,
{
    let key = p256::ecdsa::SigningKey::from_bytes(secret.into()).ok()?;
    let sig: p256::ecdsa::Signature = key.sign(msg);
    Some(sig.to_bytes().to_vec())
}

/// `p256::ecdsa::VerifyingKey::from_sec1_bytes`, `Signature::from_bytes` and
/// `Verifier::verify`; a key that does not read is refused first (reading a
/// signature of the wrong length panics, so that only happens with a key
/// that does not read); a signature made with the private key of the public
/// key verifies.
#[verifier::external_body]
fn p256_verify_exec(public: &[u8], msg: &[u8], sig: &[u8]) -> (r: bool)
    requires
        sig.len() == 64 || !p256_sec1_accepts(public@),
    ensures
        r == p256_ecdsa_verify(public@, msg@, sig@),
        !p256_sec1_accepts(public@) ==> !r,
        forall|secret: Seq<u8>|
            p256_public_key(secret) == Some(public@) && p256_ecdsa_sign(secret, msg@) == Some(sig@) ==> r,
{
    let key = match p256::ecdsa::VerifyingKey::from_sec1_bytes(public) {
        Ok(k) => k,
        Err(_) => return false,
    };
    let sig = match p256::ecdsa::Signature::from_bytes(sig.into()) {
        Ok(s) => s,
        Err(_) => return false,
    };
    key.verify(msg, &sig).is_ok()
}

/// `p256::PublicKey::from_sec1_bytes`, then a fresh `ecdh::EphemeralSecret`
/// from `OsRng` and its `diffie_hellman`: the compressed ephemeral public
/// key and the raw shared secret, which is what the ephemeral private key
/// agrees with the peer; `None` exactly when the peer's key does not decode.
#[verifier::external_body]
fn p256_ephemeral_exec(peer: &[u8]) -> (r: Option<(Vec<u8>, Vec<u8>)>)
    ensures
        r matches Some(p) ==> exists|e: Seq<u8>|
            p256_public_key(e) == Some(p.0@) && #[trigger] p256_ecdh(e, peer@) == Some(p.1@),
        r matches Some(p) ==> p.0.len() == 33 && p.1.len() == 32,
        r is None ==> forall|e: Seq<u8>| #[trigger] p256_ecdh(e, peer@) is None,
{
    let peer = p256::PublicKey::from_sec1_bytes(peer).ok()?;
    let ephemeral = p256::ecdh::EphemeralSecret::random(&mut OsRng);
    let public = p256::EncodedPoint::from(ephemeral.public_key()).compress().as_bytes().to_vec();
    Some((public, ephemeral.diffie_hellman(&peer).raw_secret_bytes().to_vec()))
}

/// `p256::SecretKey::from_slice`, `p256::PublicKey::from_sec1_bytes` and
/// `ecdh::diffie_hellman`: the raw shared secret; two valid key pairs agree
/// on the same secret.
#[verifier::external_body]
fn p256_ecdh_exec(secret: &[u8], peer: &[u8]) -> (r: Option<Vec<u8>>)
    ensures
        opt_bytes(r) == p256_ecdh(secret@, peer@),
        r matches Some(s) ==> s.len() == 32,
        forall|b: Seq<u8>|
            p256_public_key(b) == Some(peer@) && p256_public_key(secret@) is Some ==> r is Some
                && opt_bytes(r) == p256_ecdh(b, p256_public_key(secret@)->0),
{
    let secret = p256::SecretKey::from_slice(secret).ok()?;
    let peer = p256::PublicKey::from_sec1_bytes(peer).ok()?;
    let shared = p256::ecdh::diffie_hellman(secret.to_nonzero_scalar(), peer.as_affine());
    Some(shared.raw_secret_bytes().to_vec())
}

/// ECDSA and Diffie-Hellman on P-256.
pub struct P256;

impl EccCipher for P256 {
    open spec fn private_key_len() -> nat {
        32
    }

    open spec fn signature_len() -> nat {
        64
    }

    open spec fn accepts_public_key(public_key: Seq<u8>) -> bool {
        p256_sec1_accepts(public_key)
    }

    fn generate_keypair() -> (r: Option<(Vec<u8>, Vec<u8>)>)
        ensures
            r matches Some(p) && p256_public_key(p.1@) == Some(p.0@) && p.0.len() == 33 && p.1.len()
                == 32,
    {
        let (public, private) = p256_generate_exec();
        Some((public, private))
    }

    fn sign(private_key: &[u8], message: &[u8]) -> (r: Option<Vec<u8>>)
        ensures
            private_key.len() == 32 ==> opt_bytes(r) == p256_ecdsa_sign(private_key@, blake3_hash(message@)),
            (r is Some) == (private_key.len() == 32 && (p256_public_key(private_key@) is Some)),
            r matches Some(s) ==> s.len() == 64,
    {
        if private_key.len() != 32 {
            return None;
        }
        let digest = Blake3::digest_vec(message);
        p256_sign_exec(private_key, digest.as_slice())
    }

    fn verify(public_key: &[u8], message: &[u8], signature: &[u8]) -> (r: bool)
        ensures
            signature.len() == 64 ==> r == p256_ecdsa_verify(public_key@, blake3_hash(message@), signature@),
            signature.len() != 64 ==> !r,
            !p256_sec1_accepts(public_key@) ==> !r,
            forall|secret: Seq<u8>|
                signature.len() == 64 && p256_public_key(secret) == Some(public_key@) && p256_ecdsa_sign(
                    secret,
                    blake3_hash(message@),
                ) == Some(signature@) ==> r,
    {
        if signature.len() != 64 {
            return false;
        }
        let digest = Blake3::digest_vec(message);
        p256_verify_exec(public_key, digest.as_slice(), signature)
    }

    fn ecdh(peer_public_key: &[u8]) -> (r: Option<(Vec<u8>, Vec<u8>)>)
        ensures
            r matches Some(p) ==> exists|e: Seq<u8>|
                p256_public_key(e) == Some(p.0@) && #[trigger] p256_ecdh(e, peer_public_key@) == Some(p.1@),
            r matches Some(p) ==> p.0.len() == 33 && p.1.len() == 32,
            r is None ==> forall|e: Seq<u8>| #[trigger] p256_ecdh(e, peer_public_key@) is None,
    {
        p256_ephemeral_exec(peer_public_key)
    }

    fn ecdh_with_key(private_key: &[u8], peer_public_key: &[u8]) -> (r: Option<Vec<u8>>)
        ensures
            opt_bytes(r) == p256_ecdh(private_key@, peer_public_key@),
            r matches Some(s) ==> s.len() == 32,
            forall|b: Seq<u8>|
                p256_public_key(b) == Some(peer_public_key@) && p256_public_key(private_key@) is Some ==> r is Some
                    && opt_bytes(r) == p256_ecdh(b, p256_public_key(private_key@)->0),
    {
        p256_ecdh_exec(private_key, peer_public_key)
    }

    fn ecdh_kdf_hkdf256(peer_public_key: &[u8], kdf_salt: &[u8], output_len: usize) -> (r: Option<(Vec<u8>, Vec<u8>)>)
        ensures
            r matches Some(p) ==> exists|e: Seq<u8>|
                p256_public_key(e) == Some(p.0@) && #[trigger] p256_ecdh(e, peer_public_key@) is Some
                    && p.1@ == hkdf_sha256(p256_ecdh(e, peer_public_key@)->0, kdf_salt@, output_len as nat),
            r matches Some(p) ==> p.0.len() == 33 && p.1.len() == output_len,
            (r is None) == ((forall|e: Seq<u8>| #[trigger] p256_ecdh(e, peer_public_key@) is None)
                || output_len == 0 || output_len > 255 * 32),
    {
        let (our_pub, shared_secret) = match Self::ecdh(peer_public_key) {
            Some(p) => p,
            None => return None,
        };
        let derived_key = match HkdfSha256::derive(shared_secret.as_slice(), kdf_salt, output_len) {
            Some(k) => k,
            None => return None,
        };
        Some((our_pub, derived_key))
    }
}

/// Length of a compressed secp256k1 public key.
pub const SECP256K1_PUBLIC_KEY_LEN: usize = 33;

/// Length of a secp256k1 private key.
pub const SECP256K1_PRIVATE_KEY_LEN: usize = 32;

/// Length of a secp256k1 signature.
pub const SECP256K1_SIGNATURE_LEN: usize = 64;

/// Length of a secp256k1 shared secret.
pub const SECP256K1_SHARED_LEN: usize = 32;

/// The compressed secp256k1 public key of the private key `secret`, when
/// `secret` is a valid private key (`SecretKey::from_slice` accepts it).
pub uninterp spec fn k256_public_key(secret: Seq<u8>) -> Option<Seq<u8>>;

/// The deterministic (RFC 6979) secp256k1 ECDSA signature of `msg` under
/// `secret`, when `secret` is a valid private key.
pub uninterp spec fn k256_ecdsa_sign(secret: Seq<u8>, msg: Seq<u8>) -> Option<Seq<u8>>;

/// Whether `sig` is a valid secp256k1 ECDSA signature of `msg` under the
/// SEC1-encoded public key `public`.
pub uninterp spec fn k256_ecdsa_verify(public: Seq<u8>, msg: Seq<u8>, sig: Seq<u8>) -> bool;

/// Whether `public` reads as a SEC1-encoded secp256k1 point
/// (`VerifyingKey::from_sec1_bytes` accepts it).
pub uninterp spec fn k256_sec1_accepts(public: Seq<u8>) -> bool;

/// The secp256k1 Diffie-Hellman shared secret of `secret` and the
/// SEC1-encoded point `peer`, when both decode.
pub uninterp spec fn k256_ecdh(secret: Seq<u8>, peer: Seq<u8>) -> Option<Seq<u8>>;

/// A fresh secp256k1 key pair from `SecretKey::random(&mut OsRng)`: its
/// compressed public key and its secret bytes; only that they belong
/// together is claimed.
#[verifier::external_body]
fn k256_generate_exec() -> (r: (Vec<u8>, Vec<u8>))
    ensures
        k256_public_key(r.1@) == Some(r.0@),
        r.0.len() == 33,
        r.1.len() == 32,
{
    let secret = k256::SecretKey::random(&mut OsRng);
    let public = k256::EncodedPoint::from(secret.public_key()).compress().as_bytes().to_vec();
    (public, secret.to_bytes().to_vec())
}

/// `k256::ecdsa::SigningKey::from_bytes` then `Signer::sign` (RFC 6979) and
/// `Signature::to_bytes`; it fails exactly when the private key is not
/// valid.
#[verifier::external_body]
fn k256_sign_exec(secret: &[u8], msg: &[u8]) -> (r: Option<Vec<u8>>)
    requires
        secret.len() == 32,
    ensures
        opt_bytes(r) == k256_ecdsa_sign(secret@, msg@),
        (r is Some) == (k256_public_key(secret@) is Some),
        r matches Some(s) ==> s.len() == 64,
{
    let key = k256::ecdsa::SigningKey::from_bytes(secret.into()).ok()?;
    let sig: k256::ecdsa::Signature = key.sign(msg);
    Some(sig.to_bytes().to_vec())
}

/// `k256::ecdsa::VerifyingKey::from_sec1_bytes`, `Signature::from_bytes` and
/// `Verifier::verify`; a key that does not read is refused first (reading a
/// signature of the wrong length panics, so that only happens with a key
/// that does not read); a signature made with the private key of the public
/// key verifies.
#[verifier::external_body]
fn k256_verify_exec(public: &[u8], msg: &[u8], sig: &[u8]) -> (r: bool)
    requires
        sig.len() == 64 || !k256_sec1_accepts(public@),
    ensures
        r == k256_ecdsa_verify(public@, msg@, sig@),
        !k256_sec1_accepts(public@) ==> !r,
        forall|secret: Seq<u8>|
            k256_public_key(secret) == Some(public@) && k256_ecdsa_sign(secret, msg@) == Some(sig@) ==> r,
{
    let key = match k256::ecdsa::VerifyingKey::from_sec1_bytes(public) {
        Ok(k) => k,
        Err(_) => return false,
    };
    let sig = match k256::ecdsa::Signature::from_bytes(sig.into()) {
        Ok(s) => s,
        Err(_) => return false,
    };
    key.verify(msg, &sig).is_ok()
}

/// `k256::PublicKey::from_sec1_bytes`, then a fresh `ecdh::EphemeralSecret`
/// from `OsRng` and its `diffie_hellman`: the compressed ephemeral public
/// key and the raw shared secret, which is what the ephemeral private key
/// agrees with the peer; `None` exactly when the peer's key does not decode.
#[verifier::external_body]
fn k256_ephemeral_exec(peer: &[u8]) -> (r: Option<(Vec<u8>, Vec<u8>)>)
    ensures
        r matches Some(p) ==> exists|e: Seq<u8>|
            k256_public_key(e) == Some(p.0@) && #[trigger] k256_ecdh(e, peer@) == Some(p.1@),
        r matches Some(p) ==> p.0.len() == 33 && p.1.len() == 32,
        r is None ==> forall|e: Seq<u8>| #[trigger] k256_ecdh(e, peer@) is None,
{
    let peer = k256::PublicKey::from_sec1_bytes(peer).ok()?;
    let ephemeral = k256::ecdh::EphemeralSecret::random(&mut OsRng);
    let public = k256::EncodedPoint::from(ephemeral.public_key()).compress().as_bytes().to_vec();
    Some((public, ephemeral.diffie_hellman(&peer).raw_secret_bytes().to_vec()))
}

/// `k256::SecretKey::from_slice`, `k256::PublicKey::from_sec1_bytes` and
/// `ecdh::diffie_hellman`: the raw shared secret; two valid key pairs agree
/// on the same secret.
#[verifier::external_body]
fn k256_ecdh_exec(secret: &[u8], peer: &[u8]) -> (r: Option<Vec<u8>>)
    ensures
        opt_bytes(r) == k256_ecdh(secret@, peer@),
        r matches Some(s) ==> s.len() == 32,
        forall|b: Seq<u8>|
            k256_public_key(b) == Some(peer@) && k256_public_key(secret@) is Some ==> r is Some
                && opt_bytes(r) == k256_ecdh(b, k256_public_key(secret@)->0),
{
    let secret = k256::SecretKey::from_slice(secret).ok()?;
    let peer = k256::PublicKey::from_sec1_bytes(peer).ok()?;
    let shared = k256::ecdh::diffie_hellman(secret.to_nonzero_scalar(), peer.as_affine());
    Some(shared.raw_secret_bytes().to_vec())
}

/// ECDSA and Diffie-Hellman on secp256k1.
pub struct Secp256k1;

impl EccCipher for Secp256k1 {
    open spec fn private_key_len() -> nat {
        32
    }

    open spec fn signature_len() -> nat {
        64
    }

    open spec fn accepts_public_key(public_key: Seq<u8>) -> bool {
        k256_sec1_accepts(public_key)
    }

    fn generate_keypair() -> (r: Option<(Vec<u8>, Vec<u8>)>)
        ensures
            r matches Some(p) && k256_public_key(p.1@) == Some(p.0@) && p.0.len() == 33 && p.1.len()
                == 32,
    {
        let (public, private) = k256_generate_exec();
        Some((public, private))
    }

    fn sign(private_key: &[u8], message: &[u8]) -> (r: Option<Vec<u8>>)
        ensures
            private_key.len() == 32 ==> opt_bytes(r) == k256_ecdsa_sign(private_key@, blake3_hash(message@)),
            (r is Some) == (private_key.len() == 32 && (k256_public_key(private_key@) is Some)),
            r matches Some(s) ==> s.len() == 64,
    {
        if private_key.len() != 32 {
            return None;
        }
        let digest = Blake3::digest_vec(message);
        k256_sign_exec(private_key, digest.as_slice())
    }

    fn verify(public_key: &[u8], message: &[u8], signature: &[u8]) -> (r: bool)
        ensures
            signature.len() == 64 ==> r == k256_ecdsa_verify(public_key@, blake3_hash(message@), signature@),
            signature.len() != 64 ==> !r,
            !k256_sec1_accepts(public_key@) ==> !r,
            forall|secret: Seq<u8>|
                signature.len() == 64 && k256_public_key(secret) == Some(public_key@) && k256_ecdsa_sign(
                    secret,
                    blake3_hash(message@),
                ) == Some(signature@) ==> r,
    {
        if signature.len() != 64 {
            return false;
        }
        let digest = Blake3::digest_vec(message);
        k256_verify_exec(public_key, digest.as_slice(), signature)
    }

    fn ecdh(peer_public_key: &[u8]) -> (r: Option<(Vec<u8>, Vec<u8>)>)
        ensures
            r matches Some(p) ==> exists|e: Seq<u8>|
                k256_public_key(e) == Some(p.0@) && #[trigger] k256_ecdh(e, peer_public_key@) == Some(p.1@),
            r matches Some(p) ==> p.0.len() == 33 && p.1.len() == 32,
            r is None ==> forall|e: Seq<u8>| #[trigger] k256_ecdh(e, peer_public_key@) is None,
    {
        k256_ephemeral_exec(peer_public_key)
    }

    fn ecdh_with_key(private_key: &[u8], peer_public_key: &[u8]) -> (r: Option<Vec<u8>>)
        ensures
            opt_bytes(r) == k256_ecdh(private_key@, peer_public_key@),
            r matches Some(s) ==> s.len() == 32,
            forall|b: Seq<u8>|
                k256_public_key(b) == Some(peer_public_key@) && k256_public_key(private_key@) is Some ==> r is Some
                    && opt_bytes(r) == k256_ecdh(b, k256_public_key(private_key@)->0),
    {
        k256_ecdh_exec(private_key, peer_public_key)
    }

    fn ecdh_kdf_hkdf256(peer_public_key: &[u8], kdf_salt: &[u8], output_len: usize) -> (r: Option<(Vec<u8>, Vec<u8>)>)
        ensures
            r matches Some(p) ==> exists|e: Seq<u8>|
                k256_public_key(e) == Some(p.0@) && #[trigger] k256_ecdh(e, peer_public_key@) is Some
                    && p.1@ == hkdf_sha256(k256_ecdh(e, peer_public_key@)->0, kdf_salt@, output_len as nat),
            r matches Some(p) ==> p.0.len() == 33 && p.1.len() == output_len,
            (r is None) == ((forall|e: Seq<u8>| #[trigger] k256_ecdh(e, peer_public_key@) is None)
                || output_len == 0 || output_len > 255 * 32),
    {
        let (our_pub, shared_secret) = match Self::ecdh(peer_public_key) {
            Some(p) => p,
            None => return None,
        };
        let derived_key = match HkdfSha256::derive(shared_secret.as_slice(), kdf_salt, output_len) {
            Some(k) => k,
            None => return None,
        };
        Some((our_pub, derived_key))
    }
}

/// Length of a compressed P-384 public key.
pub const P384_PUBLIC_KEY_LEN: usize = 49;

/// Length of a P-384 private key.
pub const P384_PRIVATE_KEY_LEN: usize = 48;

/// Length of a P-384 signature.
pub const P384_SIGNATURE_LEN: usize = 96;

/// Length of a P-384 shared secret.
pub const P384_SHARED_LEN: usize = 48;

/// The compressed P-384 public key of the private key `secret`, when
/// `secret` is a valid private key (`SecretKey::from_slice` accepts it).
pub uninterp spec fn p384_public_key(secret: Seq<u8>) -> Option<Seq<u8>>;

/// The deterministic (RFC 6979) P-384 ECDSA signature of `msg` under
/// `secret`, when `secret` is a valid private key.
pub uninterp spec fn p384_ecdsa_sign(secret: Seq<u8>, msg: Seq<u8>) -> Option<Seq<u8>>;

/// Whether `sig` is a valid P-384 ECDSA signature of `msg` under the
/// SEC1-encoded public key `public`.
pub uninterp spec fn p384_ecdsa_verify(public: Seq<u8>, msg: Seq<u8>, sig: Seq<u8>) -> bool;

/// Whether `public` reads as a SEC1-encoded P-384 point
/// (`VerifyingKey::from_sec1_bytes` accepts it).
pub uninterp spec fn p384_sec1_accepts(public: Seq<u8>) -> bool;

/// The P-384 Diffie-Hellman shared secret of `secret` and the
/// SEC1-encoded point `peer`, when both decode.
pub uninterp spec fn p384_ecdh(secret: Seq<u8>, peer: Seq<u8>) -> Option<Seq<u8>>;

/// A fresh P-384 key pair from `SecretKey::random(&mut OsRng)`: its
/// compressed public key and its secret bytes; only that they belong
/// together is claimed.
#[verifier::external_body]
fn p384_generate_exec() -> (r: (Vec<u8>, Vec<u8>))
    ensures
        p384_public_key(r.1@) == Some(r.0@),
        r.0.len() == 49,
        r.1.len() == 48,
{
    let secret = p384::SecretKey::random(&mut OsRng);
    let public = p384::EncodedPoint::from(secret.public_key()).compress().as_bytes().to_vec();
    (public, secret.to_bytes().to_vec())
}

/// `p384::ecdsa::SigningKey::from_bytes` then `Signer::sign` (RFC 6979) and
/// `Signature::to_bytes`; it fails exactly when the private key is not
/// valid.
#[verifier::external_body]
fn p384_sign_exec(secret: &[u8], msg: &[u8]) -> (r: Option<Vec<u8>>)
    requires
        secret.len() == 48,
    ensures
        opt_bytes(r) == p384_ecdsa_sign(secret@, msg@),
        (r is Some) == (p384_public_key(secret@) is Some),
        r matches Some(s) ==> s.len() == 96,
{
    let key = p384::ecdsa::SigningKey::from_bytes(secret.into()).ok()?;
    let sig: p384::ecdsa::Signature = key.sign(msg);
    Some(sig.to_bytes().to_vec())
}

/// `p384::ecdsa::VerifyingKey::from_sec1_bytes`, `Signature::from_bytes` and
/// `Verifier::verify`; a key that does not read is refused first (reading a
/// signature of the wrong length panics, so that only happens with a key
/// that does not read); a signature made with the private key of the public
/// key verifies.
#[verifier::external_body]
fn p384_verify_exec(public: &[u8], msg: &[u8], sig: &[u8]) -> (r: bool)
    requires
        sig.len() == 96 || !p384_sec1_accepts(public@),
    ensures
        r == p384_ecdsa_verify(public@, msg@, sig@),
        !p384_sec1_accepts(public@) ==> !r,
        forall|secret: Seq<u8>|
            p384_public_key(secret) == Some(public@) && p384_ecdsa_sign(secret, msg@) == Some(sig@) ==> r,
{
    let key = match p384::ecdsa::VerifyingKey::from_sec1_bytes(public) {
        Ok(k) => k,
        Err(_) => return false,
    };
    let sig = match p384::ecdsa::Signature::from_bytes(sig.into()) {
        Ok(s) => s,
        Err(_) => return false,
    };
    key.verify(msg, &sig).is_ok()
}

/// `p384::PublicKey::from_sec1_bytes`, then a fresh `ecdh::EphemeralSecret`
/// from `OsRng` and its `diffie_hellman`: the compressed ephemeral public
/// key and the raw shared secret, which is what the ephemeral private key
/// agrees with the peer; `None` exactly when the peer's key does not decode.
#[verifier::external_body]
fn p384_ephemeral_exec(peer: &[u8]) -> (r: Option<(Vec<u8>, Vec<u8>)>)
    ensures
        r matches Some(p) ==> exists|e: Seq<u8>|
            p384_public_key(e) == Some(p.0@) && #[trigger] p384_ecdh(e, peer@) == Some(p.1@),
        r matches Some(p) ==> p.0.len() == 49 && p.1.len() == 48,
        r is None ==> forall|e: Seq<u8>| #[trigger] p384_ecdh(e, peer@) is None,
{
    let peer = p384::PublicKey::from_sec1_bytes(peer).ok()?;
    let ephemeral = p384::ecdh::EphemeralSecret::random(&mut OsRng);
    let public = p384::EncodedPoint::from(ephemeral.public_key()).compress().as_bytes().to_vec();
    Some((public, ephemeral.diffie_hellman(&peer).raw_secret_bytes().to_vec()))
}

/// `p384::SecretKey::from_slice`, `p384::PublicKey::from_sec1_bytes` and
/// `ecdh::diffie_hellman`: the raw shared secret; two valid key pairs agree
/// on the same secret.
#[verifier::external_body]
fn p384_ecdh_exec(secret: &[u8], peer: &[u8]) -> (r: Option<Vec<u8>>)
    ensures
        opt_bytes(r) == p384_ecdh(secret@, peer@),
        r matches Some(s) ==> s.len() == 48,
        forall|b: Seq<u8>|
            p384_public_key(b) == Some(peer@) && p384_public_key(secret@) is Some ==> r is Some
                && opt_bytes(r) == p384_ecdh(b, p384_public_key(secret@)->0),
{
    let secret = p384::SecretKey::from_slice(secret).ok()?;
    let peer = p384::PublicKey::from_sec1_bytes(peer).ok()?;
    let shared = p384::ecdh::diffie_hellman(secret.to_nonzero_scalar(), peer.as_affine());
    Some(shared.raw_secret_bytes().to_vec())
}

/// ECDSA and Diffie-Hellman on P-384.
pub struct P384;

impl EccCipher for P384 {
    open spec fn private_key_len() -> nat {
        48
    }

    open spec fn signature_len() -> nat {
        96
    }

    open spec fn accepts_public_key(public_key: Seq<u8>) -> bool {
        p384_sec1_accepts(public_key)
    }

    fn generate_keypair() -> (r: Option<(Vec<u8>, Vec<u8>)>)
        ensures
            r matches Some(p) && p384_public_key(p.1@) == Some(p.0@) && p.0.len() == 49 && p.1.len()
                == 48,
    {
        let (public, private) = p384_generate_exec();
        Some((public, private))
    }

    fn sign(private_key: &[u8], message: &[u8]) -> (r: Option<Vec<u8>>)
        ensures
            private_key.len() == 48 ==> opt_bytes(r) == p384_ecdsa_sign(private_key@, blake3_hash(message@)),
            (r is Some) == (private_key.len() == 48 && (p384_public_key(private_key@) is Some)),
            r matches Some(s) ==> s.len() == 96,
    {
        if private_key.len() != 48 {
            return None;
        }
        let digest = Blake3::digest_vec(message);
        p384_sign_exec(private_key, digest.as_slice())
    }

    fn verify(public_key: &[u8], message: &[u8], signature: &[u8]) -> (r: bool)
        ensures
            signature.len() == 96 ==> r == p384_ecdsa_verify(public_key@, blake3_hash(message@), signature@),
            signature.len() != 96 ==> !r,
            !p384_sec1_accepts(public_key@) ==> !r,
            forall|secret: Seq<u8>|
                signature.len() == 96 && p384_public_key(secret) == Some(public_key@) && p384_ecdsa_sign(
                    secret,
                    blake3_hash(message@),
                ) == Some(signature@) ==> r,
    {
        if signature.len() != 96 {
            return false;
        }
        let digest = Blake3::digest_vec(message);
        p384_verify_exec(public_key, digest.as_slice(), signature)
    }

    fn ecdh(peer_public_key: &[u8]) -> (r: Option<(Vec<u8>, Vec<u8>)>)
        ensures
            r matches Some(p) ==> exists|e: Seq<u8>|
                p384_public_key(e) == Some(p.0@) && #[trigger] p384_ecdh(e, peer_public_key@) == Some(p.1@),
            r matches Some(p) ==> p.0.len() == 49 && p.1.len() == 48,
            r is None ==> forall|e: Seq<u8>| #[trigger] p384_ecdh(e, peer_public_key@) is None,
    {
        p384_ephemeral_exec(peer_public_key)
    }

    fn ecdh_with_key(private_key: &[u8], peer_public_key: &[u8]) -> (r: Option<Vec<u8>>)
        ensures
            opt_bytes(r) == p384_ecdh(private_key@, peer_public_key@),
            r matches Some(s) ==> s.len() == 48,
            forall|b: Seq<u8>|
                p384_public_key(b) == Some(peer_public_key@) && p384_public_key(private_key@) is Some ==> r is Some
                    && opt_bytes(r) == p384_ecdh(b, p384_public_key(private_key@)->0),
    {
        p384_ecdh_exec(private_key, peer_public_key)
    }

    fn ecdh_kdf_hkdf256(peer_public_key: &[u8], kdf_salt: &[u8], output_len: usize) -> (r: Option<(Vec<u8>, Vec<u8>)>)
        ensures
            r matches Some(p) ==> exists|e: Seq<u8>|
                p384_public_key(e) == Some(p.0@) && #[trigger] p384_ecdh(e, peer_public_key@) is Some
                    && p.1@ == hkdf_sha256(p384_ecdh(e, peer_public_key@)->0, kdf_salt@, output_len as nat),
            r matches Some(p) ==> p.0.len() == 49 && p.1.len() == output_len,
            (r is None) == ((forall|e: Seq<u8>| #[trigger] p384_ecdh(e, peer_public_key@) is None)
                || output_len == 0 || output_len > 255 * 32),
    {
        let (our_pub, shared_secret) = match Self::ecdh(peer_public_key) {
            Some(p) => p,
            None => return None,
        };
        let derived_key = match HkdfSha256::derive(shared_secret.as_slice(), kdf_salt, output_len) {
            Some(k) => k,
            None => return None,
        };
        Some((our_pub, derived_key))
    }
}

} // verus!
