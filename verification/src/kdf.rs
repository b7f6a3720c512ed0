//! Key derivation functions behind one interface.
//!
//! PBKDF2 (RFC 8018), Argon2 (RFC 9106), scrypt (RFC 7914) and HKDF
//! (RFC 5869), each with fixed cost parameters.
use vstd::prelude::*;
use argon2::{Argon2, ParamsBuilder, Version};
use hkdf::Hkdf;

verus! {

/// Derives a key of a requested length from a password and a salt.
pub trait Kdf {
    /// The derived key, `output_len` bytes long; `None` when an argument is
    /// refused.
    fn derive(password: &[u8], salt: &[u8], output_len: usize) -> Option<Vec<u8>>;
}

/// PBKDF2-HMAC-SHA256 of `password` and `salt` with `rounds` iterations,
/// `len` bytes long.
pub uninterp spec fn pbkdf2_hmac_sha256(password: Seq<u8>, salt: Seq<u8>, rounds: u32, len: nat) -> Seq<u8>;

/// PBKDF2-HMAC-SHA512 of `password` and `salt` with `rounds` iterations,
/// `len` bytes long.
pub uninterp spec fn pbkdf2_hmac_sha512(password: Seq<u8>, salt: Seq<u8>, rounds: u32, len: nat) -> Seq<u8>;

/// Argon2id (version 0x13) of `password` and `salt` with memory `m_cost`
/// KiB, `t_cost` passes and `p_cost` lanes, `len` bytes long.
pub uninterp spec fn argon2id_hash(password: Seq<u8>, salt: Seq<u8>, m_cost: u32, t_cost: u32, p_cost: u32, len: nat) -> Seq<u8>;

/// Argon2i (version 0x13) of `password` and `salt` with memory `m_cost`
/// KiB, `t_cost` passes and `p_cost` lanes, `len` bytes long.
pub uninterp spec fn argon2i_hash(password: Seq<u8>, salt: Seq<u8>, m_cost: u32, t_cost: u32, p_cost: u32, len: nat) -> Seq<u8>;

/// scrypt of `password` and `salt` with N = 2^`log_n`, block size `r` and
/// parallelism `p`, `len` bytes long.
pub uninterp spec fn scrypt_hash(password: Seq<u8>, salt: Seq<u8>, log_n: u8, r: u32, p: u32, len: nat) -> Seq<u8>;

/// HKDF-SHA256 of input key material `ikm` with `salt` and empty info,
/// `len` bytes long.
pub uninterp spec fn hkdf_sha256(ikm: Seq<u8>, salt: Seq<u8>, len: nat) -> Seq<u8>;

/// HKDF-SHA512 of input key material `ikm` with `salt` and empty info,
/// `len` bytes long.
pub uninterp spec fn hkdf_sha512(ikm: Seq<u8>, salt: Seq<u8>, len: nat) -> Seq<u8>;

/// `pbkdf2::pbkdf2_hmac::<sha2::Sha256>` into a fresh buffer of
/// `output_len` bytes; it never fails.
#[verifier::external_body]
fn pbkdf2_sha256_exec(password: &[u8], salt: &[u8], rounds: u32, output_len: usize) -> (r: Vec<u8>)
    ensures
        r@ == pbkdf2_hmac_sha256(password@, salt@, rounds, output_len as nat),
        r.len() == output_len,
{
    let mut output = vec![0u8; output_len];
    pbkdf2::pbkdf2_hmac::<sha2::Sha256>(password, salt, rounds, &mut output);
    output
}

/// `pbkdf2::pbkdf2_hmac::<sha2::Sha512>` into a fresh buffer of
/// `output_len` bytes; it never fails.
#[verifier::external_body]
fn pbkdf2_sha512_exec(password: &[u8], salt: &[u8], rounds: u32, output_len: usize) -> (r: Vec<u8>)
    ensures
        r@ == pbkdf2_hmac_sha512(password@, salt@, rounds, output_len as nat),
        r.len() == output_len,
{
    let mut output = vec![0u8; output_len];
    pbkdf2::pbkdf2_hmac::<sha2::Sha512>(password, salt, rounds, &mut output);
    output
}

/// Whether `argon2` accepts an output length, a salt and a password:
/// output 4 to 2^32 - 1 bytes, salt 8 to 2^32 - 1 bytes, password at most
/// 2^32 - 1 bytes.
pub open spec fn argon2_accepts(password_len: nat, salt_len: nat, len: nat) -> bool {
    4 <= len <= 0xFFFF_FFFF && 8 <= salt_len <= 0xFFFF_FFFF && password_len <= 0xFFFF_FFFF
}

/// `argon2::Argon2::hash_password_into` with algorithm Argon2id, version
/// 0x13 and the given costs (parameters built by `ParamsBuilder` with the
/// output length): succeeds exactly when the lengths are accepted.
#[verifier::external_body]
fn argon2id_exec(password: &[u8], salt: &[u8], m_cost: u32, t_cost: u32, p_cost: u32, output_len: usize) -> (r: Option<Vec<u8>>)
    requires
        1 <= p_cost <= 0xFF_FFFF,
        m_cost >= 8 * p_cost,
        t_cost >= 1,
    ensures
        (r is Some) == argon2_accepts(password.len() as nat, salt.len() as nat, output_len as nat),
        r matches Some(o) ==> o@ == argon2id_hash(password@, salt@, m_cost, t_cost, p_cost, output_len as nat)
            && o.len() == output_len,
{
    let params = ParamsBuilder::new().m_cost(m_cost).t_cost(t_cost).p_cost(p_cost).output_len(output_len).build().ok()?;
    let argon2 = Argon2::new(argon2::Algorithm::Argon2id, Version::V0x13, params);
    let mut output = vec![0u8; output_len];
    argon2.hash_password_into(password, salt, &mut output).ok()?;
    Some(output)
}

/// `argon2::Argon2::hash_password_into` with algorithm Argon2i, version
/// 0x13 and the given costs (parameters built by `ParamsBuilder` with the
/// output length): succeeds exactly when the lengths are accepted.
#[verifier::external_body]
fn argon2i_exec(password: &[u8], salt: &[u8], m_cost: u32, t_cost: u32, p_cost: u32, output_len: usize) -> (r: Option<Vec<u8>>)
    requires
        1 <= p_cost <= 0xFF_FFFF,
        m_cost >= 8 * p_cost,
        t_cost >= 1,
    ensures
        (r is Some) == argon2_accepts(password.len() as nat, salt.len() as nat, output_len as nat),
        r matches Some(o) ==> o@ == argon2i_hash(password@, salt@, m_cost, t_cost, p_cost, output_len as nat)
            && o.len() == output_len,
{
    let params = ParamsBuilder::new().m_cost(m_cost).t_cost(t_cost).p_cost(p_cost).output_len(output_len).build().ok()?;
    let argon2 = Argon2::new(argon2::Algorithm::Argon2i, Version::V0x13, params);
    let mut output = vec![0u8; output_len];
    argon2.hash_password_into(password, salt, &mut output).ok()?;
    Some(output)
}

/// `scrypt::scrypt` with parameters from `scrypt::Params::new(log_n, r, p,
/// output_len)`: the parameters are refused unless the output is 10 to 64
/// bytes long (the other conditions hold for the costs admitted here).
#[verifier::external_body]
fn scrypt_exec(password: &[u8], salt: &[u8], log_n: u8, r: u32, p: u32, output_len: usize) -> (res: Option<Vec<u8>>)
    requires
        1 <= log_n <= 20,
        r == 8,
        p == 1,
    ensures
        (res is Some) == (10 <= output_len <= 64),
        res matches Some(o) ==> o@ == scrypt_hash(password@, salt@, log_n, r, p, output_len as nat)
            && o.len() == output_len,
{
    let params = scrypt::Params::new(log_n, r, p, output_len).ok()?;
    let mut output = vec![0u8; output_len];
    scrypt::scrypt(password, salt, &params, &mut output).ok()?;
    Some(output)
}

/// `hkdf::Hkdf::<sha2::Sha256>::new(Some(salt), ikm).expand(&[], ..)`:
/// fails exactly when more than 255 * 32 bytes are asked for.
#[verifier::external_body]
fn hkdf_sha256_exec(ikm: &[u8], salt: &[u8], output_len: usize) -> (r: Option<Vec<u8>>)
    ensures
        (r is Some) == (output_len <= 255 * 32),
        r matches Some(o) ==> o@ == hkdf_sha256(ikm@, salt@, output_len as nat) && o.len() == output_len,
{
    let hk = Hkdf::<sha2::Sha256>::new(Some(salt), ikm);
    let mut okm = vec![0u8; output_len];
    hk.expand(&[], &mut okm).ok()?;
    Some(okm)
}

/// `hkdf::Hkdf::<sha2::Sha512>::new(Some(salt), ikm).expand(&[], ..)`:
/// fails exactly when more than 255 * 64 bytes are asked for.
#[verifier::external_body]
fn hkdf_sha512_exec(ikm: &[u8], salt: &[u8], output_len: usize) -> (r: Option<Vec<u8>>)
    ensures
        (r is Some) == (output_len <= 255 * 64),
        r matches Some(o) ==> o@ == hkdf_sha512(ikm@, salt@, output_len as nat) && o.len() == output_len,
{
    let hk = Hkdf::<sha2::Sha512>::new(Some(salt), ikm);
    let mut okm = vec![0u8; output_len];
    hk.expand(&[], &mut okm).ok()?;
    Some(okm)
}

/// PBKDF2-HMAC-SHA256 with 100,000 iterations.
pub struct Pbkdf2HmacSha256;

impl Kdf for Pbkdf2HmacSha256 {
    fn derive(password: &[u8], salt: &[u8], output_len: usize) -> (r: Option<Vec<u8>>)
        ensures
            (r is Some) == (password.len() > 0 && salt.len() > 0 && output_len > 0),
            r matches Some(o) ==> o@ == pbkdf2_hmac_sha256(password@, salt@, 100_000, output_len as nat)
                && o.len() == output_len,
    {
        if password.len() == 0 || salt.len() == 0 || output_len == 0 {
            return None;
        }
        Some(pbkdf2_sha256_exec(password, salt, 100_000, output_len))
    }
}

/// PBKDF2-HMAC-SHA256 with 600,000 iterations.
pub struct Pbkdf2HmacSha256High;

impl Kdf for Pbkdf2HmacSha256High {
    fn derive(password: &[u8], salt: &[u8], output_len: usize) -> (r: Option<Vec<u8>>)
        ensures
            (r is Some) == (password.len() > 0 && salt.len() > 0 && output_len > 0),
            r matches Some(o) ==> o@ == pbkdf2_hmac_sha256(password@, salt@, 600_000, output_len as nat)
                && o.len() == output_len,
    {
        if password.len() == 0 || salt.len() == 0 || output_len == 0 {
            return None;
        }
        Some(pbkdf2_sha256_exec(password, salt, 600_000, output_len))
    }
}

/// PBKDF2-HMAC-SHA512 with 210,000 iterations.
pub struct Pbkdf2HmacSha512;

impl Kdf for Pbkdf2HmacSha512 {
    fn derive(password: &[u8], salt: &[u8], output_len: usize) -> (r: Option<Vec<u8>>)
        ensures
            (r is Some) == (password.len() > 0 && salt.len() > 0 && output_len > 0),
            r matches Some(o) ==> o@ == pbkdf2_hmac_sha512(password@, salt@, 210_000, output_len as nat)
                && o.len() == output_len,
    {
        if password.len() == 0 || salt.len() == 0 || output_len == 0 {
            return None;
        }
        Some(pbkdf2_sha512_exec(password, salt, 210_000, output_len))
    }
}

/// Argon2id with 19 MiB of memory, 2 passes, 1 lane.
pub struct Argon2idDefault;

impl Kdf for Argon2idDefault {
    fn derive(password: &[u8], salt: &[u8], output_len: usize) -> (r: Option<Vec<u8>>)
        ensures
            (r is Some) == (password.len() > 0 && output_len > 0 && argon2_accepts(
                password.len() as nat,
                salt.len() as nat,
                output_len as nat,
            )),
            r matches Some(o) ==> o@ == argon2id_hash(password@, salt@, 19456, 2, 1, output_len as nat)
                && o.len() == output_len,
    {
        if password.len() == 0 || salt.len() < 8 || output_len == 0 {
            return None;
        }
        argon2id_exec(password, salt, 19456, 2, 1, output_len)
    }
}

/// Argon2id with 256 MiB of memory, 3 passes, 4 lanes.
pub struct Argon2idHigh;

impl Kdf for Argon2idHigh {
    fn derive(password: &[u8], salt: &[u8], output_len: usize) -> (r: Option<Vec<u8>>)
        ensures
            (r is Some) == (password.len() > 0 && output_len > 0 && argon2_accepts(
                password.len() as nat,
                salt.len() as nat,
                output_len as nat,
            )),
            r matches Some(o) ==> o@ == argon2id_hash(password@, salt@, 262144, 3, 4, output_len as nat)
                && o.len() == output_len,
    {
        if password.len() == 0 || salt.len() < 8 || output_len == 0 {
            return None;
        }
        argon2id_exec(password, salt, 262144, 3, 4, output_len)
    }
}

/// Argon2i with 64 MiB of memory, 3 passes, 1 lane.
pub struct Argon2i;

impl Kdf for Argon2i {
    fn derive(password: &[u8], salt: &[u8], output_len: usize) -> (r: Option<Vec<u8>>)
        ensures
            (r is Some) == (password.len() > 0 && output_len > 0 && argon2_accepts(
                password.len() as nat,
                salt.len() as nat,
                output_len as nat,
            )),
            r matches Some(o) ==> o@ == argon2i_hash(password@, salt@, 65536, 3, 1, output_len as nat)
                && o.len() == output_len,
    {
        if password.len() == 0 || salt.len() < 8 || output_len == 0 {
            return None;
        }
        argon2i_exec(password, salt, 65536, 3, 1, output_len)
    }
}

/// scrypt with N = 2^15 (32 MiB of memory), r = 8, p = 1.
pub struct ScryptDefault;

impl Kdf for ScryptDefault {
    fn derive(password: &[u8], salt: &[u8], output_len: usize) -> (r: Option<Vec<u8>>)
        ensures
            (r is Some) == (password.len() > 0 && salt.len() > 0 && 10 <= output_len <= 64),
            r matches Some(o) ==> o@ == scrypt_hash(password@, salt@, 15, 8, 1, output_len as nat)
                && o.len() == output_len,
    {
        if password.len() == 0 || salt.len() == 0 || output_len == 0 {
            return None;
        }
        scrypt_exec(password, salt, 15, 8, 1, output_len)
    }
}

/// scrypt with N = 2^17 (128 MiB of memory), r = 8, p = 1.
pub struct ScryptHigh;

impl Kdf for ScryptHigh {
    fn derive(password: &[u8], salt: &[u8], output_len: usize) -> (r: Option<Vec<u8>>)
        ensures
            (r is Some) == (password.len() > 0 && salt.len() > 0 && 10 <= output_len <= 64),
            r matches Some(o) ==> o@ == scrypt_hash(password@, salt@, 17, 8, 1, output_len as nat)
                && o.len() == output_len,
    {
        if password.len() == 0 || salt.len() == 0 || output_len == 0 {
            return None;
        }
        scrypt_exec(password, salt, 17, 8, 1, output_len)
    }
}

/// HKDF-SHA256 (fast expansion of high-entropy key material).
pub struct HkdfSha256;

impl Kdf for HkdfSha256 {
    /// `password` is the input key material; an empty salt is allowed.
    fn derive(password: &[u8], salt: &[u8], output_len: usize) -> (r: Option<Vec<u8>>)
        ensures
            (r is Some) == (password.len() > 0 && 0 < output_len <= 255 * 32),
            r matches Some(o) ==> o@ == hkdf_sha256(password@, salt@, output_len as nat) && o.len() == output_len,
    {
        if password.len() == 0 || output_len == 0 {
            return None;
        }
        hkdf_sha256_exec(password, salt, output_len)
    }
}

/// HKDF-SHA512.
pub struct HkdfSha512;

impl Kdf for HkdfSha512 {
    /// `password` is the input key material; an empty salt is allowed.
    fn derive(password: &[u8], salt: &[u8], output_len: usize) -> (r: Option<Vec<u8>>)
        ensures
            (r is Some) == (password.len() > 0 && 0 < output_len <= 255 * 64),
            r matches Some(o) ==> o@ == hkdf_sha512(password@, salt@, output_len as nat) && o.len() == output_len,
    {
        if password.len() == 0 || output_len == 0 {
            return None;
        }
        hkdf_sha512_exec(password, salt, output_len)
    }
}

} // verus!
