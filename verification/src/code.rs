//! Activation codes: a fixed-size description of what a code grants, sealed
//! with AES-GCM and written as basE91 text.
use vstd::prelude::*;
use crate::aes::{
    Aes128Gcm, Aes256Gcm, Cipher, aes128gcm_decrypt_spec, aes256gcm_decrypt_spec,
    is_aes128gcm_encryption, is_aes256gcm_encryption, GCM_MAX_PLAINTEXT,
};
use crate::base::{Base91, ascii_chars, encode_spec, decode_spec};
use crate::base_roundtrip::lemma_decode_text;
use vstd::utf8::encode_utf8;
use crate::bytes::opt_bytes;
use vstd::string::StringSliceAdditionalSpecFns;
use aes_gcm::aead::rand_core::RngCore;
use crate::bytes::{
    u64_be, u32_be, u16_be, u64_from_be, u32_from_be, u16_from_be, lemma_u64_be_roundtrip,
    lemma_u32_be_roundtrip, lemma_u16_be_roundtrip, lemma_u64_from_be_roundtrip,
    lemma_u32_from_be_roundtrip, lemma_u16_from_be_roundtrip,
};

verus! {

/// Length of the plaintext description (without the version byte):
/// 8 + 4 + 4 + 2 + 4 + 4 = 26.
pub const PLAINTEXT_LEN: usize = 26;

/// Version byte of codes of the first kind.
pub const CODE_VERSION_V1: u8 = 1;

/// Version byte of codes of the second kind.
pub const CODE_VERSION_V2: u8 = 2;

/// What an activation code grants.
#[derive(Debug, Clone, Copy, PartialEq, Eq, Structural)]
pub struct CodeDesc {
    /// When the code was generated (seconds since the Unix epoch).
    pub gen_ts: u64,
    /// How long the code stays valid after generation (seconds).
    pub code_valid_duration: u32,
    /// How long the product may be used after activation (seconds).
    pub use_max_duration: u32,
    /// How many times the code may be used.
    pub max_uses: u16,
    /// Product id.
    pub product_id: u32,
    /// Pre-bound data (0 means not bound).
    pub prebind: u32,
}

/// The plaintext description of `d`: its fields in order, each big-endian.
pub open spec fn desc_bytes(d: CodeDesc) -> Seq<u8> {
    u64_be(d.gen_ts) + u32_be(d.code_valid_duration) + u32_be(d.use_max_duration) + u16_be(
        d.max_uses,
    ) + u32_be(d.product_id) + u32_be(d.prebind)
}

/// The description that 26 plaintext bytes stand for.
pub open spec fn desc_from_bytes(b: Seq<u8>) -> CodeDesc {
    CodeDesc {
        gen_ts: u64_from_be(b.subrange(0, 8)),
        code_valid_duration: u32_from_be(b.subrange(8, 12)),
        use_max_duration: u32_from_be(b.subrange(12, 16)),
        max_uses: u16_from_be(b.subrange(16, 18)),
        product_id: u32_from_be(b.subrange(18, 22)),
        prebind: u32_from_be(b.subrange(22, 26)),
    }
}

impl CodeDesc {
    /// Serializes the description (big-endian).
    pub fn to_plaintext_bytes(&self) -> (out: [u8; PLAINTEXT_LEN])
        ensures
            out@ == desc_bytes(*self),
    {
        let g = self.gen_ts;
        let c = self.code_valid_duration;
        let u = self.use_max_duration;
        let m = self.max_uses;
        let p = self.product_id;
        let b = self.prebind;
        let out: [u8; PLAINTEXT_LEN] = [
            (g >> 56u64) as u8, (g >> 48u64) as u8, (g >> 40u64) as u8, (g >> 32u64) as u8,
            (g >> 24u64) as u8, (g >> 16u64) as u8, (g >> 8u64) as u8, g as u8,
            (c >> 24u32) as u8, (c >> 16u32) as u8, (c >> 8u32) as u8, c as u8,
            (u >> 24u32) as u8, (u >> 16u32) as u8, (u >> 8u32) as u8, u as u8,
            (m >> 8u16) as u8, m as u8,
            (p >> 24u32) as u8, (p >> 16u32) as u8, (p >> 8u32) as u8, p as u8,
            (b >> 24u32) as u8, (b >> 16u32) as u8, (b >> 8u32) as u8, b as u8,
        ];
        assert(out@ =~= desc_bytes(*self));
        out
    }

    /// Deserializes a description from its plaintext bytes; every 26 bytes
    /// stand for a description, so this always succeeds.
    pub fn from_plaintext_bytes(bytes: &[u8; PLAINTEXT_LEN]) -> (r: Option<Self>)
        ensures
            r == Some(desc_from_bytes(bytes@)),
    {
        let gen_ts = (bytes[0] as u64) << 56u64 | (bytes[1] as u64) << 48u64 | (bytes[2] as u64)
            << 40u64 | (bytes[3] as u64) << 32u64 | (bytes[4] as u64) << 24u64 | (bytes[5] as u64)
            << 16u64 | (bytes[6] as u64) << 8u64 | (bytes[7] as u64);
        let code_valid_duration = (bytes[8] as u32) << 24u32 | (bytes[9] as u32) << 16u32 | (
        bytes[10] as u32) << 8u32 | (bytes[11] as u32);
        let use_max_duration = (bytes[12] as u32) << 24u32 | (bytes[13] as u32) << 16u32 | (
        bytes[14] as u32) << 8u32 | (bytes[15] as u32);
        let max_uses = (bytes[16] as u16) << 8u16 | (bytes[17] as u16);
        let product_id = (bytes[18] as u32) << 24u32 | (bytes[19] as u32) << 16u32 | (
        bytes[20] as u32) << 8u32 | (bytes[21] as u32);
        let prebind = (bytes[22] as u32) << 24u32 | (bytes[23] as u32) << 16u32 | (
        bytes[24] as u32) << 8u32 | (bytes[25] as u32);
        let d = CodeDesc {
            gen_ts,
            code_valid_duration,
            use_max_duration,
            max_uses,
            product_id,
            prebind,
        };
        assert(d == desc_from_bytes(bytes@));
        Some(d)
    }
}

/// Reading back the plaintext of a description gives the description.
pub proof fn lemma_desc_roundtrip(d: CodeDesc)
    ensures
        desc_bytes(d).len() == PLAINTEXT_LEN,
        desc_from_bytes(desc_bytes(d)) == d,
{
    lemma_u64_be_roundtrip(d.gen_ts);
    lemma_u32_be_roundtrip(d.code_valid_duration);
    lemma_u32_be_roundtrip(d.use_max_duration);
    lemma_u16_be_roundtrip(d.max_uses);
    lemma_u32_be_roundtrip(d.product_id);
    lemma_u32_be_roundtrip(d.prebind);
    let b = desc_bytes(d);
    assert(b.subrange(0, 8) =~= u64_be(d.gen_ts));
    assert(b.subrange(8, 12) =~= u32_be(d.code_valid_duration));
    assert(b.subrange(12, 16) =~= u32_be(d.use_max_duration));
    assert(b.subrange(16, 18) =~= u16_be(d.max_uses));
    assert(b.subrange(18, 22) =~= u32_be(d.product_id));
    assert(b.subrange(22, 26) =~= u32_be(d.prebind));
}

/// Every 26 bytes are the plaintext of the description they stand for.
pub proof fn lemma_bytes_roundtrip(b: Seq<u8>)
    requires
        b.len() == PLAINTEXT_LEN,
    ensures
        desc_bytes(desc_from_bytes(b)) == b,
{
    lemma_u64_from_be_roundtrip(b.subrange(0, 8));
    lemma_u32_from_be_roundtrip(b.subrange(8, 12));
    lemma_u32_from_be_roundtrip(b.subrange(12, 16));
    lemma_u16_from_be_roundtrip(b.subrange(16, 18));
    lemma_u32_from_be_roundtrip(b.subrange(18, 22));
    lemma_u32_from_be_roundtrip(b.subrange(22, 26));
    assert(desc_bytes(desc_from_bytes(b)) =~= b);
}


/// Length of the random bytes sealed together with the description.
pub const RANDOM_LEN: usize = 16;

/// Whether `ct` is what the AES-GCM variant chosen by the key's length
/// (16 bytes: AES-128, 32 bytes: AES-256) produces for `p` under `key`.
pub open spec fn sealed_under(key: Seq<u8>, p: Seq<u8>, ct: Seq<u8>) -> bool {
    if key.len() == 16 {
        is_aes128gcm_encryption(key, p, ct)
    } else if key.len() == 32 {
        is_aes256gcm_encryption(key, p, ct)
    } else {
        false
    }
}

/// What the AES-GCM variant chosen by the key's length gives for `ct`.
pub open spec fn open_under(key: Seq<u8>, ct: Seq<u8>) -> Option<Seq<u8>> {
    if key.len() == 16 {
        aes128gcm_decrypt_spec(key, ct)
    } else if key.len() == 32 {
        aes256gcm_decrypt_spec(key, ct)
    } else {
        None
    }
}

/// Whether the key has a length that selects an AES-GCM variant.
pub open spec fn key_len_ok(key: Seq<u8>) -> bool {
    key.len() == 16 || key.len() == 32
}

/// Whether the generation time plus both durations fits in a `u64`.
pub open spec fn durations_fit(d: CodeDesc) -> bool {
    d.gen_ts + d.code_valid_duration + d.use_max_duration <= u64::MAX
}

/// Whether a description grants `product_id` to a caller holding `prebind`:
/// the product ids agree, and the description is unbound or bound to the
/// caller's data (absent data counts as 0).
pub open spec fn grants(d: CodeDesc, product_id: u32, prebind: Option<u32>) -> bool {
    &&& d.product_id == product_id
    &&& (d.prebind == 0 || d.prebind == match prebind {
        Some(x) => x,
        None => 0u32,
    })
}

/// Whether the code is still valid at clock reading `now`: the reading
/// exists, the expiry time fits in a `u64`, and `now` is not past it.
pub open spec fn unexpired(d: CodeDesc, now: Option<u64>) -> bool {
    match now {
        None => false,
        Some(t) => d.gen_ts + d.code_valid_duration <= u64::MAX && t <= d.gen_ts
            + d.code_valid_duration,
    }
}

/// The raw bytes of a first-kind code: version, plaintext description, and
/// the encryption of the description followed by random bytes.
pub open spec fn raw_v1(d: CodeDesc, ct: Seq<u8>) -> Seq<u8> {
    seq![CODE_VERSION_V1] + desc_bytes(d) + ct
}

/// The raw bytes of a second-kind code: version and the encryption of random
/// bytes followed by the description.
pub open spec fn raw_v2(ct: Seq<u8>) -> Seq<u8> {
    seq![CODE_VERSION_V2] + ct
}

/// Whether `text` is a first-kind code for `d` under `key` whose random
/// bytes are `a` and whose encrypted part is `ct`.
pub open spec fn is_code_v1(key: Seq<u8>, d: CodeDesc, a: Seq<u8>, ct: Seq<u8>, text: Seq<char>) -> bool {
    &&& a.len() == RANDOM_LEN
    &&& sealed_under(key, desc_bytes(d) + a, ct)
    &&& text == ascii_chars(encode_spec(raw_v1(d, ct)))
}

/// Whether `text` is a second-kind code for `d` under `key` whose random
/// bytes are `a` and whose encrypted part is `ct`.
pub open spec fn is_code_v2(key: Seq<u8>, d: CodeDesc, a: Seq<u8>, ct: Seq<u8>, text: Seq<char>) -> bool {
    &&& a.len() == RANDOM_LEN
    &&& sealed_under(key, a + desc_bytes(d), ct)
    &&& text == ascii_chars(encode_spec(raw_v2(ct)))
}

/// The description written in clear in a first-kind code, when the text is
/// basE91, long enough and of the first kind.
pub open spec fn parse_pre_spec(code: Seq<u8>) -> Option<CodeDesc> {
    match decode_spec(code) {
        None => None,
        Some(raw) => if raw.len() < 1 + PLAINTEXT_LEN || raw[0] != CODE_VERSION_V1 {
            None
        } else {
            Some(desc_from_bytes(raw.subrange(1, 1 + PLAINTEXT_LEN)))
        },
    }
}

/// What checking the decrypted payload of a first-kind code gives: the
/// description, when the payload is the clear plaintext followed by 16 bytes
/// and the code has not expired at `now`.
pub open spec fn accept_v1_spec(d: CodeDesc, plaintext: Seq<u8>, decrypted: Option<Seq<u8>>, now: Option<u64>) -> Option<CodeDesc> {
    match decrypted {
        None => None,
        Some(p) => if p.len() == PLAINTEXT_LEN + RANDOM_LEN && p.take(PLAINTEXT_LEN as int)
            == plaintext && unexpired(d, now) {
            Some(d)
        } else {
            None
        },
    }
}

/// What verifying the first-kind code `code` (its bytes) under `key` for
/// `product_id` and `prebind` gives at clock reading `now`.
pub open spec fn verify_v1_spec(code: Seq<u8>, key: Seq<u8>, product_id: u32, prebind: Option<u32>, now: Option<u64>) -> Option<CodeDesc> {
    match decode_spec(code) {
        None => None,
        Some(raw) => if raw.len() < 1 + PLAINTEXT_LEN + 32 || raw[0] != CODE_VERSION_V1 {
            None
        } else {
            let plaintext = raw.subrange(1, 1 + PLAINTEXT_LEN);
            let d = desc_from_bytes(plaintext);
            if !grants(d, product_id, prebind) || !key_len_ok(key) {
                None
            } else {
                accept_v1_spec(d, plaintext, open_under(key, raw.skip(1 + PLAINTEXT_LEN)), now)
            }
        },
    }
}

/// What checking the decrypted payload of a second-kind code gives: the
/// description in its last 26 bytes, when the payload has the right length,
/// grants `product_id` to `prebind`, and has not expired at `now`.
pub open spec fn accept_v2_spec(decrypted: Option<Seq<u8>>, product_id: u32, prebind: Option<u32>, now: Option<u64>) -> Option<CodeDesc> {
    match decrypted {
        None => None,
        Some(p) => {
            let d = desc_from_bytes(p.subrange(RANDOM_LEN as int, (RANDOM_LEN + PLAINTEXT_LEN) as int));
            if p.len() == RANDOM_LEN + PLAINTEXT_LEN && grants(d, product_id, prebind) && unexpired(d, now) {
                Some(d)
            } else {
                None
            }
        },
    }
}

/// What verifying the second-kind code `code` (its bytes) under `key` for
/// `product_id` and `prebind` gives at clock reading `now`.
pub open spec fn verify_v2_spec(code: Seq<u8>, key: Seq<u8>, product_id: u32, prebind: Option<u32>, now: Option<u64>) -> Option<CodeDesc> {
    match decode_spec(code) {
        None => None,
        Some(raw) => if raw.len() < 2 || raw[0] != CODE_VERSION_V2 || !key_len_ok(key) {
            None
        } else {
            accept_v2_spec(open_under(key, raw.skip(1)), product_id, prebind, now)
        },
    }
}

/// Reads std's clock (`SystemTime::now`, then `duration_since(UNIX_EPOCH)`):
/// seconds since the Unix epoch, `None` when the clock is before the epoch.
/// std has no clock on `wasm32-unknown-unknown`, where `SystemTime::now`
/// panics; code built for that target reads the JavaScript clock itself and
/// calls the functions that take the reading (`generate_at`, `verify_at`,
/// `verify_and_parse_at`), so it never reaches this one.
#[verifier::external_body]
fn system_time_secs() -> Option<u64> {
    std::time::SystemTime::now().duration_since(std::time::UNIX_EPOCH).ok().map(|d| d.as_secs())
}

/// Fills 16 bytes from the operating system's generator (`OsRng`); nothing
/// is claimed of them but their number.
#[verifier::external_body]
fn random_16() -> (a: Vec<u8>)
    ensures
        a.len() == RANDOM_LEN,
{
    let mut a = [0u8; 16];
    aes_gcm::aead::OsRng.fill_bytes(&mut a);
    a.to_vec()
}

/// Clock helpers.
pub struct CodeTime;

impl CodeTime {
    /// Seconds since the Unix epoch by std's clock, `None` when the clock
    /// is before it. Not for `wasm32-unknown-unknown`, which has no std
    /// clock: there the reading comes from the JavaScript clock.
    pub fn now() -> Option<u64> {
        system_time_secs()
    }

    /// Checked addition.
    pub fn add(a: u64, b: u64) -> (r: Option<u64>)
        ensures
            r == (if a + b <= u64::MAX { Some((a + b) as u64) } else { None::<u64> }),
    {
        a.checked_add(b)
    }
}

/// The 26 bytes of `s` from `start` on, as an array.
fn plaintext_at(s: &[u8], start: usize) -> (out: [u8; PLAINTEXT_LEN])
    requires
        start + PLAINTEXT_LEN <= s.len(),
    ensures
        out@ == s@.subrange(start as int, start + PLAINTEXT_LEN),
{
    let out: [u8; PLAINTEXT_LEN] = [
        s[start], s[start + 1], s[start + 2], s[start + 3], s[start + 4], s[start + 5],
        s[start + 6], s[start + 7], s[start + 8], s[start + 9], s[start + 10], s[start + 11],
        s[start + 12], s[start + 13], s[start + 14], s[start + 15], s[start + 16], s[start + 17],
        s[start + 18], s[start + 19], s[start + 20], s[start + 21], s[start + 22], s[start + 23],
        s[start + 24], s[start + 25],
    ];
    assert(out@ =~= s@.subrange(start as int, start + PLAINTEXT_LEN));
    out
}

/// Whether two byte strings are equal.
fn bytes_equal(a: &[u8], b: &[u8]) -> (r: bool)
    ensures
        r == (a@ == b@),
{
    if a.len() != b.len() {
        return false;
    }
    let mut i: usize = 0;
    while i < a.len()
        invariant
            i <= a.len(),
            a.len() == b.len(),
            a@.take(i as int) == b@.take(i as int),
        decreases a.len() - i,
    {
        if a[i] != b[i] {
            assert(a@[i as int] != b@[i as int]);
            return false;
        }
        assert(a@.take(i + 1) =~= a@.take(i as int).push(a@[i as int]));
        assert(b@.take(i + 1) =~= b@.take(i as int).push(b@[i as int]));
        i = i + 1;
    }
    assert(a@ =~= a@.take(i as int));
    assert(b@ =~= b@.take(i as int));
    true
}

/// Whether `d` grants `product_id` to a caller holding `prebind`.
fn grants_exec(d: &CodeDesc, product_id: u32, prebind: Option<u32>) -> (r: bool)
    ensures
        r == grants(*d, product_id, prebind),
{
    if d.product_id != product_id {
        return false;
    }
    let held = match prebind {
        Some(x) => x,
        None => 0u32,
    };
    d.prebind == 0 || d.prebind == held
}

/// Whether `d` is still valid at clock reading `now`.
fn unexpired_exec(d: &CodeDesc, now: Option<u64>) -> (r: bool)
    ensures
        r == unexpired(*d, now),
{
    let now = match now {
        Some(t) => t,
        None => return false,
    };
    let expiration = match CodeTime::add(d.gen_ts, d.code_valid_duration as u64) {
        Some(e) => e,
        None => return false,
    };
    now <= expiration
}

/// Encrypts `payload` with the AES-GCM variant chosen by the key's length.
fn seal_under(key: &[u8], payload: &[u8]) -> (r: Option<Vec<u8>>)
    ensures
        (r is Some) == (key_len_ok(key@) && payload.len() <= GCM_MAX_PLAINTEXT),
        r matches Some(ct) ==> sealed_under(key@, payload@, ct@),
{
    if key.len() == 16 {
        Aes128Gcm::encrypt(key, payload)
    } else if key.len() == 32 {
        Aes256Gcm::encrypt(key, payload)
    } else {
        None
    }
}

/// Decrypts `ct` with the AES-GCM variant chosen by the key's length.
fn open_under_exec(key: &[u8], ct: &[u8]) -> (r: Option<Vec<u8>>)
    ensures
        opt_bytes(r) == open_under(key@, ct@),
        forall|p: Seq<u8>|
            p.len() <= GCM_MAX_PLAINTEXT && sealed_under(key@, p, ct@) ==> opt_bytes(r) == Some(p),
{
    if key.len() == 16 {
        Aes128Gcm::decrypt(key, ct)
    } else if key.len() == 32 {
        Aes256Gcm::decrypt(key, ct)
    } else {
        None
    }
}

/// Whether `text` is a first-kind code for `d` under `key`, for some random
/// bytes and some nonce.
pub open spec fn is_code_text_v1(key: Seq<u8>, d: CodeDesc, text: Seq<char>) -> bool {
    exists|a: Seq<u8>, ct: Seq<u8>| #[trigger] is_code_v1(key, d, a, ct, text)
}

proof fn lemma_code_v1_witness(key: Seq<u8>, d: CodeDesc, a: Seq<u8>, ct: Seq<u8>, text: Seq<char>)
    requires
        is_code_v1(key, d, a, ct, text),
    ensures
        is_code_text_v1(key, d, text),
{
}

/// Whether `text` is a second-kind code for `d` under `key`, for some random
/// bytes and some nonce.
pub open spec fn is_code_text_v2(key: Seq<u8>, d: CodeDesc, text: Seq<char>) -> bool {
    exists|a: Seq<u8>, ct: Seq<u8>| #[trigger] is_code_v2(key, d, a, ct, text)
}

proof fn lemma_code_v2_witness(key: Seq<u8>, d: CodeDesc, a: Seq<u8>, ct: Seq<u8>, text: Seq<char>)
    requires
        is_code_v2(key, d, a, ct, text),
    ensures
        is_code_text_v2(key, d, text),
{
}

/// What a genuine first-kind code is made of, as the verifier reads it.
proof fn lemma_v1_genuine(key: Seq<u8>, d: CodeDesc, a: Seq<u8>, ct: Seq<u8>, text: Seq<char>)
    requires
        is_code_v1(key, d, a, ct, text),
    ensures
        decode_spec(encode_utf8(text)) == Some(raw_v1(d, ct)),
        raw_v1(d, ct).len() >= 1 + PLAINTEXT_LEN + 32,
        raw_v1(d, ct)[0] == CODE_VERSION_V1,
        raw_v1(d, ct).subrange(1, 1 + PLAINTEXT_LEN) == desc_bytes(d),
        desc_from_bytes(desc_bytes(d)) == d,
        raw_v1(d, ct).skip(1 + PLAINTEXT_LEN) == ct,
        key_len_ok(key),
        (desc_bytes(d) + a).len() == PLAINTEXT_LEN + RANDOM_LEN,
        (desc_bytes(d) + a).take(PLAINTEXT_LEN as int) == desc_bytes(d),
        (desc_bytes(d) + a).len() <= GCM_MAX_PLAINTEXT,
{
    lemma_decode_text(raw_v1(d, ct));
    lemma_desc_roundtrip(d);
    let raw = raw_v1(d, ct);
    assert(raw.subrange(1, 1 + PLAINTEXT_LEN) =~= desc_bytes(d));
    assert(raw.skip(1 + PLAINTEXT_LEN) =~= ct);
    assert((desc_bytes(d) + a).take(PLAINTEXT_LEN as int) =~= desc_bytes(d));
}

/// What a genuine second-kind code is made of, as the verifier reads it.
proof fn lemma_v2_genuine(key: Seq<u8>, d: CodeDesc, a: Seq<u8>, ct: Seq<u8>, text: Seq<char>)
    requires
        is_code_v2(key, d, a, ct, text),
    ensures
        decode_spec(encode_utf8(text)) == Some(raw_v2(ct)),
        raw_v2(ct).len() >= 2,
        raw_v2(ct)[0] == CODE_VERSION_V2,
        raw_v2(ct).skip(1) == ct,
        key_len_ok(key),
        (a + desc_bytes(d)).len() == RANDOM_LEN + PLAINTEXT_LEN,
        desc_from_bytes((a + desc_bytes(d)).subrange(RANDOM_LEN as int, (RANDOM_LEN + PLAINTEXT_LEN) as int)) == d,
        (a + desc_bytes(d)).len() <= GCM_MAX_PLAINTEXT,
{
    lemma_decode_text(raw_v2(ct));
    lemma_desc_roundtrip(d);
    assert(raw_v2(ct).skip(1) =~= ct);
    assert((a + desc_bytes(d)).subrange(RANDOM_LEN as int, (RANDOM_LEN + PLAINTEXT_LEN) as int) =~= desc_bytes(d));
}

/// Generates a first-kind activation code for `desc`: the version byte, the
/// description in clear, and the AES-GCM encryption of the description
/// followed by 16 random bytes, all written as basE91.
#[verifier::spinoff_prover]
pub fn _generate_code_v1(key: &[u8], desc: CodeDesc) -> (r: Option<String>)
    ensures
        (r is Some) == (durations_fit(desc) && key_len_ok(key@)),
        r matches Some(text) ==> is_code_text_v1(key@, desc, text@),
{
    let t = match desc.gen_ts.checked_add(desc.code_valid_duration as u64) {
        Some(t) => t,
        None => return None,
    };
    if t.checked_add(desc.use_max_duration as u64).is_none() {
        return None;
    }
    let plaintext = desc.to_plaintext_bytes();
    let a = random_16();
    let mut payload: Vec<u8> = Vec::new();
    payload.extend_from_slice(plaintext.as_slice());
    payload.extend_from_slice(a.as_slice());
    assert(payload@ =~= desc_bytes(desc) + a@);
    let encrypted = match seal_under(key, payload.as_slice()) {
        Some(c) => c,
        None => return None,
    };
    let mut raw: Vec<u8> = Vec::new();
    raw.push(CODE_VERSION_V1);
    raw.extend_from_slice(plaintext.as_slice());
    raw.extend_from_slice(encrypted.as_slice());
    assert(raw@ =~= raw_v1(desc, encrypted@));
    let text = Base91::encode(raw.as_slice());
    proof {
        lemma_code_v1_witness(key@, desc, a@, encrypted@, text@);
    }
    Some(text)
}

/// Generates a second-kind activation code for `desc`: the version byte and
/// the AES-GCM encryption of 16 random bytes followed by the description,
/// all written as basE91.
#[verifier::spinoff_prover]
pub fn _generate_code_v2(key: &[u8], desc: CodeDesc) -> (r: Option<String>)
    ensures
        (r is Some) == (durations_fit(desc) && key_len_ok(key@)),
        r matches Some(text) ==> is_code_text_v2(key@, desc, text@),
{
    let t = match desc.gen_ts.checked_add(desc.code_valid_duration as u64) {
        Some(t) => t,
        None => return None,
    };
    if t.checked_add(desc.use_max_duration as u64).is_none() {
        return None;
    }
    let plaintext = desc.to_plaintext_bytes();
    let a = random_16();
    let mut payload: Vec<u8> = Vec::new();
    payload.extend_from_slice(a.as_slice());
    payload.extend_from_slice(plaintext.as_slice());
    assert(payload@ =~= a@ + desc_bytes(desc));
    let encrypted = match seal_under(key, payload.as_slice()) {
        Some(c) => c,
        None => return None,
    };
    let mut raw: Vec<u8> = Vec::new();
    raw.push(CODE_VERSION_V2);
    raw.extend_from_slice(encrypted.as_slice());
    assert(raw@ =~= raw_v2(encrypted@));
    let text = Base91::encode(raw.as_slice());
    proof {
        lemma_code_v2_witness(key@, desc, a@, encrypted@, text@);
    }
    Some(text)
}


/// The description a server generates at clock reading `t`.
pub open spec fn desc_at(t: u64, product_id: u32, code_valid_duration: u32, use_max_duration: u32, max_uses: u16, prebind: Option<u32>) -> CodeDesc {
    CodeDesc {
        gen_ts: t,
        code_valid_duration,
        use_max_duration,
        max_uses,
        product_id,
        prebind: match prebind {
            Some(x) => x,
            None => 0u32,
        },
    }
}

/// Decodes basE91 text and checks the version byte and minimal length of a
/// first-kind code; the raw bytes.
fn raw_v1_of(code: &str, min_len: usize) -> (r: Option<Vec<u8>>)
    ensures
        r matches Some(raw) ==> decode_spec(code.spec_bytes()) == Some(raw@) && raw.len() >= min_len
            && raw.len() >= 1 && raw@[0] == CODE_VERSION_V1,
        r is None ==> match decode_spec(code.spec_bytes()) {
            None => true,
            Some(raw) => raw.len() < min_len || raw.len() < 1 || raw[0] != CODE_VERSION_V1,
        },
{
    let raw = match Base91::decode(code) {
        Some(raw) => raw,
        None => return None,
    };
    if raw.len() < min_len || raw.len() < 1 {
        return None;
    }
    if raw[0] != CODE_VERSION_V1 {
        return None;
    }
    Some(raw)
}

/// Whether generating at clock reading `now` succeeds: there is a reading,
/// the key selects an AES-GCM variant, and the expiry sum fits in a `u64`.
pub open spec fn generates_at(key: Seq<u8>, now: Option<u64>, code_valid_duration: u32, use_max_duration: u32) -> bool {
    &&& key_len_ok(key)
    &&& match now {
        Some(t) => t + code_valid_duration + use_max_duration <= u64::MAX,
        None => false,
    }
}

/// Whether verifying first-kind codes at clock reading `now` accepts every
/// genuine code `code` whose description grants `product_id` to `prebind`
/// and has not expired, with that description.
pub open spec fn genuine_verifies_v1(key: Seq<u8>, code: Seq<char>, product_id: u32, prebind: Option<u32>, now: Option<u64>) -> bool {
    forall|d: CodeDesc, a: Seq<u8>, ct: Seq<u8>|
        #[trigger] is_code_v1(key, d, a, ct, code) && grants(d, product_id, prebind) && unexpired(d, now)
            ==> verify_v1_spec(encode_utf8(code), key, product_id, prebind, now) == Some(d)
}

/// Whether verifying second-kind codes at clock reading `now` accepts every
/// genuine code `code` whose description grants `product_id` to `prebind`
/// and has not expired, with that description.
pub open spec fn genuine_verifies_v2(key: Seq<u8>, code: Seq<char>, product_id: u32, prebind: Option<u32>, now: Option<u64>) -> bool {
    forall|d: CodeDesc, a: Seq<u8>, ct: Seq<u8>|
        #[trigger] is_code_v2(key, d, a, ct, code) && grants(d, product_id, prebind) && unexpired(d, now)
            ==> verify_v2_spec(encode_utf8(code), key, product_id, prebind, now) == Some(d)
}

/// Generate-then-verify for first-kind codes: a code that `V1::generate`
/// made at clock reading `t` is accepted, with the description stamped at
/// `t`, by every verification whose reading `now` finds it unexpired and
/// whose product and prebinding it grants, as `V1::verify_and_parse`
/// states of its own reading.
pub proof fn code_v1_round_trip(
    key: Seq<u8>,
    t: u64,
    product_id: u32,
    code_valid_duration: u32,
    use_max_duration: u32,
    max_uses: u16,
    prebind: Option<u32>,
    text: Seq<char>,
    prebind_at_verify: Option<u32>,
    now: Option<u64>,
)
    requires
        is_code_text_v1(
            key,
            desc_at(t, product_id, code_valid_duration, use_max_duration, max_uses, prebind),
            text,
        ),
        genuine_verifies_v1(key, text, product_id, prebind_at_verify, now),
        grants(
            desc_at(t, product_id, code_valid_duration, use_max_duration, max_uses, prebind),
            product_id,
            prebind_at_verify,
        ),
        unexpired(
            desc_at(t, product_id, code_valid_duration, use_max_duration, max_uses, prebind),
            now,
        ),
    ensures
        verify_v1_spec(encode_utf8(text), key, product_id, prebind_at_verify, now) == Some(
            desc_at(t, product_id, code_valid_duration, use_max_duration, max_uses, prebind),
        ),
{
    let d = desc_at(t, product_id, code_valid_duration, use_max_duration, max_uses, prebind);
    let (a, ct) = choose|a: Seq<u8>, ct: Seq<u8>| #[trigger] is_code_v1(key, d, a, ct, text);
    assert(is_code_v1(key, d, a, ct, text));
}

/// Generate-then-verify for second-kind codes, as `code_v1_round_trip`
/// states it for the first kind.
pub proof fn code_v2_round_trip(
    key: Seq<u8>,
    t: u64,
    product_id: u32,
    code_valid_duration: u32,
    use_max_duration: u32,
    max_uses: u16,
    prebind: Option<u32>,
    text: Seq<char>,
    prebind_at_verify: Option<u32>,
    now: Option<u64>,
)
    requires
        is_code_text_v2(
            key,
            desc_at(t, product_id, code_valid_duration, use_max_duration, max_uses, prebind),
            text,
        ),
        genuine_verifies_v2(key, text, product_id, prebind_at_verify, now),
        grants(
            desc_at(t, product_id, code_valid_duration, use_max_duration, max_uses, prebind),
            product_id,
            prebind_at_verify,
        ),
        unexpired(
            desc_at(t, product_id, code_valid_duration, use_max_duration, max_uses, prebind),
            now,
        ),
    ensures
        verify_v2_spec(encode_utf8(text), key, product_id, prebind_at_verify, now) == Some(
            desc_at(t, product_id, code_valid_duration, use_max_duration, max_uses, prebind),
        ),
{
    let d = desc_at(t, product_id, code_valid_duration, use_max_duration, max_uses, prebind);
    let (a, ct) = choose|a: Seq<u8>, ct: Seq<u8>| #[trigger] is_code_v2(key, d, a, ct, text);
    assert(is_code_v2(key, d, a, ct, text));
}

/// Whether description `d` may be handed out to a caller asking for
/// `product_id` with binding `prebind` at clock reading `now`: the product
/// is the one asked for, the code is unbound or bound to that binding, and
/// the reading is no later than generation time plus validity.
pub open spec fn admitted(d: CodeDesc, product_id: u32, prebind: Option<u32>, now: Option<u64>) -> bool {
    &&& d.product_id == product_id
    &&& (d.prebind == 0 || prebind == Some(d.prebind))
    &&& now matches Some(t) && t <= d.gen_ts + d.code_valid_duration
}

/// Verification of either kind only hands out a description for the
/// product asked for, unbound or bound to the caller's binding, and only at
/// a reading within its validity: any code, key and arguments.
pub proof fn verification_admits_only(
    code: Seq<u8>,
    key: Seq<u8>,
    product_id: u32,
    prebind: Option<u32>,
    now: Option<u64>,
)
    ensures
        verify_v1_spec(code, key, product_id, prebind, now) matches Some(d) ==> d.product_id
            == product_id && (d.prebind == 0 || prebind == Some(d.prebind)) && (now matches Some(t)
            && t <= d.gen_ts + d.code_valid_duration),
        verify_v2_spec(code, key, product_id, prebind, now) matches Some(d) ==> d.product_id
            == product_id && (d.prebind == 0 || prebind == Some(d.prebind)) && (now matches Some(t)
            && t <= d.gen_ts + d.code_valid_duration),
{
}

/// Codes of the first kind: the description is readable without the key.
pub struct V1;

impl V1 {
    /// Generates a first-kind code for a description stamped with clock
    /// reading `now`; `None` when there is no reading, the key is not 16 or
    /// 32 bytes, or the expiry times do not fit in a `u64`.
    pub fn generate_at(
        key: &[u8],
        product_id: u32,
        code_valid_duration: u32,
        use_max_duration: u32,
        max_uses: u16,
        prebind: Option<u32>,
        now: Option<u64>,
    ) -> (r: Option<String>)
        ensures
            (r is Some) == generates_at(key@, now, code_valid_duration, use_max_duration),
            r matches Some(text) ==> now is Some && is_code_text_v1(
                key@,
                desc_at(now->0, product_id, code_valid_duration, use_max_duration, max_uses, prebind),
                text@,
            ),
    {
        let gen_ts = match now {
            Some(t) => t,
            None => {
                assert(!generates_at(key@, now, code_valid_duration, use_max_duration));
                return None;
            },
        };
        let held = match prebind {
            Some(x) => x,
            None => 0u32,
        };
        let desc = CodeDesc {
            gen_ts,
            code_valid_duration,
            use_max_duration,
            max_uses,
            product_id,
            prebind: held,
        };
        assert(desc == desc_at(gen_ts, product_id, code_valid_duration, use_max_duration, max_uses, prebind));
        let r = _generate_code_v1(key, desc);
        assert(generates_at(key@, now, code_valid_duration, use_max_duration) == (r is Some));
        r
    }

    /// Generates a first-kind code for a description stamped with the
    /// current time.
    pub fn generate(
        key: &[u8],
        product_id: u32,
        code_valid_duration: u32,
        use_max_duration: u32,
        max_uses: u16,
        prebind: Option<u32>,
    ) -> (r: Option<String>)
        ensures
            !key_len_ok(key@) ==> r is None,
            exists|now: Option<u64>|
                #[trigger] generates_at(key@, now, code_valid_duration, use_max_duration) == (r is Some) && (
                r matches Some(text) ==> now is Some && is_code_text_v1(
                    key@,
                    desc_at(now->0, product_id, code_valid_duration, use_max_duration, max_uses, prebind),
                    text@,
                )),
    {
        let now = CodeTime::now();
        Self::generate_at(key, product_id, code_valid_duration, use_max_duration, max_uses, prebind, now)
    }

    /// Reads the description written in clear in a first-kind code, without
    /// checking the code.
    pub fn parse_pre(code: &str) -> (r: Option<CodeDesc>)
        ensures
            r == parse_pre_spec(code.spec_bytes()),
            forall|key: Seq<u8>, d: CodeDesc, a: Seq<u8>, ct: Seq<u8>|
                #[trigger] is_code_v1(key, d, a, ct, code@) ==> r == Some(d),
    {
        proof {
            assert forall|key: Seq<u8>, d: CodeDesc, a: Seq<u8>, ct: Seq<u8>|
                #[trigger] is_code_v1(key, d, a, ct, code@) implies parse_pre_spec(code.spec_bytes()) == Some(d) by {
                lemma_v1_genuine(key, d, a, ct, code@);
            }
        }
        let raw = match raw_v1_of(code, 1 + PLAINTEXT_LEN) {
            Some(raw) => raw,
            None => return None,
        };
        let plaintext_bytes = plaintext_at(raw.as_slice(), 1);
        CodeDesc::from_plaintext_bytes(&plaintext_bytes)
    }

    /// Checks the decrypted payload of a first-kind code whose clear
    /// description is `desc` (bytes `plaintext_bytes`) at clock reading `now`.
    pub fn accept_decrypted(
        desc: CodeDesc,
        plaintext_bytes: &[u8; PLAINTEXT_LEN],
        decrypted: Option<Vec<u8>>,
        now: Option<u64>,
    ) -> (r: Option<CodeDesc>)
        ensures
            r == accept_v1_spec(desc, plaintext_bytes@, opt_bytes(decrypted), now),
    {
        let decrypted = match decrypted {
            Some(p) => p,
            None => return None,
        };
        if decrypted.len() != PLAINTEXT_LEN + RANDOM_LEN {
            return None;
        }
        let (head, _) = decrypted.as_slice().split_at(PLAINTEXT_LEN);
        assert(head@ =~= decrypted@.take(PLAINTEXT_LEN as int));
        if !bytes_equal(head, plaintext_bytes.as_slice()) {
            return None;
        }
        if !unexpired_exec(&desc, now) {
            return None;
        }
        Some(desc)
    }

    /// Verifies a first-kind code at clock reading `now`.
    pub fn verify_and_parse_at(
        key: &[u8],
        code: &str,
        product_id: u32,
        prebind: Option<u32>,
        now: Option<u64>,
    ) -> (r: Option<CodeDesc>)
        ensures
            r == verify_v1_spec(code.spec_bytes(), key@, product_id, prebind, now),
            r matches Some(d) ==> admitted(d, product_id, prebind, now),
            forall|d: CodeDesc, a: Seq<u8>, ct: Seq<u8>|
                #[trigger] is_code_v1(key@, d, a, ct, code@) && grants(d, product_id, prebind)
                    && unexpired(d, now) ==> r == Some(d),
    {
        proof {
            assert forall|d: CodeDesc, a: Seq<u8>, ct: Seq<u8>|
                #[trigger] is_code_v1(key@, d, a, ct, code@) implies decode_spec(code.spec_bytes())
                == Some(raw_v1(d, ct)) && raw_v1(d, ct).subrange(1, 1 + PLAINTEXT_LEN) == desc_bytes(d)
                && desc_from_bytes(desc_bytes(d)) == d && key_len_ok(key@) by {
                lemma_v1_genuine(key@, d, a, ct, code@);
            }
        }
        let raw = match raw_v1_of(code, 1 + PLAINTEXT_LEN + 32) {
            Some(raw) => raw,
            None => return None,
        };
        let plaintext_bytes = plaintext_at(raw.as_slice(), 1);
        let desc = match CodeDesc::from_plaintext_bytes(&plaintext_bytes) {
            Some(d) => d,
            None => return None,
        };
        if !grants_exec(&desc, product_id, prebind) {
            return None;
        }
        if key.len() != 16 && key.len() != 32 {
            return None;
        }
        let (_, encrypted) = raw.as_slice().split_at(1 + PLAINTEXT_LEN);
        assert(encrypted@ =~= raw@.skip(1 + PLAINTEXT_LEN));
        let decrypted = open_under_exec(key, encrypted);
        proof {
            assert forall|d: CodeDesc, a: Seq<u8>, ct: Seq<u8>|
                #[trigger] is_code_v1(key@, d, a, ct, code@) && grants(d, product_id, prebind)
                    && unexpired(d, now) implies accept_v1_spec(desc, plaintext_bytes@, opt_bytes(decrypted), now) == Some(d) by {
                lemma_v1_genuine(key@, d, a, ct, code@);
                assert(raw@ == raw_v1(d, ct));
                assert(opt_bytes(decrypted) == Some(desc_bytes(d) + a));
            }
        }
        Self::accept_decrypted(desc, &plaintext_bytes, decrypted, now)
    }

    /// Verifies a first-kind code at clock reading `now`; whether it is
    /// valid, which is whether `verify_and_parse_at` at the same reading
    /// gives a description.
    pub fn verify_at(key: &[u8], code: &str, product_id: u32, prebind: Option<u32>, now: Option<u64>) -> (r:
        bool)
        ensures
            r == verify_v1_spec(code.spec_bytes(), key@, product_id, prebind, now) is Some,
            r ==> exists|d: CodeDesc| #[trigger] admitted(d, product_id, prebind, now),
            forall|d: CodeDesc, a: Seq<u8>, ct: Seq<u8>|
                #[trigger] is_code_v1(key@, d, a, ct, code@) && grants(d, product_id, prebind)
                    && unexpired(d, now) ==> r,
    {
        Self::verify_and_parse_at(key, code, product_id, prebind, now).is_some()
    }

    /// Verifies a first-kind code now; whether it is valid.
    pub fn verify(key: &[u8], code: &str, product_id: u32, prebind: Option<u32>) -> (r: bool)
        ensures
            exists|now: Option<u64>|
                r == (#[trigger] verify_v1_spec(code.spec_bytes(), key@, product_id, prebind, now)) is Some
                    && genuine_verifies_v1(key@, code@, product_id, prebind, now),
    {
        Self::verify_and_parse(key, code, product_id, prebind).is_some()
    }

    /// Verifies a first-kind code now and returns its description.
    pub fn verify_and_parse(key: &[u8], code: &str, product_id: u32, prebind: Option<u32>) -> (r:
        Option<CodeDesc>)
        ensures
            exists|now: Option<u64>|
                r == #[trigger] verify_v1_spec(code.spec_bytes(), key@, product_id, prebind, now)
                    && genuine_verifies_v1(key@, code@, product_id, prebind, now),
    {
        _verify_and_parse_v1(code, key, product_id, prebind)
    }
}

fn _verify_and_parse_v1(code: &str, key: &[u8], product_id: u32, prebind: Option<u32>) -> (r:
    Option<CodeDesc>)
    ensures
        exists|now: Option<u64>|
            r == #[trigger] verify_v1_spec(code.spec_bytes(), key@, product_id, prebind, now)
                && genuine_verifies_v1(key@, code@, product_id, prebind, now),
{
    let now = CodeTime::now();
    let r = V1::verify_and_parse_at(key, code, product_id, prebind, now);
    assert(r == verify_v1_spec(code.spec_bytes(), key@, product_id, prebind, now));
    r
}

/// Codes of the second kind: everything but the version is encrypted.
pub struct V2;

impl V2 {
    /// Generates a second-kind code for a description stamped with clock
    /// reading `now`; `None` when there is no reading, the key is not 16 or
    /// 32 bytes, or the expiry times do not fit in a `u64`.
    pub fn generate_at(
        key: &[u8],
        product_id: u32,
        code_valid_duration: u32,
        use_max_duration: u32,
        max_uses: u16,
        prebind: Option<u32>,
        now: Option<u64>,
    ) -> (r: Option<String>)
        ensures
            (r is Some) == generates_at(key@, now, code_valid_duration, use_max_duration),
            r matches Some(text) ==> now is Some && is_code_text_v2(
                key@,
                desc_at(now->0, product_id, code_valid_duration, use_max_duration, max_uses, prebind),
                text@,
            ),
    {
        let gen_ts = match now {
            Some(t) => t,
            None => {
                assert(!generates_at(key@, now, code_valid_duration, use_max_duration));
                return None;
            },
        };
        let held = match prebind {
            Some(x) => x,
            None => 0u32,
        };
        let desc = CodeDesc {
            gen_ts,
            code_valid_duration,
            use_max_duration,
            max_uses,
            product_id,
            prebind: held,
        };
        assert(desc == desc_at(gen_ts, product_id, code_valid_duration, use_max_duration, max_uses, prebind));
        let r = _generate_code_v2(key, desc);
        assert(generates_at(key@, now, code_valid_duration, use_max_duration) == (r is Some));
        r
    }

    /// Generates a second-kind code for a description stamped with the
    /// current time.
    pub fn generate(
        key: &[u8],
        product_id: u32,
        code_valid_duration: u32,
        use_max_duration: u32,
        max_uses: u16,
        prebind: Option<u32>,
    ) -> (r: Option<String>)
        ensures
            !key_len_ok(key@) ==> r is None,
            exists|now: Option<u64>|
                #[trigger] generates_at(key@, now, code_valid_duration, use_max_duration) == (r is Some) && (
                r matches Some(text) ==> now is Some && is_code_text_v2(
                    key@,
                    desc_at(now->0, product_id, code_valid_duration, use_max_duration, max_uses, prebind),
                    text@,
                )),
    {
        let now = CodeTime::now();
        Self::generate_at(key, product_id, code_valid_duration, use_max_duration, max_uses, prebind, now)
    }

    /// Checks the decrypted payload of a second-kind code at clock reading
    /// `now`.
    pub fn accept_decrypted(
        decrypted: Option<Vec<u8>>,
        product_id: u32,
        prebind: Option<u32>,
        now: Option<u64>,
    ) -> (r: Option<CodeDesc>)
        ensures
            r == accept_v2_spec(opt_bytes(decrypted), product_id, prebind, now),
            r matches Some(d) ==> admitted(d, product_id, prebind, now),
    {
        let decrypted = match decrypted {
            Some(p) => p,
            None => return None,
        };
        if decrypted.len() != RANDOM_LEN + PLAINTEXT_LEN {
            return None;
        }
        let plaintext_bytes = plaintext_at(decrypted.as_slice(), RANDOM_LEN);
        let desc = match CodeDesc::from_plaintext_bytes(&plaintext_bytes) {
            Some(d) => d,
            None => return None,
        };
        if !grants_exec(&desc, product_id, prebind) {
            return None;
        }
        if !unexpired_exec(&desc, now) {
            return None;
        }
        Some(desc)
    }

    /// Verifies a second-kind code at clock reading `now`.
    pub fn verify_and_parse_at(
        key: &[u8],
        code: &str,
        product_id: u32,
        prebind: Option<u32>,
        now: Option<u64>,
    ) -> (r: Option<CodeDesc>)
        ensures
            r == verify_v2_spec(code.spec_bytes(), key@, product_id, prebind, now),
            r matches Some(d) ==> admitted(d, product_id, prebind, now),
            forall|d: CodeDesc, a: Seq<u8>, ct: Seq<u8>|
                #[trigger] is_code_v2(key@, d, a, ct, code@) && grants(d, product_id, prebind)
                    && unexpired(d, now) ==> r == Some(d),
    {
        proof {
            assert forall|d: CodeDesc, a: Seq<u8>, ct: Seq<u8>|
                #[trigger] is_code_v2(key@, d, a, ct, code@) implies decode_spec(code.spec_bytes())
                == Some(raw_v2(ct)) && key_len_ok(key@) by {
                lemma_v2_genuine(key@, d, a, ct, code@);
            }
        }
        let raw = match Base91::decode(code) {
            Some(raw) => raw,
            None => return None,
        };
        if raw.len() < 2 {
            return None;
        }
        if raw[0] != CODE_VERSION_V2 {
            return None;
        }
        if key.len() != 16 && key.len() != 32 {
            return None;
        }
        let (_, encrypted) = raw.as_slice().split_at(1);
        assert(encrypted@ =~= raw@.skip(1));
        let decrypted = open_under_exec(key, encrypted);
        proof {
            assert forall|d: CodeDesc, a: Seq<u8>, ct: Seq<u8>|
                #[trigger] is_code_v2(key@, d, a, ct, code@) && grants(d, product_id, prebind)
                    && unexpired(d, now) implies accept_v2_spec(opt_bytes(decrypted), product_id, prebind, now) == Some(d) by {
                lemma_v2_genuine(key@, d, a, ct, code@);
                assert(raw@ == raw_v2(ct));
                assert(opt_bytes(decrypted) == Some(a + desc_bytes(d)));
            }
        }
        Self::accept_decrypted(decrypted, product_id, prebind, now)
    }

    /// Verifies a second-kind code at clock reading `now`; whether it is
    /// valid, which is whether `verify_and_parse_at` at the same reading
    /// gives a description.
    pub fn verify_at(key: &[u8], code: &str, product_id: u32, prebind: Option<u32>, now: Option<u64>) -> (r:
        bool)
        ensures
            r == verify_v2_spec(code.spec_bytes(), key@, product_id, prebind, now) is Some,
            r ==> exists|d: CodeDesc| #[trigger] admitted(d, product_id, prebind, now),
            forall|d: CodeDesc, a: Seq<u8>, ct: Seq<u8>|
                #[trigger] is_code_v2(key@, d, a, ct, code@) && grants(d, product_id, prebind)
                    && unexpired(d, now) ==> r,
    {
        Self::verify_and_parse_at(key, code, product_id, prebind, now).is_some()
    }

    /// Verifies a second-kind code now; whether it is valid.
    pub fn verify(key: &[u8], code: &str, product_id: u32, prebind: Option<u32>) -> (r: bool)
        ensures
            exists|now: Option<u64>|
                r == (#[trigger] verify_v2_spec(code.spec_bytes(), key@, product_id, prebind, now)) is Some
                    && genuine_verifies_v2(key@, code@, product_id, prebind, now),
    {
        Self::verify_and_parse(key, code, product_id, prebind).is_some()
    }

    /// Verifies a second-kind code now and returns its description.
    pub fn verify_and_parse(key: &[u8], code: &str, product_id: u32, prebind: Option<u32>) -> (r:
        Option<CodeDesc>)
        ensures
            exists|now: Option<u64>|
                r == #[trigger] verify_v2_spec(code.spec_bytes(), key@, product_id, prebind, now)
                    && genuine_verifies_v2(key@, code@, product_id, prebind, now),
    {
        _verify_and_parse_v2(code, key, product_id, prebind)
    }
}

fn _verify_and_parse_v2(code: &str, key: &[u8], product_id: u32, prebind: Option<u32>) -> (r:
    Option<CodeDesc>)
    ensures
        exists|now: Option<u64>|
            r == #[trigger] verify_v2_spec(code.spec_bytes(), key@, product_id, prebind, now)
                && genuine_verifies_v2(key@, code@, product_id, prebind, now),
{
    let now = CodeTime::now();
    let r = V2::verify_and_parse_at(key, code, product_id, prebind, now);
    assert(r == verify_v2_spec(code.spec_bytes(), key@, product_id, prebind, now));
    r
}

} // verus!
