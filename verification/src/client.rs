//! Decisions of the activation client between its calls to the service:
//! the reply envelope, the two steps of the key exchange, the encrypted
//! request fields, the reading of encrypted replies, the local license
//! check and the state a client keeps between calls.
//!
//! Every request field is the basE91 text of an AES-256-GCM encryption
//! (nonce followed by sealed data) under the session key; every encrypted
//! reply is read the same way back.
use vstd::prelude::*;
use vstd::string::StringSliceAdditionalSpecFns;
use vstd::utf8::{decode_utf8, encode_utf8, encode_utf8_decode_utf8, encode_utf8_valid_utf8, is_ascii_chars, is_ascii_chars_encode_utf8, valid_utf8};
use crate::aes::{Aes256Gcm, Cipher, GCM_MAX_PLAINTEXT, aes256gcm_decrypt_spec, is_aes256gcm_encryption};
use crate::base::{Base91, ascii_chars, decode_spec, encode_spec};
use crate::base_roundtrip::lemma_decode_text;
use crate::code::{V1, parse_pre_spec};
use crate::kdf::{Kdf, Pbkdf2HmacSha256, pbkdf2_hmac_sha256};
use crate::text::{push_char, utf8_error_text, utf8_string};

verus! {

/// Length of the session key agreed with the service.
pub const SESSION_KEY_LEN: usize = 32;

/// The decimal digit for `d` (0 <= d < 10).
pub open spec fn digit_of(d: nat) -> char {
    ((48 + d) as u8) as char
}

/// The decimal digits in order: `0123456789`.
pub open spec fn decimal_alphabet() -> Seq<char> {
    seq!['0', '1', '2', '3', '4', '5', '6', '7', '8', '9']
}

/// Decimal text: the digit for `d` is the `d`-th of `0123456789`, the text
/// of a number below 10 is its one digit, and the text of a larger number
/// is the text of its tenth followed by the digit of its last place.
pub proof fn decimal_law(n: nat)
    ensures
        forall|d: nat| d < 10 ==> #[trigger] digit_of(d) == decimal_alphabet()[d as int],
        n < 10 ==> decimal(n) == seq![decimal_alphabet()[n as int]],
        n >= 10 ==> decimal(n) == decimal(n / 10) + seq![decimal_alphabet()[(n % 10) as int]],
{
    assert(digit_of(0) == decimal_alphabet()[0]);
    assert(digit_of(1) == decimal_alphabet()[1]);
    assert(digit_of(2) == decimal_alphabet()[2]);
    assert(digit_of(3) == decimal_alphabet()[3]);
    assert(digit_of(4) == decimal_alphabet()[4]);
    assert(digit_of(5) == decimal_alphabet()[5]);
    assert(digit_of(6) == decimal_alphabet()[6]);
    assert(digit_of(7) == decimal_alphabet()[7]);
    assert(digit_of(8) == decimal_alphabet()[8]);
    assert(digit_of(9) == decimal_alphabet()[9]);
    assert forall|d: nat| d < 10 implies #[trigger] digit_of(d) == decimal_alphabet()[d as int] by {
        assert(d == 0 || d == 1 || d == 2 || d == 3 || d == 4 || d == 5 || d == 6 || d == 7 || d == 8
            || d == 9);
    }
    if n >= 10 {
        assert(decimal(n) =~= decimal(n / 10) + seq![decimal_alphabet()[(n % 10) as int]]);
    } else {
        assert(decimal(n) =~= seq![decimal_alphabet()[n as int]]);
    }
}

/// The decimal text of `n`, without leading zeros.
pub open spec fn decimal(n: nat) -> Seq<char>
    decreases n,
{
    if n < 10 {
        seq![digit_of(n)]
    } else {
        decimal(n / 10).push(digit_of(n % 10))
    }
}

fn push_decimal(out: &mut String, n: u64)
    ensures
        final(out)@ == old(out)@ + decimal(n as nat),
    decreases n,
{
    let ghost start = out@;
    if n >= 10 {
        push_decimal(out, n / 10);
    }
    let d = (n % 10) as u8;
    push_char(out, (48u8 + d) as char);
    if n >= 10 {
        assert(out@ =~= start + decimal(n as nat));
    } else {
        assert(out@ =~= start + decimal(n as nat));
    }
}

/// `n` in decimal.
pub fn decimal_string(n: u64) -> (r: String)
    ensures
        r@ == decimal(n as nat),
{
    let mut out = String::new();
    push_decimal(&mut out, n);
    assert(out@ =~= decimal(n as nat));
    out
}

/// The text of an error message, by its view.
pub open spec fn err_text<T>(r: Result<T, String>) -> Option<Seq<char>> {
    match r {
        Ok(_) => None,
        Err(e) => Some(e@),
    }
}

/// The message for a session key of the wrong length.
pub open spec fn session_length_message(len: nat) -> Seq<char> {
    "Invalid session key length: expected 32, got "@ + decimal(len)
}

/// The message for a field that could not be encrypted.
pub open spec fn seal_failure_message(plaintext: Seq<char>) -> Seq<char> {
    "AES encrypt failed for: "@ + plaintext
}

/// Whether `field` is the basE91 text of an AES-256-GCM encryption of the
/// UTF-8 bytes of `plaintext` under `key`.
pub open spec fn is_sealed_field(key: Seq<u8>, plaintext: Seq<char>, field: Seq<char>) -> bool {
    exists|ct: Seq<u8>|
        is_aes256gcm_encryption(key, encode_utf8(plaintext), ct) && field == #[trigger] ascii_chars(
            encode_spec(ct),
        )
}

/// What reading the encrypted reply text `data` under `key` gives: the
/// text it decrypts to, or the message of the first step that fails.
pub open spec fn open_reply_spec(key: Seq<u8>, data: Option<Seq<char>>) -> Result<Seq<char>, Seq<char>> {
    match data {
        None => Err("Response data is not a string"@),
        Some(text) => match decode_spec(encode_utf8(text)) {
            None => Err("Failed to base91 decode response data"@),
            Some(ct) => match aes256gcm_decrypt_spec(key, ct) {
                None => Err("Failed to decrypt response data"@),
                Some(p) => if valid_utf8(p) {
                    Ok(decode_utf8(p))
                } else {
                    Err("Invalid UTF-8 in response: "@ + utf8_error_text(p))
                },
            },
        },
    }
}

/// The outcome of a text result, by views.
pub open spec fn text_result(r: Result<String, String>) -> Result<Seq<char>, Seq<char>> {
    match r {
        Ok(s) => Ok(s@),
        Err(e) => Err(e@),
    }
}

/// Reads the envelope of a reply: its `data` when `success` is true, else
/// the reply's message.
pub fn extract_data<D>(success: Option<bool>, message: Option<String>, data: Option<D>) -> (r: Result<D, String>)
    ensures
        success is None ==> err_text(r) == Some("Missing or invalid 'success' field"@),
        success == Some(false) ==> err_text(r) == Some(
            match message {
                Some(m) => m@,
                None => "Unknown error"@,
            },
        ),
        success == Some(true) ==> match data {
            Some(d) => r == Ok::<D, String>(d),
            None => err_text(r) == Some("Missing 'data' field in response"@),
        },
{
    let ok = match success {
        Some(b) => b,
        None => return Err(String::from_str("Missing or invalid 'success' field")),
    };
    if !ok {
        return match message {
            Some(m) => Err(m),
            None => Err(String::from_str("Unknown error")),
        };
    }
    match data {
        Some(d) => Ok(d),
        None => Err(String::from_str("Missing 'data' field in response")),
    }
}

/// Reads the first reply of the key exchange: the client's id and the
/// service's public key, sent in basE91.
pub fn read_exchange_reply(client_uuid: Option<String>, server_key: Option<String>) -> (r: Result<(String, Vec<u8>), String>)
    ensures
        client_uuid is None ==> err_text(r) == Some("Missing 'client_uuid' in exc1 response"@),
        client_uuid is Some && server_key is None ==> err_text(r) == Some(
            "Missing server pubkey in exc1 response"@,
        ),
        client_uuid matches Some(u) ==> (server_key matches Some(k) ==> match decode_spec(
            encode_utf8(k@),
        ) {
            None => err_text(r) == Some("Failed to base91 decode server public key"@),
            Some(key) => r matches Ok(p) && p.0@ == u@ && p.1@ == key,
        }),
{
    let uuid = match client_uuid {
        Some(u) => u,
        None => return Err(String::from_str("Missing 'client_uuid' in exc1 response")),
    };
    let text = match server_key {
        Some(k) => k,
        None => return Err(String::from_str("Missing server pubkey in exc1 response")),
    };
    match Base91::decode(text.as_str()) {
        Some(key) => Ok((uuid, key)),
        None => Err(String::from_str("Failed to base91 decode server public key")),
    }
}

/// Reads the second reply of the key exchange: the encrypted session key,
/// sent in basE91.
pub fn read_session_reply(data: Option<String>) -> (r: Result<Vec<u8>, String>)
    ensures
        data is None ==> err_text(r) == Some("Missing 'data' in exc2 response"@),
        data matches Some(t) ==> match decode_spec(encode_utf8(t@)) {
            None => err_text(r) == Some("Failed to base91 decode encrypted session key"@),
            Some(b) => r matches Ok(v) && v@ == b,
        },
{
    let text = match data {
        Some(t) => t,
        None => return Err(String::from_str("Missing 'data' in exc2 response")),
    };
    match Base91::decode(text.as_str()) {
        Some(b) => Ok(b),
        None => Err(String::from_str("Failed to base91 decode encrypted session key")),
    }
}

/// The session key from what the client's private key opened: it must be
/// 32 bytes long.
pub fn session_key_of(opened: Option<Vec<u8>>) -> (r: Result<Vec<u8>, String>)
    ensures
        opened is None ==> err_text(r) == Some(
            "Failed to decrypt session key with client private key"@,
        ),
        opened matches Some(k) ==> if k.len() == SESSION_KEY_LEN {
            r matches Ok(v) && v@ == k@
        } else {
            err_text(r) == Some(session_length_message(k.len() as nat))
        },
{
    let key = match opened {
        Some(k) => k,
        None => return Err(String::from_str("Failed to decrypt session key with client private key")),
    };
    if key.len() != SESSION_KEY_LEN {
        return Err(session_length_error(key.len()));
    }
    Ok(key)
}

fn session_length_error(len: usize) -> (r: String)
    ensures
        r@ == session_length_message(len as nat),
{
    let mut e = String::from_str("Invalid session key length: expected 32, got ");
    push_decimal(&mut e, len as u64);
    e
}

/// Checks that a session key is 32 bytes long.
pub fn check_session_key(session_key: &[u8]) -> (r: Result<(), String>)
    ensures
        (r is Ok) == (session_key.len() == SESSION_KEY_LEN),
        r is Err ==> err_text(r) == Some(session_length_message(session_key.len() as nat)),
{
    if session_key.len() != SESSION_KEY_LEN {
        return Err(session_length_error(session_key.len()));
    }
    Ok(())
}

/// The request field for `plaintext`: its AES-256-GCM encryption under the
/// session key, in basE91.
pub fn seal_field(session_key: &[u8], plaintext: &str) -> (r: Result<String, String>)
    ensures
        (r is Ok) == (session_key.len() == SESSION_KEY_LEN && plaintext.spec_bytes().len() <= GCM_MAX_PLAINTEXT),
        r matches Ok(s) ==> is_sealed_field(session_key@, plaintext@, s@),
        r is Err ==> err_text(r) == Some(seal_failure_message(plaintext@)),
{
    let ct = match Aes256Gcm::encrypt(session_key, plaintext.as_bytes()) {
        Some(c) => c,
        None => {
            let mut e = String::from_str("AES encrypt failed for: ");
            e.append(plaintext);
            return Err(e);
        },
    };
    let field = Base91::encode(ct.as_slice());
    assert(field@ == ascii_chars(encode_spec(ct@)));
    Ok(field)
}

/// `10^k`.
pub open spec fn pow10(k: nat) -> nat
    decreases k,
{
    if k == 0 {
        1
    } else {
        10 * pow10((k - 1) as nat)
    }
}

proof fn lemma_decimal_len(n: nat, k: nat)
    requires
        k >= 1,
        n < pow10(k),
    ensures
        decimal(n).len() <= k,
    decreases k,
{
    if n >= 10 {
        if k == 1 {
            assert(pow10(1) == 10 * pow10(0));
        } else {
            assert(pow10(k) == 10 * pow10((k - 1) as nat));
            lemma_decimal_len(n / 10, (k - 1) as nat);
        }
    }
}

proof fn lemma_decimal_ascii(n: nat)
    ensures
        is_ascii_chars(decimal(n)),
    decreases n,
{
    if n >= 10 {
        lemma_decimal_ascii(n / 10);
    }
    let d = decimal(n);
    assert forall|i: int| 0 <= i < d.len() implies '\0' <= #[trigger] d[i] <= '\u{7f}' by {
        if n >= 10 && i < d.len() - 1 {
            assert(d[i] == decimal(n / 10)[i]);
        }
    }
}

/// The decimal text of a 64-bit number is ASCII and at most 20 characters
/// long, so its UTF-8 bytes are as many.
proof fn lemma_decimal_u64(n: u64)
    ensures
        encode_utf8(decimal(n as nat)).len() == decimal(n as nat).len(),
        decimal(n as nat).len() <= 20,
{
    lemma_decimal_ascii(n as nat);
    is_ascii_chars_encode_utf8(decimal(n as nat));
    assert(pow10(20) == 100000000000000000000nat) by {
        reveal_with_fuel(pow10, 21);
    }
    lemma_decimal_len(n as nat, 20);
}

/// The four request fields of an activation: the time, the code, the
/// product and the binding, each sealed under the session key.
pub open spec fn activation_fields_sealed(
    key: Seq<u8>,
    now_sec: u64,
    code: Seq<char>,
    product_id: u32,
    binding: Seq<char>,
    fields: Seq<String>,
) -> bool {
    &&& fields.len() == 4
    &&& is_sealed_field(key, decimal(now_sec as nat), fields[0]@)
    &&& is_sealed_field(key, code, fields[1]@)
    &&& is_sealed_field(key, decimal(product_id as nat), fields[2]@)
    &&& is_sealed_field(key, binding, fields[3]@)
}

/// Prepares an activation request: with `parse_pre`, the code must first
/// read as a first-kind code; the session key must be 32 bytes long; then
/// the four fields are sealed.
pub fn prepare_activation(
    code: &str,
    product_id: u32,
    binding: &str,
    parse_pre: bool,
    session_key: &[u8],
    now_sec: u64,
) -> (r: Result<Vec<String>, String>)
    ensures
        parse_pre && parse_pre_spec(code.spec_bytes()) is None ==> err_text(r) == Some(
            "Failed to parse code: "@ + code@,
        ),
        !(parse_pre && parse_pre_spec(code.spec_bytes()) is None) && session_key.len() != SESSION_KEY_LEN
            ==> err_text(r) == Some(session_length_message(session_key.len() as nat)),
        !(parse_pre && parse_pre_spec(code.spec_bytes()) is None) && session_key.len() == SESSION_KEY_LEN
            ==> {
            &&& (r is Ok) == (code.spec_bytes().len() <= GCM_MAX_PLAINTEXT && binding.spec_bytes().len()
                <= GCM_MAX_PLAINTEXT)
            &&& code.spec_bytes().len() > GCM_MAX_PLAINTEXT ==> err_text(r) == Some(
                seal_failure_message(code@),
            )
            &&& code.spec_bytes().len() <= GCM_MAX_PLAINTEXT && binding.spec_bytes().len()
                > GCM_MAX_PLAINTEXT ==> err_text(r) == Some(seal_failure_message(binding@))
        },
        r matches Ok(v) ==> activation_fields_sealed(session_key@, now_sec, code@, product_id, binding@, v@),
{
    if parse_pre {
        if V1::parse_pre(code).is_none() {
            let mut e = String::from_str("Failed to parse code: ");
            e.append(code);
            return Err(e);
        }
    }
    match check_session_key(session_key) {
        Ok(()) => {},
        Err(e) => return Err(e),
    }
    let now_text = decimal_string(now_sec);
    let product_text = decimal_string(product_id as u64);
    proof {
        lemma_decimal_u64(now_sec);
        lemma_decimal_u64(product_id as u64);
    }
    let data_1 = match seal_field(session_key, now_text.as_str()) {
        Ok(f) => f,
        Err(e) => return Err(e),
    };
    let data_2 = match seal_field(session_key, code) {
        Ok(f) => f,
        Err(e) => return Err(e),
    };
    let data_3 = match seal_field(session_key, product_text.as_str()) {
        Ok(f) => f,
        Err(e) => return Err(e),
    };
    let data_4 = match seal_field(session_key, binding) {
        Ok(f) => f,
        Err(e) => return Err(e),
    };
    let mut fields: Vec<String> = Vec::new();
    fields.push(data_1);
    fields.push(data_2);
    fields.push(data_3);
    fields.push(data_4);
    Ok(fields)
}

/// The view of an optional text.
pub open spec fn opt_text(t: Option<String>) -> Option<Seq<char>> {
    match t {
        Some(s) => Some(s@),
        None => None,
    }
}

/// Reads an encrypted reply: its `data` must be text, in basE91, open under
/// the session key, and be UTF-8. A reply sealed the way request fields
/// are sealed reads back as its text.
pub fn open_reply(session_key: &[u8], data: Option<String>) -> (r: Result<String, String>)
    ensures
        text_result(r) == open_reply_spec(session_key@, opt_text(data)),
        forall|text: Seq<char>, ct: Seq<u8>|
            #![trigger is_aes256gcm_encryption(session_key@, encode_utf8(text), ct), ascii_chars(encode_spec(ct))]
            session_key.len() == SESSION_KEY_LEN && opt_text(data) == Some(ascii_chars(encode_spec(ct)))
                && encode_utf8(text).len() <= GCM_MAX_PLAINTEXT && is_aes256gcm_encryption(
                session_key@,
                encode_utf8(text),
                ct,
            ) ==> text_result(r) == Ok::<Seq<char>, Seq<char>>(text),
{
    let text = match data {
        Some(t) => t,
        None => return Err(String::from_str("Response data is not a string")),
    };
    let ghost view = text@;
    let encrypted = match Base91::decode(text.as_str()) {
        Some(b) => b,
        None => {
            proof {
                lemma_open_reply_sealed(session_key@, view);
            }
            return Err(String::from_str("Failed to base91 decode response data"));
        },
    };
    let decrypted = match Aes256Gcm::decrypt(session_key, encrypted.as_slice()) {
        Some(p) => p,
        None => {
            proof {
                assert forall|t: Seq<char>, ct: Seq<u8>|
                    #![trigger is_aes256gcm_encryption(session_key@, encode_utf8(t), ct), ascii_chars(encode_spec(ct))]
                    session_key.len() == SESSION_KEY_LEN && view == ascii_chars(encode_spec(ct))
                        && encode_utf8(t).len() <= GCM_MAX_PLAINTEXT && is_aes256gcm_encryption(
                        session_key@,
                        encode_utf8(t),
                        ct,
                    ) implies false by {
                    lemma_decode_text(ct);
                }
            }
            return Err(String::from_str("Failed to decrypt response data"));
        },
    };
    let ghost plain = decrypted@;
    match utf8_string(decrypted) {
        Ok(s) => {
            proof {
                assert forall|t: Seq<char>, ct: Seq<u8>|
                    #![trigger is_aes256gcm_encryption(session_key@, encode_utf8(t), ct), ascii_chars(encode_spec(ct))]
                    session_key.len() == SESSION_KEY_LEN && view == ascii_chars(encode_spec(ct))
                        && encode_utf8(t).len() <= GCM_MAX_PLAINTEXT && is_aes256gcm_encryption(
                        session_key@,
                        encode_utf8(t),
                        ct,
                    ) implies s@ == t by {
                    lemma_decode_text(ct);
                    encode_utf8_decode_utf8(t);
                }
            }
            Ok(s)
        },
        Err(e) => {
            proof {
                assert forall|t: Seq<char>, ct: Seq<u8>|
                    #![trigger is_aes256gcm_encryption(session_key@, encode_utf8(t), ct), ascii_chars(encode_spec(ct))]
                    session_key.len() == SESSION_KEY_LEN && view == ascii_chars(encode_spec(ct))
                        && encode_utf8(t).len() <= GCM_MAX_PLAINTEXT && is_aes256gcm_encryption(
                        session_key@,
                        encode_utf8(t),
                        ct,
                    ) implies false by {
                    lemma_decode_text(ct);
                    encode_utf8_valid_utf8(t);
                }
            }
            let mut m = String::from_str("Invalid UTF-8 in response: ");
            m.append(e.as_str());
            Err(m)
        },
    }
}

proof fn lemma_open_reply_sealed(key: Seq<u8>, view: Seq<char>)
    requires
        decode_spec(encode_utf8(view)) is None,
    ensures
        forall|ct: Seq<u8>| view != #[trigger] ascii_chars(encode_spec(ct)),
{
    assert forall|ct: Seq<u8>| view != #[trigger] ascii_chars(encode_spec(ct)) by {
        lemma_decode_text(ct);
    }
}

/// The four request fields of a renewal: the time, the license's tag, the
/// binding and the product, each sealed under the session key.
pub open spec fn renewal_fields_sealed(
    key: Seq<u8>,
    now_sec: u64,
    tag_sig: Seq<char>,
    binding: Seq<char>,
    product_id: u64,
    fields: Seq<String>,
) -> bool {
    &&& fields.len() == 4
    &&& is_sealed_field(key, decimal(now_sec as nat), fields[0]@)
    &&& is_sealed_field(key, tag_sig, fields[1]@)
    &&& is_sealed_field(key, binding, fields[2]@)
    &&& is_sealed_field(key, decimal(product_id as nat), fields[3]@)
}

/// Prepares a renewal request from what a saved license holds (its tag and
/// its product): the session key must be 32 bytes long and both must be
/// present; then the four fields are sealed.
pub fn prepare_renewal(
    session_key: &[u8],
    now_sec: u64,
    tag_sig: Option<String>,
    product_id: Option<u64>,
    binding: &str,
) -> (r: Result<Vec<String>, String>)
    ensures
        session_key.len() != SESSION_KEY_LEN ==> err_text(r) == Some(
            session_length_message(session_key.len() as nat),
        ),
        session_key.len() == SESSION_KEY_LEN && tag_sig is None ==> err_text(r) == Some(
            "Missing 'tag_sig' in json_str"@,
        ),
        session_key.len() == SESSION_KEY_LEN && tag_sig is Some && product_id is None ==> err_text(r)
            == Some("Missing 'product_id' in json_str"@),
        session_key.len() == SESSION_KEY_LEN ==> (tag_sig matches Some(t) ==> (product_id is Some ==> {
            &&& (r is Ok) == (encode_utf8(t@).len() <= GCM_MAX_PLAINTEXT && binding.spec_bytes().len()
                <= GCM_MAX_PLAINTEXT)
            &&& encode_utf8(t@).len() > GCM_MAX_PLAINTEXT ==> err_text(r) == Some(
                seal_failure_message(t@),
            )
            &&& encode_utf8(t@).len() <= GCM_MAX_PLAINTEXT && binding.spec_bytes().len()
                > GCM_MAX_PLAINTEXT ==> err_text(r) == Some(seal_failure_message(binding@))
        })),
        r matches Ok(v) ==> tag_sig matches Some(t) && product_id matches Some(p) && renewal_fields_sealed(
            session_key@,
            now_sec,
            t@,
            binding@,
            p,
            v@,
        ),
{
    match check_session_key(session_key) {
        Ok(()) => {},
        Err(e) => return Err(e),
    }
    let tag = match tag_sig {
        Some(t) => t,
        None => return Err(String::from_str("Missing 'tag_sig' in json_str")),
    };
    let product = match product_id {
        Some(p) => p,
        None => return Err(String::from_str("Missing 'product_id' in json_str")),
    };
    let now_text = decimal_string(now_sec);
    let product_text = decimal_string(product);
    proof {
        lemma_decimal_u64(now_sec);
        lemma_decimal_u64(product);
    }
    let data_1 = match seal_field(session_key, now_text.as_str()) {
        Ok(f) => f,
        Err(e) => return Err(e),
    };
    let data_2 = match seal_field(session_key, tag.as_str()) {
        Ok(f) => f,
        Err(e) => return Err(e),
    };
    let data_3 = match seal_field(session_key, binding) {
        Ok(f) => f,
        Err(e) => return Err(e),
    };
    let data_4 = match seal_field(session_key, product_text.as_str()) {
        Ok(f) => f,
        Err(e) => return Err(e),
    };
    let mut fields: Vec<String> = Vec::new();
    fields.push(data_1);
    fields.push(data_2);
    fields.push(data_3);
    fields.push(data_4);
    Ok(fields)
}

/// The key that protects a saved license: PBKDF2-HMAC-SHA256 (100,000
/// rounds, 32 bytes) of the binding, salted with the service's address.
pub fn license_key(binding: &str, api_base_url: &str) -> (r: Result<Vec<u8>, String>)
    ensures
        (r is Ok) == (binding.spec_bytes().len() > 0 && api_base_url.spec_bytes().len() > 0),
        r matches Ok(k) ==> k@ == pbkdf2_hmac_sha256(binding.spec_bytes(), api_base_url.spec_bytes(), 100_000, 32),
        r is Err ==> err_text(r) == Some("Failed to derive key"@),
{
    match Pbkdf2HmacSha256::derive(binding.as_bytes(), api_base_url.as_bytes(), 32) {
        Some(k) => Ok(k),
        None => Err(String::from_str("Failed to derive key")),
    }
}

/// `a + d`, or the largest 64-bit number when that overflows.
pub open spec fn saturating_sum(a: u64, d: u64) -> u64 {
    if a + d > u64::MAX {
        u64::MAX
    } else {
        (a + d) as u64
    }
}

/// Whether what a saved license holds lets it be used at `now`: its product
/// is the expected one and it has not run out
/// (activation time plus duration, saturating, is not before `now`).
pub open spec fn license_fields_valid(
    product_id: Option<u64>,
    activation_time: Option<u64>,
    duration: Option<u64>,
    expected_product_id: u32,
    now: u64,
) -> bool {
    match (product_id, activation_time, duration) {
        (Some(p), Some(a), Some(d)) => p == expected_product_id as u64 && now <= saturating_sum(a, d),
        _ => false,
    }
}

/// The local license check holds exactly when the saved product id is the
/// expected one (all 64 bits), activation time and duration are both
/// present, and `now` is not after activation time plus duration (a sum
/// beyond `u64::MAX` never runs out).
pub proof fn license_check_law(
    product_id: Option<u64>,
    activation_time: Option<u64>,
    duration: Option<u64>,
    expected_product_id: u32,
    now: u64,
)
    ensures
        license_fields_valid(product_id, activation_time, duration, expected_product_id, now) == (
        product_id == Some(expected_product_id as u64) && activation_time is Some && duration is Some
            && (activation_time->0 + duration->0 > u64::MAX || now <= activation_time->0 + duration->0)),
{
}

/// The local check of a saved license's fields, made without the service.
pub fn license_valid(
    product_id: Option<u64>,
    activation_time: Option<u64>,
    duration: Option<u64>,
    expected_product_id: u32,
    now: u64,
) -> (r: bool)
    ensures
        r == license_fields_valid(product_id, activation_time, duration, expected_product_id, now),
        r == (product_id == Some(expected_product_id as u64) && activation_time is Some && duration is Some
            && (activation_time->0 + duration->0 > u64::MAX || now <= activation_time->0 + duration->0)),
{
    let id = match product_id {
        Some(p) => p,
        None => return false,
    };
    if id != expected_product_id as u64 {
        return false;
    }
    let activation = match activation_time {
        Some(t) => t,
        None => return false,
    };
    let d = match duration {
        Some(d) => d,
        None => return false,
    };
    let expire_time = activation.saturating_add(d);
    if now > expire_time {
        return false;
    }
    true
}

/// What `init` reports.
pub struct InitResult {
    pub ok: bool,
    pub err: String,
}

/// What `auth` and `check` report.
pub struct AuthOpResult {
    pub ok: bool,
    pub license: String,
    pub err: String,
}

/// What a client keeps between its calls: the id and session key from the
/// key exchange, its product, its binding and its license.
pub struct AuthClient {
    client_uuid: Option<String>,
    session_key: Option<Vec<u8>>,
    product_id: u32,
    binding: String,
    license: Option<String>,
}

impl AuthClient {
    /// The id the service gave at the key exchange.
    pub closed spec fn uuid(self) -> Option<Seq<char>> {
        opt_text(self.client_uuid)
    }

    /// The session key of the key exchange.
    pub closed spec fn session(self) -> Option<Seq<u8>> {
        match self.session_key {
            Some(k) => Some(k@),
            None => None,
        }
    }

    /// The product the client activates.
    pub closed spec fn product(self) -> u32 {
        self.product_id
    }

    /// The binding (a device's identity).
    pub closed spec fn binding_text(self) -> Seq<char> {
        self.binding@
    }

    /// The saved license.
    pub closed spec fn saved_license(self) -> Option<Seq<char>> {
        opt_text(self.license)
    }

    /// A client for `product_id` and `binding`, with a license saved
    /// earlier if there is one, before any key exchange.
    pub fn new(product_id: u32, binding: String, license: Option<String>) -> (c: AuthClient)
        ensures
            c.uuid() is None,
            c.session() is None,
            c.product() == product_id,
            c.binding_text() == binding@,
            c.saved_license() == opt_text(license),
    {
        AuthClient { client_uuid: None, session_key: None, product_id, binding, license }
    }

    /// The product.
    pub fn product_id(&self) -> (r: u32)
        ensures
            r == self.product(),
    {
        self.product_id
    }

    /// The binding.
    pub fn binding(&self) -> (r: &str)
        ensures
            r@ == self.binding_text(),
    {
        self.binding.as_str()
    }

    /// The saved license, if any.
    pub fn license(&self) -> (r: Option<String>)
        ensures
            opt_text(r) == self.saved_license(),
    {
        match &self.license {
            Some(l) => Some(l.clone()),
            None => None,
        }
    }

    /// Takes the outcome of a key exchange: on success the session is kept;
    /// on failure nothing changes and the message is reported.
    pub fn finish_init(&mut self, outcome: Result<(Vec<u8>, String), String>) -> (r: InitResult)
        ensures
            match outcome {
                Ok((k, u)) => {
                    &&& final(self).session() == Some(k@)
                    &&& final(self).uuid() == Some(u@)
                    &&& final(self).product() == old(self).product()
                    &&& final(self).binding_text() == old(self).binding_text()
                    &&& final(self).saved_license() == old(self).saved_license()
                    &&& r.ok
                    &&& r.err@ == Seq::<char>::empty()
                },
                Err(e) => {
                    &&& *final(self) == *old(self)
                    &&& !r.ok
                    &&& r.err@ == e@
                },
            },
    {
        match outcome {
            Ok((key, uuid)) => {
                self.session_key = Some(key);
                self.client_uuid = Some(uuid);
                InitResult { ok: true, err: String::new() }
            },
            Err(e) => InitResult { ok: false, err: e },
        }
    }

    /// The id and session key for a request: the key exchange must have
    /// been made.
    pub fn session_inputs(&self) -> (r: Result<(String, Vec<u8>), String>)
        ensures
            self.uuid() is None ==> err_text(r) == Some("Client not initialized"@),
            self.uuid() is Some && self.session() is None ==> err_text(r) == Some(
                "Session key not initialized"@,
            ),
            self.uuid() matches Some(u) ==> (self.session() matches Some(k) ==> r matches Ok(p) && p.0@
                == u && p.1@ == k),
    {
        let uuid = match &self.client_uuid {
            Some(u) => u.clone(),
            None => return Err(String::from_str("Client not initialized")),
        };
        let key = match &self.session_key {
            Some(k) => vstd::slice::slice_to_vec(k.as_slice()),
            None => return Err(String::from_str("Session key not initialized")),
        };
        Ok((uuid, key))
    }

    /// The saved license, id and session key for a renewal: a license must
    /// be saved, then the key exchange must have been made.
    pub fn renewal_inputs(&self) -> (r: Result<(String, String, Vec<u8>), String>)
        ensures
            self.saved_license() is None ==> err_text(r) == Some("Missing license"@),
            self.saved_license() is Some && self.uuid() is None ==> err_text(r) == Some(
                "Client not initialized"@,
            ),
            self.saved_license() is Some && self.uuid() is Some && self.session() is None ==> err_text(r)
                == Some("Session key not initialized"@),
            self.saved_license() matches Some(l) ==> (self.uuid() matches Some(u) ==> (
            self.session() matches Some(k) ==> r matches Ok(p) && p.0@ == l && p.1@ == u && p.2@ == k)),
    {
        let license = match &self.license {
            Some(l) => l.clone(),
            None => return Err(String::from_str("Missing license")),
        };
        match self.session_inputs() {
            Ok((uuid, key)) => Ok((license, uuid, key)),
            Err(e) => Err(e),
        }
    }

    /// Takes the outcome of an activation or a renewal: on success the new
    /// license is saved and reported; on failure nothing changes and the
    /// message is reported.
    pub fn finish_license(&mut self, outcome: Result<String, String>) -> (r: AuthOpResult)
        ensures
            match outcome {
                Ok(l) => {
                    &&& final(self).saved_license() == Some(l@)
                    &&& final(self).uuid() == old(self).uuid()
                    &&& final(self).session() == old(self).session()
                    &&& final(self).product() == old(self).product()
                    &&& final(self).binding_text() == old(self).binding_text()
                    &&& r.ok
                    &&& r.license@ == l@
                    &&& r.err@ == Seq::<char>::empty()
                },
                Err(e) => {
                    &&& *final(self) == *old(self)
                    &&& !r.ok
                    &&& r.license@ == Seq::<char>::empty()
                    &&& r.err@ == e@
                },
            },
    {
        match outcome {
            Ok(new_license) => {
                self.license = Some(new_license.clone());
                AuthOpResult { ok: true, license: new_license, err: String::new() }
            },
            Err(e) => AuthOpResult { ok: false, license: String::new(), err: e },
        }
    }
}

} // verus!
