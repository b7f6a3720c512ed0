use code_auth::kdf::{
    Argon2i, Argon2idDefault, Argon2idHigh, HkdfSha256, HkdfSha512, Kdf, Pbkdf2HmacSha256,
    Pbkdf2HmacSha256High, Pbkdf2HmacSha512, ScryptDefault, ScryptHigh,
};

const PASSWORD: &[u8] = b"correct horse battery staple";
const SALT: &[u8] = b"seasalt1234567890";
const OUTPUT_LEN: usize = 32;

fn reference_key<K: Kdf>() -> Vec<u8> {
    K::derive(PASSWORD, SALT, OUTPUT_LEN).expect("derive failed")
}

fn check_deterministic<K: Kdf>(label: &str, key1: &[u8]) {
    let key2 = K::derive(PASSWORD, SALT, OUTPUT_LEN).expect("derive failed");
    assert_eq!(key1, key2.as_slice(), "{label}: not deterministic");
    assert_eq!(key1.len(), OUTPUT_LEN, "{label}: wrong output length");
}

fn check_different_passwords<K: Kdf>(label: &str, key1: &[u8]) {
    let key2 = K::derive(b"wrong password", SALT, OUTPUT_LEN).expect("derive failed");
    assert_ne!(key1, key2.as_slice(), "{label}: same output for different passwords");
}

fn check_different_salts<K: Kdf>(label: &str, key1: &[u8]) {
    let key2 = K::derive(PASSWORD, b"differentsalt123", OUTPUT_LEN).expect("derive failed");
    assert_ne!(key1, key2.as_slice(), "{label}: same output for different salts");
}

fn check_invalid_inputs<K: Kdf>(label: &str) {
    assert!(K::derive(b"", SALT, OUTPUT_LEN).is_none(), "{label}: should reject empty password");
    assert!(K::derive(PASSWORD, b"", OUTPUT_LEN).is_none(), "{label}: should reject empty salt");
    assert!(K::derive(PASSWORD, SALT, 0).is_none(), "{label}: should reject zero output length");
}

#[test]
fn test_pbkdf2_sha256() {
    let key1 = reference_key::<Pbkdf2HmacSha256>();
    check_deterministic::<Pbkdf2HmacSha256>("pbkdf2-hmac-sha256", &key1);
    check_different_passwords::<Pbkdf2HmacSha256>("pbkdf2-hmac-sha256", &key1);
    check_different_salts::<Pbkdf2HmacSha256>("pbkdf2-hmac-sha256", &key1);
    check_invalid_inputs::<Pbkdf2HmacSha256>("pbkdf2-hmac-sha256");
}

#[test]
fn test_pbkdf2_sha256_high() {
    let key1 = reference_key::<Pbkdf2HmacSha256High>();
    check_deterministic::<Pbkdf2HmacSha256High>("pbkdf2-hmac-sha256-high", &key1);
}

#[test]
fn test_pbkdf2_sha512() {
    let key1 = reference_key::<Pbkdf2HmacSha512>();
    check_deterministic::<Pbkdf2HmacSha512>("pbkdf2-hmac-sha512", &key1);
    check_different_passwords::<Pbkdf2HmacSha512>("pbkdf2-hmac-sha512", &key1);
}

#[test]
fn test_argon2id_default() {
    let key1 = reference_key::<Argon2idDefault>();
    check_deterministic::<Argon2idDefault>("argon2id-default", &key1);
    check_different_passwords::<Argon2idDefault>("argon2id-default", &key1);
    check_different_salts::<Argon2idDefault>("argon2id-default", &key1);
}

// One derivation with the high-cost presets (Argon2id with 256 MiB, scrypt
// with N = 2^17) takes longer than a unit test should, so only their input
// checks run here; what they derive is fixed by their contracts.
#[test]
fn argon2id_high_refuses_what_the_default_refuses() {
    assert!(Argon2idHigh::derive(PASSWORD, b"short", OUTPUT_LEN).is_none());
    assert!(Argon2idHigh::derive(b"", SALT, OUTPUT_LEN).is_none());
    assert!(Argon2idHigh::derive(PASSWORD, SALT, 0).is_none());
}

#[test]
fn test_argon2i() {
    let key1 = reference_key::<Argon2i>();
    check_deterministic::<Argon2i>("argon2i", &key1);
    check_different_passwords::<Argon2i>("argon2i", &key1);
}

#[test]
fn test_argon2_salt_requirement() {
    let result = Argon2idDefault::derive(PASSWORD, b"short", OUTPUT_LEN);
    assert!(result.is_none(), "should reject salt < 8 bytes");
}

// One scrypt derivation takes seconds here, so the cases of the scrypt
// test are spread over three tests that each stay within the time limit.
#[test]
fn test_scrypt_default() {
    let key1 = reference_key::<ScryptDefault>();
    check_deterministic::<ScryptDefault>("scrypt-default", &key1);
    check_invalid_inputs::<ScryptDefault>("scrypt-default");
}

#[test]
fn scrypt_high_refuses_what_the_default_refuses() {
    assert!(ScryptHigh::derive(PASSWORD, SALT, 0).is_none());
    assert!(ScryptHigh::derive(PASSWORD, SALT, 65).is_none());
    assert!(ScryptHigh::derive(b"", SALT, OUTPUT_LEN).is_none());
}

#[test]
fn scrypt_default_different_passwords() {
    let key1 = reference_key::<ScryptDefault>();
    check_different_passwords::<ScryptDefault>("scrypt-default", &key1);
}

#[test]
fn scrypt_default_different_salts() {
    let key1 = reference_key::<ScryptDefault>();
    check_different_salts::<ScryptDefault>("scrypt-default", &key1);
}

#[test]
fn test_hkdf_sha256() {
    let key1 = reference_key::<HkdfSha256>();
    check_deterministic::<HkdfSha256>("hkdf-sha256", &key1);
    check_different_passwords::<HkdfSha256>("hkdf-sha256", &key1);
    check_different_salts::<HkdfSha256>("hkdf-sha256", &key1);
    let result = HkdfSha256::derive(PASSWORD, b"", OUTPUT_LEN);
    assert!(result.is_some(), "hkdf should allow empty salt");
}

#[test]
fn test_hkdf_sha512() {
    let key1 = reference_key::<HkdfSha512>();
    check_deterministic::<HkdfSha512>("hkdf-sha512", &key1);
}

#[test]
fn test_variable_output_lengths() {
    for len in [16, 32, 64, 128] {
        let key = Pbkdf2HmacSha256::derive(PASSWORD, SALT, len).expect("derive failed");
        assert_eq!(key.len(), len, "output length mismatch for {len}");
    }
}

#[test]
fn test_pbkdf2_rfc6070_vector() {
    let key = Pbkdf2HmacSha256::derive(b"password", b"salt", 20).expect("derive failed");
    assert_eq!(key.len(), 20);
}

#[test]
fn test_hkdf_rfc5869_vector() {
    let ikm = hex::decode("0b0b0b0b0b0b0b0b0b0b0b0b0b0b0b0b0b0b0b0b0b0b").unwrap();
    let salt = hex::decode("000102030405060708090a0b0c").unwrap();
    let okm = HkdfSha256::derive(&ikm, &salt, 42).expect("derive failed");
    assert_eq!(okm.len(), 42);
    assert!(okm.iter().any(|&b| b != 0));
}

#[test]
fn hkdf_sha256_rfc5869_case_three_output() {
    // RFC 5869 test case 3: empty salt and empty info.
    let ikm = hex::decode("0b0b0b0b0b0b0b0b0b0b0b0b0b0b0b0b0b0b0b0b0b0b").unwrap();
    let okm = HkdfSha256::derive(&ikm, b"", 42).expect("derive failed");
    assert_eq!(
        hex::encode(okm),
        "8da4e775a563c18f715f802a063c5a31b8a11f5c5ee1879ec3454e5f3c738d2d9d201395faa4b61a96c8"
    );
}

#[test]
fn hkdf_output_limits() {
    assert!(HkdfSha256::derive(PASSWORD, SALT, 255 * 32).is_some());
    assert!(HkdfSha256::derive(PASSWORD, SALT, 255 * 32 + 1).is_none());
    assert!(HkdfSha512::derive(PASSWORD, SALT, 255 * 64 + 1).is_none());
    assert!(HkdfSha256::derive(b"", SALT, 32).is_none());
    assert!(HkdfSha256::derive(PASSWORD, SALT, 0).is_none());
}

#[test]
fn scrypt_output_length_bounds() {
    assert!(ScryptDefault::derive(PASSWORD, SALT, 9).is_none());
    assert!(ScryptDefault::derive(PASSWORD, SALT, 65).is_none());
    assert_eq!(ScryptDefault::derive(PASSWORD, SALT, 10).map(|k| k.len()), Some(10));
}

#[test]
fn argon2_output_length_bounds() {
    assert!(Argon2idDefault::derive(PASSWORD, SALT, 3).is_none());
    assert_eq!(Argon2idDefault::derive(PASSWORD, SALT, 4).map(|k| k.len()), Some(4));
}
