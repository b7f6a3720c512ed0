use code_auth::aes::{Aes128Gcm, Aes256Gcm, Cipher};

const SAMPLE: &[u8] = b"Permissions of this weak copyleft license are conditioned on making \
    available source code of licensed files and modifications of those files \
    under the same license (or in certain cases, one of the GNU licenses).";

fn round_trip<C: Cipher>(label: &str, key: &[u8]) {
    let encrypted = C::encrypt(key, SAMPLE).expect("encrypt failed");
    let decrypted = C::decrypt(key, &encrypted).expect("decrypt failed");
    assert_eq!(decrypted, SAMPLE, "{label}: round-trip mismatch");
}

fn wrong_key_returns_none<C: Cipher>(label: &str, key: &[u8], bad_key: &[u8]) {
    let encrypted = C::encrypt(key, SAMPLE).expect("encrypt failed");
    let result = C::decrypt(bad_key, &encrypted);
    assert!(result.is_none(), "{label}: expected None with wrong key");
}

#[test]
fn test_aes128gcm_round_trip() {
    round_trip::<Aes128Gcm>("aes-128-gcm", &[0x42u8; 16]);
}

#[test]
fn test_aes128gcm_wrong_key() {
    wrong_key_returns_none::<Aes128Gcm>("aes-128-gcm", &[0x42u8; 16], &[0x00u8; 16]);
}

#[test]
fn test_aes128gcm_invalid_key_len() {
    assert!(Aes128Gcm::encrypt(&[0u8; 10], SAMPLE).is_none());
    assert!(Aes128Gcm::decrypt(&[0u8; 10], &[0u8; 30]).is_none());
}

#[test]
fn test_aes256gcm_round_trip() {
    round_trip::<Aes256Gcm>("aes-256-gcm", &[0x7Eu8; 32]);
}

#[test]
fn test_aes256gcm_wrong_key() {
    wrong_key_returns_none::<Aes256Gcm>("aes-256-gcm", &[0x7Eu8; 32], &[0xFFu8; 32]);
}

#[test]
fn test_aes256gcm_invalid_key_len() {
    assert!(Aes256Gcm::encrypt(&[0u8; 16], SAMPLE).is_none());
    assert!(Aes256Gcm::decrypt(&[0u8; 16], &[0u8; 50]).is_none());
}

#[test]
fn aes_output_is_nonce_ciphertext_and_tag() {
    let encrypted = Aes256Gcm::encrypt(&[1u8; 32], b"hello").expect("encrypt failed");
    assert_eq!(encrypted.len(), 12 + 5 + 16);
    let encrypted128 = Aes128Gcm::encrypt(&[1u8; 16], b"").expect("encrypt failed");
    assert_eq!(encrypted128.len(), 12 + 16);
}

#[test]
fn aes_fresh_nonce_each_time() {
    let a = Aes256Gcm::encrypt(&[9u8; 32], SAMPLE).expect("encrypt failed");
    let b = Aes256Gcm::encrypt(&[9u8; 32], SAMPLE).expect("encrypt failed");
    assert_ne!(a, b);
}

#[test]
fn aes_short_or_tampered_ciphertext_rejected() {
    assert!(Aes256Gcm::decrypt(&[3u8; 32], &[0u8; 11]).is_none());
    let mut c = Aes256Gcm::encrypt(&[3u8; 32], SAMPLE).expect("encrypt failed");
    let last = c.len() - 1;
    c[last] ^= 1;
    assert!(Aes256Gcm::decrypt(&[3u8; 32], &c).is_none());
}
