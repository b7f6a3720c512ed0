use base64::Engine;
use code_auth::aes_text::Aes;

#[test]
fn aes_new_requires_32_bytes() {
    assert_eq!(Aes::new(&[0u8; 16]).err(), Some("Key length must be 32 bytes".to_string()));
    assert!(Aes::new(&[0u8; 32]).is_ok());
}

#[test]
fn aes_derive_key_is_sha256() {
    let key = Aes::derive_key(b"abc");
    assert_eq!(
        hex::encode(key),
        "ba7816bf8f01cfea414140de5dae2223b00361a396177a9cb410ff61f20015ad"
    );
}

#[test]
fn aes_text_round_trip() {
    let aes = Aes::new(&Aes::derive_key(b"device")).expect("key");
    let text = aes.encrypt_to_b64("许可 license".as_bytes()).expect("encrypt");
    assert_eq!(aes.decrypt_b64_to_bytes(&text), Ok("许可 license".as_bytes().to_vec()));
    assert_eq!(aes.decrypt_b64_to_string(&text), Ok("许可 license".to_string()));
}

#[test]
fn aes_text_errors() {
    let aes = Aes::new(&[5u8; 32]).expect("key");
    assert_eq!(aes.decrypt_b64_to_bytes("%%%"), Err("Failed to decode base64 data".to_string()));
    assert_eq!(aes.decrypt_b64_to_bytes("AAAA"), Err("Encrypted data is too short".to_string()));
    let other = Aes::new(&[6u8; 32]).expect("key");
    let text = other.encrypt_to_b64(b"hello").expect("encrypt");
    assert_eq!(aes.decrypt_b64_to_bytes(&text), Err("Decryption failed".to_string()));
    let bad = aes.encrypt_to_b64(&[0xFF]).expect("encrypt");
    assert_eq!(
        aes.decrypt_b64_to_string(&bad),
        Err("Decrypted data is not valid UTF-8".to_string())
    );
}

#[test]
fn aes_text_is_nonce_and_sealed_data() {
    let aes = Aes::new(&[1u8; 32]).expect("key");
    let text = aes.encrypt_to_b64(b"12345").expect("encrypt");
    let raw = base64::engine::general_purpose::STANDARD.decode(&text).expect("base64");
    assert_eq!(raw.len(), 12 + 5 + 16);
}
