use code_auth::base::Base91;
use code_auth::hash::Blake3;
use code_auth::text::chars_of;

#[test]
fn base91_single_bytes() {
    assert_eq!(Base91::encode(b"a"), "GB");
    assert_eq!(Base91::encode(&[0u8]), "AA");
    assert_eq!(Base91::encode(b""), "");
    assert_eq!(Base91::decode("GB"), Some(b"a".to_vec()));
}

#[test]
fn base91_round_trip() {
    let data: Vec<u8> = (0u8..=255).collect();
    let text = Base91::encode(&data);
    assert!(text.is_ascii());
    assert_eq!(Base91::decode(&text), Some(data));
    let text = Base91::encode("哈哈哈哈".as_bytes());
    assert_eq!(Base91::decode(&text), Some("哈哈哈哈".as_bytes().to_vec()));
}

#[test]
fn base91_rejects_non_digits() {
    assert_eq!(Base91::decode("AB C"), None);
    assert_eq!(Base91::decode("-"), None);
    assert_eq!(Base91::decode("é"), None);
    assert_eq!(Base91::decode(""), Some(vec![]));
}

#[test]
fn blake3_digest_of_empty_input() {
    let d = Blake3::digest_vec(b"");
    assert_eq!(
        hex::encode(d),
        "af1349b9f5f9a1a6a0404dea36dcc9499bcb25c9adc112b7cc9a93cae41f3262"
    );
}

#[test]
fn chars_of_keeps_order() {
    assert_eq!(chars_of("aé哈"), vec!['a', 'é', '哈']);
    assert!(chars_of("").is_empty());
}

#[test]
fn hex_digits_lowercase() {
    assert_eq!(code_auth::hash::to_hex(&[0x00, 0x9f, 0xab, 0xff]), "009fabff");
    assert_eq!(code_auth::hash::to_hex(&[]), "");
    assert_eq!(Blake3::digest_hex(b"").len(), 64);
}
