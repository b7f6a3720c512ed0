use code_auth::code::{CodeDesc, CodeTime, V1, V2};

const KEY32: [u8; 32] = [0x7Eu8; 32];
const KEY16: [u8; 16] = [0x11u8; 16];

fn sample_desc() -> CodeDesc {
    CodeDesc {
        gen_ts: 0x0102_0304_0506_0708,
        code_valid_duration: 0x090A_0B0C,
        use_max_duration: 0x0D0E_0F10,
        max_uses: 0x1112,
        product_id: 0x1314_1516,
        prebind: 0x1718_191A,
    }
}

#[test]
fn desc_plaintext_is_big_endian_fields() {
    let bytes = sample_desc().to_plaintext_bytes();
    let expected: Vec<u8> = (1u8..=26).collect();
    assert_eq!(bytes.to_vec(), expected);
}

#[test]
fn desc_plaintext_round_trip() {
    let d = sample_desc();
    assert_eq!(CodeDesc::from_plaintext_bytes(&d.to_plaintext_bytes()), Some(d));
    let zeros = [0u8; 26];
    let z = CodeDesc::from_plaintext_bytes(&zeros).expect("every 26 bytes read");
    assert_eq!(z.to_plaintext_bytes(), zeros);
}

#[test]
fn code_time_add_is_checked() {
    assert_eq!(CodeTime::add(1, 2), Some(3));
    assert_eq!(CodeTime::add(u64::MAX, 1), None);
    assert!(CodeTime::now().is_some());
}

#[test]
fn v1_generate_then_verify_and_parse() {
    let code = V1::generate(&KEY32, 1234, 360, 720, 3, None).expect("generate");
    let d = V1::verify_and_parse(&KEY32, &code, 1234, None).expect("verify");
    assert_eq!(d.product_id, 1234);
    assert_eq!(d.code_valid_duration, 360);
    assert_eq!(d.use_max_duration, 720);
    assert_eq!(d.max_uses, 3);
    assert_eq!(d.prebind, 0);
    assert!(V1::verify(&KEY32, &code, 1234, None));
    assert_eq!(V1::parse_pre(&code), Some(d));
}

#[test]
fn v1_with_sixteen_byte_key() {
    let code = V1::generate(&KEY16, 7, 60, 60, 1, Some(99)).expect("generate");
    assert!(V1::verify(&KEY16, &code, 7, Some(99)));
    assert!(!V1::verify(&KEY16, &code, 7, Some(98)));
    assert!(!V1::verify(&KEY16, &code, 7, None));
}

#[test]
fn v1_rejects_wrong_key_product_or_text() {
    let code = V1::generate(&KEY32, 1234, 360, 720, 3, None).expect("generate");
    assert!(!V1::verify(&[0x7Fu8; 32], &code, 1234, None));
    assert!(!V1::verify(&KEY32, &code, 1235, None));
    assert!(!V1::verify(&KEY16, &code, 1234, None));
    assert!(V1::verify_and_parse(&KEY32, "not a code", 1234, None).is_none());
    assert!(V1::parse_pre("").is_none());
}

#[test]
fn v1_unbound_code_accepts_any_binding() {
    let code = V1::generate(&KEY32, 5, 360, 720, 3, None).expect("generate");
    assert!(V1::verify(&KEY32, &code, 5, Some(42)));
}

#[test]
fn v1_expired_code_rejected() {
    let code = V1::generate(&KEY32, 5, 0, 720, 3, None).expect("generate");
    let d = V1::parse_pre(&code).expect("parse");
    let later = Some(d.gen_ts + 1);
    assert!(V1::verify_and_parse_at(&KEY32, &code, 5, None, later).is_none());
    assert_eq!(V1::verify_and_parse_at(&KEY32, &code, 5, None, Some(d.gen_ts)), Some(d));
    assert!(V1::verify_and_parse_at(&KEY32, &code, 5, None, None).is_none());
}

#[test]
fn generate_refuses_bad_key_length() {
    assert!(V1::generate(&[0u8; 24], 1, 1, 1, 1, None).is_none());
    assert!(V2::generate(&[0u8; 8], 1, 1, 1, 1, None).is_none());
}

#[test]
fn v2_generate_then_verify_and_parse() {
    let code = V2::generate(&KEY32, 4321, 600, 86400, 1, Some(8)).expect("generate");
    let d = V2::verify_and_parse(&KEY32, &code, 4321, Some(8)).expect("verify");
    assert_eq!(d.product_id, 4321);
    assert_eq!(d.code_valid_duration, 600);
    assert_eq!(d.use_max_duration, 86400);
    assert_eq!(d.max_uses, 1);
    assert_eq!(d.prebind, 8);
    assert!(V2::verify(&KEY32, &code, 4321, Some(8)));
    assert!(!V2::verify(&KEY32, &code, 4321, Some(9)));
    assert!(!V2::verify(&KEY16, &code, 4321, Some(8)));
}

#[test]
fn v2_description_is_not_in_clear() {
    let code = V2::generate(&KEY32, 4321, 600, 86400, 1, None).expect("generate");
    assert!(V1::parse_pre(&code).is_none());
    assert!(!V1::verify(&KEY32, &code, 4321, None));
}

#[test]
fn versions_do_not_cross() {
    let code = V1::generate(&KEY32, 1, 600, 600, 1, None).expect("generate");
    assert!(!V2::verify(&KEY32, &code, 1, None));
}

#[test]
fn v1_accept_decrypted_checks_payload() {
    let d = CodeDesc { gen_ts: 100, code_valid_duration: 50, use_max_duration: 1, max_uses: 1, product_id: 1, prebind: 0 };
    let bytes = d.to_plaintext_bytes();
    let mut payload = bytes.to_vec();
    payload.extend_from_slice(&[0u8; 16]);
    assert_eq!(V1::accept_decrypted(d, &bytes, Some(payload.clone()), Some(150)), Some(d));
    assert_eq!(V1::accept_decrypted(d, &bytes, Some(payload.clone()), Some(151)), None);
    assert_eq!(V1::accept_decrypted(d, &bytes, None, Some(120)), None);
    payload[0] ^= 1;
    assert_eq!(V1::accept_decrypted(d, &bytes, Some(payload), Some(120)), None);
}

#[test]
fn generate_and_verify_at_explicit_readings() {
    let t0: u64 = 1_700_000_000;
    let code = V1::generate_at(&KEY32, 1234, 360, 360, 1, None, Some(t0)).expect("generate");
    let desc = CodeDesc {
        gen_ts: t0,
        code_valid_duration: 360,
        use_max_duration: 360,
        max_uses: 1,
        product_id: 1234,
        prebind: 0,
    };
    assert_eq!(V1::verify_and_parse_at(&KEY32, &code, 1234, Some(9), Some(t0 + 360)), Some(desc));
    assert!(V1::verify_at(&KEY32, &code, 1234, None, Some(t0)));
    assert!(!V1::verify_at(&KEY32, &code, 1234, None, Some(t0 + 361)));
    assert!(!V1::verify_at(&KEY32, &code, 1234, None, None));

    let code2 = V2::generate_at(&KEY16, 77, 10, 20, 3, Some(5), Some(t0)).expect("generate");
    assert!(V2::verify_at(&KEY16, &code2, 77, Some(5), Some(t0 + 10)));
    assert!(!V2::verify_at(&KEY16, &code2, 77, Some(6), Some(t0)));
    assert!(!V2::verify_at(&KEY16, &code2, 77, Some(5), Some(t0 + 11)));

    assert_eq!(V1::generate_at(&KEY32, 1, 10, 10, 1, None, None), None);
    assert_eq!(V2::generate_at(&KEY32, 1, 10, 10, 1, None, Some(u64::MAX - 15)), None);
    assert_eq!(V1::generate_at(&[0u8; 24], 1, 10, 10, 1, None, Some(t0)), None);
}
