use code_auth::aes::{Aes256Gcm, Cipher};
use code_auth::base::Base91;
use code_auth::client::{
    check_session_key, decimal_string, extract_data, license_key, license_valid, open_reply,
    prepare_activation, prepare_renewal, read_exchange_reply, read_session_reply, seal_field,
    session_key_of, AuthClient,
};
use code_auth::code::V1;

const SESSION: [u8; 32] = [0x33u8; 32];

#[test]
fn decimal_text() {
    assert_eq!(decimal_string(0), "0");
    assert_eq!(decimal_string(7), "7");
    assert_eq!(decimal_string(1_700_000_000), "1700000000");
    assert_eq!(decimal_string(u64::MAX), "18446744073709551615");
}

#[test]
fn extract_data_envelope() {
    assert_eq!(extract_data(Some(true), None, Some(5)), Ok(5));
    assert_eq!(
        extract_data::<i32>(None, Some("x".to_string()), Some(5)),
        Err("Missing or invalid 'success' field".to_string())
    );
    assert_eq!(
        extract_data::<i32>(Some(false), Some("denied".to_string()), Some(5)),
        Err("denied".to_string())
    );
    assert_eq!(extract_data::<i32>(Some(false), None, None), Err("Unknown error".to_string()));
    assert_eq!(
        extract_data::<i32>(Some(true), None, None),
        Err("Missing 'data' field in response".to_string())
    );
}

#[test]
fn exchange_replies() {
    let key_text = Base91::encode(b"server key");
    assert_eq!(
        read_exchange_reply(Some("uuid-1".to_string()), Some(key_text.clone())),
        Ok(("uuid-1".to_string(), b"server key".to_vec()))
    );
    assert_eq!(
        read_exchange_reply(None, Some(key_text.clone())),
        Err("Missing 'client_uuid' in exc1 response".to_string())
    );
    assert_eq!(
        read_exchange_reply(Some("u".to_string()), None),
        Err("Missing server pubkey in exc1 response".to_string())
    );
    assert_eq!(
        read_exchange_reply(Some("u".to_string()), Some("not base91 -".to_string())),
        Err("Failed to base91 decode server public key".to_string())
    );
    assert_eq!(read_session_reply(Some(key_text)), Ok(b"server key".to_vec()));
    assert_eq!(read_session_reply(None), Err("Missing 'data' in exc2 response".to_string()));
    assert_eq!(
        read_session_reply(Some(" ".to_string())),
        Err("Failed to base91 decode encrypted session key".to_string())
    );
}

#[test]
fn session_key_length() {
    assert_eq!(session_key_of(Some(vec![1u8; 32])), Ok(vec![1u8; 32]));
    assert_eq!(
        session_key_of(Some(vec![1u8; 16])),
        Err("Invalid session key length: expected 32, got 16".to_string())
    );
    assert_eq!(
        session_key_of(None),
        Err("Failed to decrypt session key with client private key".to_string())
    );
    assert_eq!(check_session_key(&SESSION), Ok(()));
    assert_eq!(
        check_session_key(&[0u8; 5]),
        Err("Invalid session key length: expected 32, got 5".to_string())
    );
}

#[test]
fn sealed_field_opens_back() {
    let field = seal_field(&SESSION, "hello 世界").expect("seal");
    assert_eq!(open_reply(&SESSION, Some(field.clone())), Ok("hello 世界".to_string()));
    assert_eq!(
        open_reply(&[0x34u8; 32], Some(field)),
        Err("Failed to decrypt response data".to_string())
    );
    assert_eq!(
        seal_field(&[0u8; 3], "abc"),
        Err("AES encrypt failed for: abc".to_string())
    );
}

#[test]
fn open_reply_errors() {
    assert_eq!(open_reply(&SESSION, None), Err("Response data is not a string".to_string()));
    assert_eq!(
        open_reply(&SESSION, Some("a b".to_string())),
        Err("Failed to base91 decode response data".to_string())
    );
    let not_utf8 = Aes256Gcm::encrypt(&SESSION, &[0xFF]).expect("encrypt");
    let text = Base91::encode(&not_utf8);
    let err = open_reply(&SESSION, Some(text)).expect_err("not utf-8");
    assert!(err.starts_with("Invalid UTF-8 in response: "));
}

#[test]
fn activation_request_fields() {
    let code = V1::generate(&[0x7Eu8; 32], 1234, 360, 360, 1, None).expect("code");
    let fields = prepare_activation(&code, 1234, "device", true, &SESSION, 1_700_000_000)
        .expect("fields");
    assert_eq!(fields.len(), 4);
    assert_eq!(open_reply(&SESSION, Some(fields[0].clone())), Ok("1700000000".to_string()));
    assert_eq!(open_reply(&SESSION, Some(fields[1].clone())), Ok(code.clone()));
    assert_eq!(open_reply(&SESSION, Some(fields[2].clone())), Ok("1234".to_string()));
    assert_eq!(open_reply(&SESSION, Some(fields[3].clone())), Ok("device".to_string()));

    assert_eq!(
        prepare_activation("bogus", 1, "d", true, &SESSION, 0),
        Err("Failed to parse code: bogus".to_string())
    );
    assert!(prepare_activation("bogus", 1, "d", false, &SESSION, 0).is_ok());
    assert_eq!(
        prepare_activation(&code, 1234, "d", true, &[0u8; 31], 0),
        Err("Invalid session key length: expected 32, got 31".to_string())
    );
}

#[test]
fn renewal_request_fields() {
    let fields = prepare_renewal(&SESSION, 42, Some("tag".to_string()), Some(77), "dev")
        .expect("fields");
    assert_eq!(open_reply(&SESSION, Some(fields[0].clone())), Ok("42".to_string()));
    assert_eq!(open_reply(&SESSION, Some(fields[1].clone())), Ok("tag".to_string()));
    assert_eq!(open_reply(&SESSION, Some(fields[2].clone())), Ok("dev".to_string()));
    assert_eq!(open_reply(&SESSION, Some(fields[3].clone())), Ok("77".to_string()));
    assert_eq!(
        prepare_renewal(&SESSION, 1, None, Some(1), "d"),
        Err("Missing 'tag_sig' in json_str".to_string())
    );
    assert_eq!(
        prepare_renewal(&SESSION, 1, Some("t".to_string()), None, "d"),
        Err("Missing 'product_id' in json_str".to_string())
    );
    assert_eq!(
        prepare_renewal(&[1u8; 2], 1, None, None, "d"),
        Err("Invalid session key length: expected 32, got 2".to_string())
    );
}

#[test]
fn license_key_derivation() {
    let a = license_key("device", "https://example.test/api").expect("key");
    assert_eq!(a.len(), 32);
    assert_eq!(license_key("device", "https://example.test/api"), Ok(a.clone()));
    assert_ne!(license_key("other", "https://example.test/api"), Ok(a));
    assert_eq!(license_key("", "u"), Err("Failed to derive key".to_string()));
}

#[test]
fn license_precheck_rules() {
    assert!(license_valid(Some(5), Some(100), Some(50), 5, 150));
    assert!(!license_valid(Some(5), Some(100), Some(50), 5, 151));
    assert!(!license_valid(Some(6), Some(100), Some(50), 5, 120));
    assert!(!license_valid(Some((1u64 << 32) + 5), Some(100), Some(50), 5, 120));
    assert!(license_valid(Some(5), Some(u64::MAX - 1), Some(10), 5, u64::MAX));
    assert!(!license_valid(None, Some(100), Some(50), 5, 120));
    assert!(!license_valid(Some(5), None, Some(50), 5, 120));
    assert!(!license_valid(Some(5), Some(100), None, 5, 120));
}

#[test]
fn client_state_transitions() {
    let mut c = AuthClient::new(9, "dev".to_string(), None);
    assert_eq!(c.product_id(), 9);
    assert_eq!(c.binding(), "dev");
    assert_eq!(c.session_inputs(), Err("Client not initialized".to_string()));
    assert_eq!(c.renewal_inputs(), Err("Missing license".to_string()));

    let r = c.finish_init(Err("Fetch failed".to_string()));
    assert!(!r.ok);
    assert_eq!(r.err, "Fetch failed");
    assert_eq!(c.session_inputs(), Err("Client not initialized".to_string()));

    let r = c.finish_init(Ok((SESSION.to_vec(), "uuid-7".to_string())));
    assert!(r.ok);
    assert_eq!(r.err, "");
    assert_eq!(c.session_inputs(), Ok(("uuid-7".to_string(), SESSION.to_vec())));

    let r = c.finish_license(Err("denied".to_string()));
    assert!(!r.ok);
    assert_eq!(r.license, "");
    assert_eq!(r.err, "denied");
    assert_eq!(c.license(), None);

    let r = c.finish_license(Ok("LICENSE".to_string()));
    assert!(r.ok);
    assert_eq!(r.license, "LICENSE");
    assert_eq!(c.license(), Some("LICENSE".to_string()));
    assert_eq!(
        c.renewal_inputs(),
        Ok(("LICENSE".to_string(), "uuid-7".to_string(), SESSION.to_vec()))
    );
}

#[test]
fn saved_license_without_session() {
    let c = AuthClient::new(1, "b".to_string(), Some("L".to_string()));
    assert_eq!(c.renewal_inputs(), Err("Client not initialized".to_string()));
    assert_eq!(c.license(), Some("L".to_string()));
}
