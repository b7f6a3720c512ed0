use code_auth::ecc::{EccCipher, P256, P384, Secp256k1};
use code_auth::kdf::{HkdfSha256, Kdf};

#[test]
fn test_three_curves_keypair_sizes() {
    let (p256_pub, p256_pri) = P256::generate_keypair().expect("P-256 keypair");
    assert_eq!(p256_pub.len(), 33);
    assert_eq!(p256_pri.len(), 32);

    let (k256_pub, k256_pri) = Secp256k1::generate_keypair().expect("secp256k1 keypair");
    assert_eq!(k256_pub.len(), 33);
    assert_eq!(k256_pri.len(), 32);

    let (p384_pub, p384_pri) = P384::generate_keypair().expect("P-384 keypair");
    assert_eq!(p384_pub.len(), 49);
    assert_eq!(p384_pri.len(), 48);
}

#[test]
fn test_three_curves_signature_sizes() {
    let msg = b"test message";

    let (_, p256_pri) = P256::generate_keypair().expect("P-256 keypair");
    let p256_sig = P256::sign(&p256_pri, msg).expect("P-256 sign");
    assert_eq!(p256_sig.len(), 64);

    let (_, k256_pri) = Secp256k1::generate_keypair().expect("secp256k1 keypair");
    let k256_sig = Secp256k1::sign(&k256_pri, msg).expect("secp256k1 sign");
    assert_eq!(k256_sig.len(), 64);

    let (_, p384_pri) = P384::generate_keypair().expect("P-384 keypair");
    let p384_sig = P384::sign(&p384_pri, msg).expect("P-384 sign");
    assert_eq!(p384_sig.len(), 96);
}

#[test]
fn test_three_curves_ecdh_shared_key_sizes() {
    let (p256_pub, _) = P256::generate_keypair().expect("P-256 keypair");
    let (_, p256_shared) = P256::ecdh(&p256_pub).expect("P-256 ECDH");
    assert_eq!(p256_shared.len(), 32);

    let (k256_pub, _) = Secp256k1::generate_keypair().expect("secp256k1 keypair");
    let (_, k256_shared) = Secp256k1::ecdh(&k256_pub).expect("secp256k1 ECDH");
    assert_eq!(k256_shared.len(), 32);

    let (p384_pub, _) = P384::generate_keypair().expect("P-384 keypair");
    let (_, p384_shared) = P384::ecdh(&p384_pub).expect("P-384 ECDH");
    assert_eq!(p384_shared.len(), 48);
}

#[test]
fn test_p256_persistent_and_ephemeral_ecdh_consistency() {
    let (pub_a, pri_a) = P256::generate_keypair().expect("Alice keypair");
    let (pub_b, pri_b) = P256::generate_keypair().expect("Bob keypair");
    let shared1 = P256::ecdh_with_key(&pri_a, &pub_b).expect("ECDH with key");
    let shared2 = P256::ecdh_with_key(&pri_b, &pub_a).expect("ECDH with key");
    assert_eq!(shared1, shared2);
}

#[test]
fn test_secp256k1_persistent_and_ephemeral_ecdh_consistency() {
    let (pub_a, pri_a) = Secp256k1::generate_keypair().expect("Alice keypair");
    let (pub_b, pri_b) = Secp256k1::generate_keypair().expect("Bob keypair");
    let shared1 = Secp256k1::ecdh_with_key(&pri_a, &pub_b).expect("ECDH with key");
    let shared2 = Secp256k1::ecdh_with_key(&pri_b, &pub_a).expect("ECDH with key");
    assert_eq!(shared1, shared2);
}

#[test]
fn test_p384_persistent_and_ephemeral_ecdh_consistency() {
    let (pub_a, pri_a) = P384::generate_keypair().expect("Alice keypair");
    let (pub_b, pri_b) = P384::generate_keypair().expect("Bob keypair");
    let shared1 = P384::ecdh_with_key(&pri_a, &pub_b).expect("ECDH with key");
    let shared2 = P384::ecdh_with_key(&pri_b, &pub_a).expect("ECDH with key");
    assert_eq!(shared1, shared2);
}

fn sign_and_verify<C: EccCipher>(sig_size: usize) {
    let (pub_key, pri_key) = C::generate_keypair().expect("keypair");
    let message = b"Hello, curve!".to_vec();
    let signature = C::sign(&pri_key, &message).expect("sign");
    assert_eq!(signature.len(), sig_size);
    assert!(C::verify(&pub_key, &message, &signature));
    assert!(!C::verify(&pub_key, b"Wrong message", &signature));
}

#[test]
fn p256_sign_and_verify() {
    sign_and_verify::<P256>(64);
}

#[test]
fn secp256k1_sign_and_verify() {
    sign_and_verify::<Secp256k1>(64);
}

#[test]
fn p384_sign_and_verify() {
    sign_and_verify::<P384>(96);
}

#[test]
fn signing_is_deterministic() {
    let (_, pri) = P256::generate_keypair().expect("keypair");
    let a = P256::sign(&pri, b"same message").expect("sign");
    let b = P256::sign(&pri, b"same message").expect("sign");
    assert_eq!(a, b);
}

#[test]
fn verify_with_other_key_fails() {
    let (_, pri) = Secp256k1::generate_keypair().expect("keypair");
    let (other_pub, _) = Secp256k1::generate_keypair().expect("keypair");
    let sig = Secp256k1::sign(&pri, b"message").expect("sign");
    assert!(!Secp256k1::verify(&other_pub, b"message", &sig));
    assert!(!Secp256k1::verify(b"not a key", b"message", &sig));
}

#[test]
fn sign_with_zero_scalar_fails() {
    assert!(P256::sign(&[0u8; 32], b"message").is_none());
    assert!(P384::sign(&[0u8; 48], b"message").is_none());
}

fn ephemeral_agrees_with_persistent<C: EccCipher>(pub_size: usize) {
    let (alice_pub, alice_pri) = C::generate_keypair().expect("keypair");
    let (eph_pub, shared) = C::ecdh(&alice_pub).expect("ECDH");
    assert_eq!(eph_pub.len(), pub_size);
    let again = C::ecdh_with_key(&alice_pri, &eph_pub).expect("ECDH with key");
    assert_eq!(shared, again);
}

#[test]
fn p256_ephemeral_agrees_with_persistent() {
    ephemeral_agrees_with_persistent::<P256>(33);
}

#[test]
fn secp256k1_ephemeral_agrees_with_persistent() {
    ephemeral_agrees_with_persistent::<Secp256k1>(33);
}

#[test]
fn p384_ephemeral_agrees_with_persistent() {
    ephemeral_agrees_with_persistent::<P384>(49);
}

#[test]
fn ecdh_kdf_matches_receiver_derivation() {
    let (alice_pub, alice_pri) = P256::generate_keypair().expect("keypair");
    let salt = b"test_salt_p256_tests".to_vec();
    let (eph_pub, derived) = P256::ecdh_kdf_hkdf256(&alice_pub, &salt, 32).expect("HKDF derive");
    assert_eq!(eph_pub.len(), 33);
    assert_eq!(derived.len(), 32);
    let raw = P256::ecdh_with_key(&alice_pri, &eph_pub).expect("ECDH with key");
    let receiver = HkdfSha256::derive(&raw, &salt, 32).expect("derive");
    assert_eq!(derived, receiver);
}

#[test]
fn ecdh_kdf_output_length_limits() {
    let (alice_pub, _) = P384::generate_keypair().expect("keypair");
    assert!(P384::ecdh_kdf_hkdf256(&alice_pub, b"salt", 0).is_none());
    assert!(P384::ecdh_kdf_hkdf256(&alice_pub, b"salt", 8161).is_none());
    assert_eq!(
        P384::ecdh_kdf_hkdf256(&alice_pub, b"salt", 8160).map(|(_, k)| k.len()),
        Some(8160)
    );
}

#[test]
fn ecdh_with_invalid_peer_fails() {
    assert!(P256::ecdh(b"not a point").is_none());
    assert!(Secp256k1::ecdh(&[0u8; 33]).is_none());
    let (_, pri) = P384::generate_keypair().expect("keypair");
    assert!(P384::ecdh_with_key(&pri, &[2u8; 10]).is_none());
}

#[test]
fn unreadable_key_refused_before_signature_length() {
    assert!(!P256::verify(b"not a key", b"message", &[0u8; 10]));
    assert!(!P384::verify(&[], b"message", &[]));
}

#[test]
fn malformed_private_keys_and_signatures_are_refused() {
    let (pub_key, pri_key) = P256::generate_keypair().expect("keypair");
    assert!(P256::sign(&pri_key[..31], b"message").is_none());
    assert!(P256::sign(&[1u8; 33], b"message").is_none());
    let sig = P256::sign(&pri_key, b"message").expect("sign");
    assert!(!P256::verify(&pub_key, b"message", &sig[..63]));
    assert!(!P256::verify(&pub_key, b"message", &[0u8; 10]));
    let (pub384, pri384) = P384::generate_keypair().expect("keypair");
    assert!(P384::sign(&pri384[..32], b"message").is_none());
    let sig384 = P384::sign(&pri384, b"message").expect("sign");
    assert!(!P384::verify(&pub384, b"message", &sig384[..64]));
    let (pubk, prik) = Secp256k1::generate_keypair().expect("keypair");
    assert!(Secp256k1::sign(&prik[..16], b"message").is_none());
    let sigk = Secp256k1::sign(&prik, b"message").expect("sign");
    assert!(!Secp256k1::verify(&pubk, b"message", &[sigk.as_slice(), &[0u8]].concat()));
}
