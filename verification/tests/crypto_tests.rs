use omega::crypto;

fn keypair(seed: u8) -> (Vec<u8>, Vec<u8>) {
    let secret: Vec<u8> = (0..56).map(|i| seed.wrapping_add(i as u8) | 1).collect();
    let public = crypto::x448_derive_public(&secret).expect("56-byte secret");
    (secret, public)
}

#[test]
fn encrypt_decrypt_roundtrip() {
    let (sk_a, pk_a) = keypair(3);
    let (sk_b, pk_b) = keypair(9);
    let plaintext = b"the quick brown fox".to_vec();
    let ct = crypto::encrypt(&sk_a, &pk_b, &plaintext).expect("encrypts");
    assert_ne!(ct, plaintext);
    let pt = crypto::decrypt(&sk_b, &pk_a, &ct).expect("decrypts");
    assert_eq!(pt, plaintext);
}

#[test]
fn encrypt_then_decrypt_is_identity() {
    let (sk_a, _) = keypair(17);
    let (sk_b, _) = keypair(42);
    let plaintext = b"challenge-nonce-0123456789abcdef".to_vec();
    let pt = crypto::encrypt_then_decrypt(&sk_a, &sk_b, &plaintext).expect("round trips");
    assert_eq!(pt, plaintext);
}

#[test]
fn tampered_ciphertext_fails_authentication() {
    let (sk_a, pk_a) = keypair(3);
    let (sk_b, pk_b) = keypair(9);
    let plaintext = b"the quick brown fox".to_vec();
    let mut ct = crypto::encrypt(&sk_a, &pk_b, &plaintext).expect("encrypts");
    ct[0] ^= 0x01;
    assert_eq!(
        crypto::decrypt(&sk_b, &pk_a, &ct),
        Err(crypto::CryptoError::AuthenticationFailed)
    );
}

#[test]
fn short_secret_is_refused() {
    let short = vec![1u8; 10];
    let (_, pk_b) = keypair(9);
    assert_eq!(
        crypto::encrypt(&short, &pk_b, &b"x".to_vec()),
        Err(crypto::CryptoError::InvalidKeyMaterial)
    );
}

#[test]
fn keypair_from_stored_roundtrip() {
    let (sk, _) = keypair(5);
    let b64 = crypto::public_key_to_b64(&sk);
    let loaded = crypto::keypair_from_stored(&b64).expect("valid material");
    assert_eq!(loaded, sk);
}

#[test]
fn keypair_from_stored_rejects_bad_input() {
    assert!(crypto::keypair_from_stored("not base64 !!!").is_err());
    assert!(crypto::keypair_from_stored("AAAA").is_err());
}

#[test]
fn public_from_b64_accepts_derived_keys() {
    let (_, pk) = keypair(11);
    let b64 = crypto::public_key_to_b64(&pk);
    assert_eq!(crypto::public_from_b64(&b64).expect("valid"), pk);
}

#[test]
fn public_from_b64_rejects_wrong_length() {
    let b64 = crypto::public_key_to_b64(&vec![1u8; 10]);
    assert!(crypto::public_from_b64(&b64).is_err());
}

#[test]
fn hex_decode_exact() {
    assert_eq!(crypto::hex_decode("0aFf"), Some(vec![0x0a, 0xff]));
    assert_eq!(crypto::hex_decode(""), Some(vec![]));
    assert_eq!(crypto::hex_decode("abc"), None);
    assert_eq!(crypto::hex_decode("zz"), None);
}

#[test]
fn websocket_accept_key_matches_known_vector() {
    assert_eq!(
        crypto::calculate_accept_key("dGhlIHNhbXBsZSBub25jZQ=="),
        "s3pPLMBiTxaQ9kYGzzhZRbK+xOo="
    );
}
