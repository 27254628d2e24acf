use garble::client::ClientError;
use garble::crypto::{
    generate_keypair, hash_pub_key, sha3_256_base64, sign_encrypted_key, RsaPrivateKey, RsaPublicKey, SessionKey,
};
use garble::message::Encrypted;

fn keypair(bits: u32) -> (RsaPrivateKey, RsaPublicKey) {
    let pair = generate_keypair(Some(bits)).expect("key generation");
    let public = pair.public_key().expect("public half");
    (pair, public)
}

#[test]
fn sha3_256_base64_known_values() {
    assert_eq!(sha3_256_base64(b"").unwrap(), "p//G+L8e12ZRwUdWoGHWYvWA/03kO0n6gtgKS4D4Q0o=");
    assert_eq!(sha3_256_base64(b"abc").unwrap(), "Ophdp0/iJbIEXBcta9OQvYVfCG4+nVJbRr/iRRFDFTI=");
    assert_eq!(sha3_256_base64(b"garble").unwrap(), "XVp4Fke2nXdvtCKaK3A4fk+jHFgm0FQpJz5m3SrMXI8=");
}

#[test]
fn hash_pub_key_hashes_the_public_der() {
    let (pair, public) = keypair(1024);
    let expected = sha3_256_base64(public.der()).unwrap();
    assert_eq!(hash_pub_key(&pair).unwrap(), expected);
    let native = openssl::rsa::Rsa::private_key_from_der(pair.der()).unwrap();
    assert_eq!(public.der(), &native.public_key_to_der().unwrap()[..]);
}

#[test]
fn generated_key_sizes() {
    let (pair, _) = keypair(1024);
    let native = openssl::rsa::Rsa::private_key_from_der(pair.der()).unwrap();
    assert_eq!(native.size(), 128);
}

#[test]
fn default_key_size_is_2048_bits() {
    let pair = generate_keypair(None).unwrap();
    let native = openssl::rsa::Rsa::private_key_from_der(pair.der()).unwrap();
    assert_eq!(native.size(), 256);
}

#[test]
fn bad_key_der_fails() {
    let bad = RsaPrivateKey::from_der(vec![1, 2, 3]);
    assert!(bad.public_key().is_err());
    assert!(hash_pub_key(&bad).is_err());
}

#[test]
fn session_key_is_256_bits() {
    let a = SessionKey::generate().unwrap();
    let b = SessionKey::generate().unwrap();
    assert_eq!(a.as_bytes().len(), 32);
    assert_ne!(a.as_bytes(), b.as_bytes());
}

#[test]
fn session_key_roundtrip() {
    let (alice, alice_pub) = keypair(1024);
    let (bob, bob_pub) = keypair(1024);
    let key = SessionKey::generate().unwrap();
    let (enc, signature) = key.encrypt_session_key(&bob_pub, &alice).unwrap();
    assert_eq!(enc.len(), 128);
    assert_ne!(&enc[..32], key.as_bytes());
    let opened = SessionKey::decrypt_session_key(enc, signature, &bob, &alice_pub).unwrap();
    assert_eq!(opened.as_bytes(), key.as_bytes());
}

#[test]
fn session_key_with_wrong_sender_is_refused() {
    let (alice, _) = keypair(1024);
    let (bob, bob_pub) = keypair(1024);
    let (_, mallory_pub) = keypair(1024);
    let key = SessionKey::generate().unwrap();
    let (enc, signature) = key.encrypt_session_key(&bob_pub, &alice).unwrap();
    let result = SessionKey::decrypt_session_key(enc, signature, &bob, &mallory_pub);
    assert!(matches!(result, Err(ClientError::InvalidSignature)));
}

#[test]
fn session_key_with_tampered_ciphertext_is_refused() {
    let (alice, alice_pub) = keypair(1024);
    let (bob, bob_pub) = keypair(1024);
    let key = SessionKey::generate().unwrap();
    let (mut enc, signature) = key.encrypt_session_key(&bob_pub, &alice).unwrap();
    enc[5] ^= 1;
    let result = SessionKey::decrypt_session_key(enc, signature, &bob, &alice_pub);
    assert!(matches!(result, Err(ClientError::InvalidSignature)));
}

#[test]
fn session_key_for_someone_else_does_not_decrypt() {
    let (alice, alice_pub) = keypair(1024);
    let (_, bob_pub) = keypair(1024);
    let (carol, _) = keypair(1024);
    let key = SessionKey::generate().unwrap();
    let (enc, signature) = key.encrypt_session_key(&bob_pub, &alice).unwrap();
    let result = SessionKey::decrypt_session_key(enc, signature, &carol, &alice_pub);
    assert!(matches!(result, Err(ClientError::SslError(_))));
}

#[test]
fn encrypted_key_is_as_long_as_the_signing_key() {
    let (alice, alice_pub) = keypair(2048);
    let (_, bob_pub) = keypair(1024);
    let key = SessionKey::generate().unwrap();
    let (enc, _signature) = key.encrypt_session_key(&bob_pub, &alice).unwrap();
    assert_eq!(enc.len(), 256);
    assert!(enc[128..].iter().all(|b| *b == 0));
    let _ = alice_pub;
}

#[test]
fn try_encrypt_refuses_a_short_signing_key() {
    let (alice, _) = keypair(1024);
    let (_, bob_pub) = keypair(2048);
    let key = SessionKey::generate().unwrap();
    assert!(key.try_encrypt_session_key(&bob_pub, &alice).is_none());
    let bad = RsaPublicKey::from_der(vec![0]);
    assert!(key.try_encrypt_session_key(&bad, &alice).is_none());
}

#[test]
fn try_encrypt_encrypts_with_fitting_keys() {
    let (alice, alice_pub) = keypair(1024);
    let (bob, bob_pub) = keypair(1024);
    let key = SessionKey::generate().unwrap();
    let (enc, sig) = key.try_encrypt_session_key(&bob_pub, &alice).unwrap().unwrap();
    let opened = SessionKey::decrypt_session_key(enc, sig, &bob, &alice_pub).unwrap();
    assert_eq!(opened.as_bytes(), key.as_bytes());
}

#[test]
fn encrypt_with_bad_signing_key_fails() {
    let (_, bob_pub) = keypair(1024);
    let key = SessionKey::generate().unwrap();
    let bad = RsaPrivateKey::from_der(vec![0, 1]);
    assert!(key.encrypt_session_key(&bob_pub, &bad).is_err());
}

#[test]
fn message_roundtrip() {
    let key = SessionKey::generate().unwrap();
    let text = "Hello, Bob! ünïcödé ✓".to_string();
    let e = key.session_encrypt_message(text.clone()).unwrap();
    assert_eq!(e.iv.len(), 12);
    assert_eq!(e.tag.len(), 16);
    assert_eq!(e.ciphertext.len(), text.len());
    assert_ne!(&e.ciphertext[..], text.as_bytes());
    assert_eq!(key.session_decrypt_message(e).unwrap(), text);
}

#[test]
fn message_encryption_matches_aes_256_gcm() {
    let key = SessionKey::generate().unwrap();
    let e = key.session_encrypt_message("abc".to_string()).unwrap();
    let plain = openssl::symm::decrypt_aead(
        openssl::symm::Cipher::aes_256_gcm(),
        key.as_bytes(),
        Some(&e.iv),
        &[],
        &e.ciphertext,
        &e.tag,
    )
    .unwrap();
    assert_eq!(plain, b"abc");
}

#[test]
fn tampered_message_is_refused() {
    let key = SessionKey::generate().unwrap();
    let mut e = key.session_encrypt_message("secret".to_string()).unwrap();
    e.ciphertext[0] ^= 0x80;
    assert!(matches!(key.session_decrypt_message(e), Err(ClientError::SslError(_))));
}

#[test]
fn message_under_other_key_is_refused() {
    let key = SessionKey::generate().unwrap();
    let other = SessionKey::generate().unwrap();
    let e = key.session_encrypt_message("secret".to_string()).unwrap();
    assert!(matches!(other.session_decrypt_message(e), Err(ClientError::SslError(_))));
}

#[test]
fn non_utf8_plaintext_is_refused() {
    let key = SessionKey::generate().unwrap();
    let iv = vec![7u8; 12];
    let mut tag = vec![0u8; 16];
    let ciphertext = openssl::symm::encrypt_aead(
        openssl::symm::Cipher::aes_256_gcm(),
        key.as_bytes(),
        Some(&iv),
        &[],
        &[0xff, 0xfe],
        &mut tag,
    )
    .unwrap();
    let e = Encrypted { iv, ciphertext, tag };
    assert!(matches!(key.session_decrypt_message(e), Err(ClientError::InvalidConversion(_))));
}

#[test]
fn empty_message_roundtrip() {
    let key = SessionKey::generate().unwrap();
    let e = key.session_encrypt_message(String::new()).unwrap();
    assert!(e.ciphertext.is_empty());
    assert_eq!(key.session_decrypt_message(e).unwrap(), "");
}

#[test]
fn encrypted_clone_is_equal() {
    let e = Encrypted { iv: vec![1], ciphertext: vec![2, 3], tag: vec![4] };
    assert_eq!(e.clone(), e);
}

#[test]
fn signed_encrypted_key_checks_under_the_public_half() {
    let (alice, alice_pub) = keypair(1024);
    let (enc, signature) = sign_encrypted_key(vec![1, 2, 3], &alice).unwrap();
    assert_eq!(enc, vec![1, 2, 3]);
    assert_eq!(signature.len(), 128);
    let native = openssl::rsa::Rsa::public_key_from_der(alice_pub.der()).unwrap();
    let pkey = openssl::pkey::PKey::from_rsa(native).unwrap();
    let mut verifier =
        openssl::sign::Verifier::new(openssl::hash::MessageDigest::sha3_256(), &pkey).unwrap();
    verifier.update(&enc).unwrap();
    assert!(verifier.verify(&signature).unwrap());
    let bad = RsaPrivateKey::from_der(vec![9]);
    assert!(sign_encrypted_key(vec![1], &bad).is_err());
}
