use garble::client::crypto::SessionKey;
use garble::client::ClientError;
use garble::crypto::{generate_keypair, RsaPrivateKey, RsaPublicKey};

fn keypair(bits: u32) -> (RsaPrivateKey, RsaPublicKey) {
    let pair = generate_keypair(Some(bits)).expect("key generation");
    let public = pair.public_key().expect("public half");
    (pair, public)
}

fn copy(k: &RsaPrivateKey) -> RsaPrivateKey {
    RsaPrivateKey::from_der(k.der().to_vec())
}

fn copy_pub(k: &RsaPublicKey) -> RsaPublicKey {
    RsaPublicKey::from_der(k.der().to_vec())
}

#[test]
fn given_key_is_kept() {
    let key = SessionKey::new(Some(vec![9u8; 32])).unwrap();
    let (ct, tag, iv) = key.session_encrypt_message("hi".to_string()).unwrap();
    let same = SessionKey::new(Some(vec![9u8; 32])).unwrap();
    assert_eq!(same.session_decrypt_message(ct, tag, iv).unwrap(), "hi");
}

#[test]
fn random_key_roundtrip() {
    let key = SessionKey::new(None).unwrap();
    let raw = {
        let (ct, tag, iv) = SessionKey::new(Some(vec![1u8; 32]))
            .unwrap()
            .session_encrypt_message("x".to_string())
            .unwrap();
        (ct, tag, iv)
    };
    assert_eq!(raw.1.len(), 16);
    assert_eq!(raw.2.len(), 12);
    let (ct, tag, iv) = key.session_encrypt_message("text".to_string()).unwrap();
    assert_eq!(ct.len(), 4);
    let _ = (tag, iv);
}

#[test]
fn wrong_key_is_refused() {
    let key = SessionKey::new(Some(vec![1u8; 32])).unwrap();
    let (ct, tag, iv) = key.session_encrypt_message("x".to_string()).unwrap();
    let other = SessionKey::new(Some(vec![2u8; 32])).unwrap();
    assert!(matches!(other.session_decrypt_message(ct, tag, iv), Err(ClientError::SslError(_))));
}

#[test]
fn session_key_opens_to_the_same_key() {
    let (alice, alice_pub) = keypair(1024);
    let (bob, bob_pub) = keypair(1024);
    let key = SessionKey::new(Some(vec![5u8; 32])).unwrap();
    let (enc, sig) = key.encrypt_session_key(copy_pub(&bob_pub), copy(&alice)).unwrap();
    assert_eq!(enc.len(), 128);
    let (opened, returned_sig) =
        SessionKey::decrypt_session_key(enc, sig.clone(), copy(&bob), copy_pub(&alice_pub)).unwrap();
    assert_eq!(returned_sig, sig);
    // The opened key is the 32-byte key that was sent: it decrypts what the
    // original key encrypts.
    let (ct, tag, iv) = SessionKey::new(Some(vec![5u8; 32]))
        .unwrap()
        .session_encrypt_message("hello bob".to_string())
        .unwrap();
    assert_eq!(opened.session_decrypt_message(ct, tag, iv).unwrap(), "hello bob");
}

#[test]
fn signature_over_something_else_is_refused() {
    let (alice, alice_pub) = keypair(1024);
    let (bob, bob_pub) = keypair(1024);
    let key = SessionKey::new(Some(vec![5u8; 32])).unwrap();
    let (enc, sig) = key.encrypt_session_key(copy_pub(&bob_pub), copy(&alice)).unwrap();
    // A signature of the signature itself does not cover the encrypted key.
    let native = openssl::rsa::Rsa::private_key_from_der(alice.der()).unwrap();
    let pkey = openssl::pkey::PKey::from_rsa(native).unwrap();
    let mut signer =
        openssl::sign::Signer::new(openssl::hash::MessageDigest::sha3_256(), &pkey).unwrap();
    signer.update(&sig).unwrap();
    let self_sig = signer.sign_to_vec().unwrap();
    let result = SessionKey::decrypt_session_key(enc, self_sig, copy(&bob), alice_pub);
    assert!(matches!(result, Err(ClientError::InvalidSignature)));
}

#[test]
fn signature_by_another_sender_is_refused() {
    let (alice, _) = keypair(1024);
    let (bob, bob_pub) = keypair(1024);
    let (_, mallory_pub) = keypair(1024);
    let key = SessionKey::new(Some(vec![5u8; 32])).unwrap();
    let (enc, sig) = key.encrypt_session_key(copy_pub(&bob_pub), alice).unwrap();
    let result = SessionKey::decrypt_session_key(enc, sig, bob, mallory_pub);
    assert!(matches!(result, Err(ClientError::InvalidSignature)));
}

#[test]
fn undecryptable_key_is_an_ssl_error() {
    let (alice, alice_pub) = keypair(1024);
    let (_, bob_pub) = keypair(1024);
    let (carol, _) = keypair(1024);
    let key = SessionKey::new(Some(vec![5u8; 32])).unwrap();
    let (enc, sig) = key.encrypt_session_key(bob_pub, alice).unwrap();
    let result = SessionKey::decrypt_session_key(enc, sig, carol, alice_pub);
    assert!(matches!(result, Err(ClientError::SslError(_))));
}

#[test]
fn try_encrypt_checks_key_sizes() {
    let (alice, _) = keypair(1024);
    let (_, big_pub) = keypair(2048);
    let key = SessionKey::new(Some(vec![5u8; 32])).unwrap();
    assert!(key.try_encrypt_session_key(big_pub, copy(&alice)).is_none());
    let (_, bob_pub) = keypair(1024);
    let key = SessionKey::new(Some(vec![5u8; 32])).unwrap();
    let (enc, sig) = key.try_encrypt_session_key(bob_pub, alice).unwrap().unwrap();
    assert_eq!((enc.len(), sig.len()), (128, 128));
}
