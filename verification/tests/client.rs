use garble::client::{
    accept_session_key, chat_event, choose_session_key, connect_step, ChatEvent, ClientError,
    ConnectStep,
};
use garble::crypto::SessionKey;
use garble::message::Serverbound;
use garble::message::{Clientbound, Encrypted};

#[test]
fn waiting_reply() {
    assert!(matches!(connect_step(Some(Ok(Clientbound::ConnectWaiting))), ConnectStep::Wait));
}

#[test]
fn choose_key_reply() {
    let step = connect_step(Some(Ok(Clientbound::ChooseKey { dst_public_key: vec![1, 2] })));
    assert!(matches!(step, ConnectStep::ChooseKey { dst_public_key } if dst_public_key == vec![1, 2]));
}

#[test]
fn use_key_reply() {
    let step = connect_step(Some(Ok(Clientbound::UseKey {
        dst_public_key: vec![1],
        session_key: vec![2],
        signature: vec![3],
    })));
    match step {
        ConnectStep::UseKey { dst_public_key, session_key, signature } => {
            assert_eq!((dst_public_key, session_key, signature), (vec![1], vec![2], vec![3]));
        }
        other => panic!("unexpected {other:?}"),
    }
}

#[test]
fn refused_reply() {
    let step = connect_step(Some(Ok(Clientbound::ConnectFail { reason: "nope".to_string() })));
    assert!(matches!(step, ConnectStep::Refused { reason } if reason == "nope"));
}

#[test]
fn shutdown_reply() {
    let step = connect_step(Some(Ok(Clientbound::Shutdown { message: "bye".to_string() })));
    assert!(matches!(
        step,
        ConnectStep::Failed(ClientError::ServerShutdown { reason: Some(r) }) if r == "bye"
    ));
}

#[test]
fn closed_connection() {
    assert!(matches!(
        connect_step(None),
        ConnectStep::Failed(ClientError::ServerShutdown { reason: None })
    ));
}

#[test]
fn io_error() {
    let e = std::io::Error::new(std::io::ErrorKind::Other, "boom");
    assert!(matches!(
        connect_step(Some(Err(e))),
        ConnectStep::Failed(ClientError::IoError(f)) if f.to_string() == "boom"
    ));
}

#[test]
fn message_is_invalid_while_connecting() {
    let m = Clientbound::Message(Encrypted { iv: vec![1], ciphertext: vec![2], tag: vec![3] });
    let step = connect_step(Some(Ok(m)));
    match step {
        ConnectStep::Failed(ClientError::InvalidMessage { message }) => assert_eq!(
            message,
            Clientbound::Message(Encrypted { iv: vec![1], ciphertext: vec![2], tag: vec![3] })
        ),
        other => panic!("unexpected {other:?}"),
    }
}

#[test]
fn client_hash_pub_key_is_sha256_of_public_der() {
    let pair = garble::crypto::generate_keypair(Some(1024)).unwrap();
    let public = pair.public_key().unwrap();
    let h = garble::client::hash_pub_key(&pair).unwrap();
    assert_eq!(h, openssl::sha::sha256(public.der()).to_vec());
    assert_eq!(h.len(), 32);
    let bad = garble::crypto::RsaPrivateKey::from_der(vec![3]);
    assert!(matches!(garble::client::hash_pub_key(&bad), Err(ClientError::SslError(_))));
}

#[test]
fn chosen_key_is_accepted_by_the_peer() {
    let alice = garble::crypto::generate_keypair(Some(1024)).unwrap();
    let bob = garble::crypto::generate_keypair(Some(1024)).unwrap();
    let alice_pub = alice.public_key().unwrap().der().to_vec();
    let bob_pub = bob.public_key().unwrap().der().to_vec();
    let (key, packet) = choose_session_key(&alice, bob_pub).unwrap();
    assert_eq!(key.as_bytes().len(), 32);
    let (session_key, signature) = match packet {
        Serverbound::UseKey { session_key, signature } => (session_key, signature),
        other => panic!("unexpected {other:?}"),
    };
    let opened = accept_session_key(&bob, alice_pub.clone(), session_key.clone(), signature.clone()).unwrap();
    assert_eq!(opened.as_bytes(), key.as_bytes());
    // Checked against the wrong sender, the key is refused.
    let wrong = accept_session_key(&bob, bob.public_key().unwrap().der().to_vec(), session_key, signature);
    assert!(matches!(wrong, Err(ClientError::InvalidSignature)));
}

#[test]
fn choose_key_for_unusable_peer_key() {
    let alice = garble::crypto::generate_keypair(Some(1024)).unwrap();
    match choose_session_key(&alice, vec![1, 2, 3]) {
        Err(ClientError::InvalidMessage { message }) => {
            assert_eq!(message, Clientbound::ChooseKey { dst_public_key: vec![1, 2, 3] })
        }
        Err(other) => panic!("unexpected {other:?}"),
        Ok(_) => panic!("unexpected success"),
    }
    let big = garble::crypto::generate_keypair(Some(2048)).unwrap();
    let big_pub = big.public_key().unwrap().der().to_vec();
    assert!(matches!(
        choose_session_key(&alice, big_pub),
        Err(ClientError::InvalidMessage { .. })
    ));
}

#[test]
fn chat_events() {
    let key = SessionKey::generate().unwrap();
    let e = key.session_encrypt_message("hello".to_string()).unwrap();
    assert!(matches!(chat_event(&key, Some(Ok(Clientbound::Message(e)))), ChatEvent::Received(Ok(t)) if t == "hello"));
    assert!(matches!(chat_event(&key, None), ChatEvent::Closed));
    assert!(matches!(
        chat_event(&key, Some(Ok(Clientbound::Shutdown { message: "bye".to_string() }))),
        ChatEvent::Ended(ClientError::ServerShutdown { reason: Some(r) }) if r == "bye"
    ));
    let bad = Encrypted { iv: vec![0; 12], ciphertext: vec![1, 2], tag: vec![0; 16] };
    assert!(matches!(
        chat_event(&key, Some(Ok(Clientbound::Message(bad)))),
        ChatEvent::Received(Err(ClientError::SslError(_)))
    ));
    assert!(matches!(
        chat_event(&key, Some(Ok(Clientbound::ConnectWaiting))),
        ChatEvent::Received(Err(ClientError::InvalidMessage { message: Clientbound::ConnectWaiting }))
    ));
    let io = std::io::Error::new(std::io::ErrorKind::Other, "boom");
    assert!(matches!(chat_event(&key, Some(Err(io))), ChatEvent::Ended(ClientError::IoError(_))));
}
