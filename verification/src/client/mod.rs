//! The chat client: its errors, and how it reads the server's replies while it
//! waits for a connection to a peer.

use vstd::prelude::*;
use crate::crypto::{
    open_message, open_session_key, seals_session_key, KeyOpening, MessageOpening, RsaPrivateKey,
    RsaPublicKey, SessionKey,
};
use crate::message::{Clientbound, ClientboundModel, Serverbound, ServerboundModel};
use crate::primitives::{
    rsa_private_key_size, rsa_public_der, rsa_public_key_of, rsa_public_key_size,
    rsa_sha3_256_valid, rsa_sha3_256_verify, sha256, sha256_digest,
};
use openssl::error::ErrorStack;
use std::string::FromUtf8Error;

pub mod crypto;

verus! {

/// Errors of the chat client.
#[derive(Debug)]
pub enum ClientError {
    /// Reading or writing the server connection failed.
    IoError(std::io::Error),
    /// OpenSSL reported an error.
    SslError(ErrorStack),
    /// A session key arrived with a signature that does not check.
    InvalidSignature,
    /// A decrypted message is not UTF-8 text.
    InvalidConversion(FromUtf8Error),
    /// The server ended the connection, with its reason when it gave one.
    ServerShutdown { reason: Option<String> },
    /// The server sent a packet that does not fit the client's state.
    InvalidMessage { message: Clientbound },
}

/// The SHA-256 digest of the DER encoding of the public half of `keypair`.
pub fn hash_pub_key(keypair: &RsaPrivateKey) -> (hash: Result<Vec<u8>, ClientError>)
    ensures
        match rsa_public_key_of(keypair@) {
            Some(public) => hash matches Ok(h) && h@ == sha256_digest(public) && h@.len() == 32,
            None => hash matches Err(ClientError::SslError(_)),
        },
{
    let public = match rsa_public_der(keypair.der()) {
        Ok(der) => der,
        Err(e) => return Err(ClientError::SslError(e)),
    };
    Ok(sha256(public.as_slice()))
}

/// What the client does with one reply of the server while it waits for its
/// connection request to be answered.
#[derive(Debug)]
pub enum ConnectStep {
    /// The server is still waiting for the peer: read the next reply.
    Wait,
    /// The connection is made and this client chooses the session key, to be
    /// encrypted for the peer's public key.
    ChooseKey { dst_public_key: Vec<u8> },
    /// The connection is made and the peer has chosen the session key.
    UseKey { dst_public_key: Vec<u8>, session_key: Vec<u8>, signature: Vec<u8> },
    /// The server refused the request; the client may try another peer.
    Refused { reason: String },
    /// The attempt failed for good.
    Failed(ClientError),
}

/// Reads one reply of the server (`None` once the connection has closed) while
/// the client waits for its connection request to be answered.
pub fn connect_step(reply: Option<Result<Clientbound, std::io::Error>>) -> (step: ConnectStep)
    ensures
        match reply {
            None => step matches ConnectStep::Failed(ClientError::ServerShutdown { reason: None }),
            Some(Err(e)) => step matches ConnectStep::Failed(ClientError::IoError(f)) && f == e,
            Some(Ok(packet)) => match packet@ {
                ClientboundModel::ConnectWaiting => step is Wait,
                ClientboundModel::ChooseKey { dst_public_key } => step matches ConnectStep::ChooseKey {
                    dst_public_key: k,
                } && k@ == dst_public_key,
                ClientboundModel::UseKey { dst_public_key, session_key, signature } =>
                    step matches ConnectStep::UseKey { dst_public_key: k, session_key: s, signature: g }
                    && k@ == dst_public_key && s@ == session_key && g@ == signature,
                ClientboundModel::ConnectFail { reason } => step matches ConnectStep::Refused {
                    reason: r,
                } && r@ == reason,
                ClientboundModel::Shutdown { message } => step matches ConnectStep::Failed(
                    ClientError::ServerShutdown { reason: Some(r) },
                ) && r@ == message,
                ClientboundModel::Message(_) => step matches ConnectStep::Failed(
                    ClientError::InvalidMessage { message: m },
                ) && m == packet,
            },
        },
{
    match reply {
        None => ConnectStep::Failed(ClientError::ServerShutdown { reason: None }),
        Some(Err(e)) => ConnectStep::Failed(ClientError::IoError(e)),
        Some(Ok(packet)) => match packet {
            Clientbound::ConnectWaiting => ConnectStep::Wait,
            Clientbound::ChooseKey { dst_public_key } => ConnectStep::ChooseKey { dst_public_key },
            Clientbound::UseKey { dst_public_key, session_key, signature } => ConnectStep::UseKey {
                dst_public_key,
                session_key,
                signature,
            },
            Clientbound::ConnectFail { reason } => ConnectStep::Refused { reason },
            Clientbound::Shutdown { message } => ConnectStep::Failed(
                ClientError::ServerShutdown { reason: Some(message) },
            ),
            other => ConnectStep::Failed(ClientError::InvalidMessage { message: other }),
        },
    }
}

/// Both keys parse, and the peer's public key is not longer than the own key
/// pair.
pub open spec fn key_sizes_fit(own_pair: Seq<u8>, peer_public: Seq<u8>) -> bool {
    rsa_private_key_size(own_pair) matches Some(a) && rsa_public_key_size(peer_public) matches Some(b)
        && b <= a
}

/// Answers the server's `ChooseKey`: generates a session key, encrypts it for
/// the peer's public key and signs it with the own key pair, and gives the
/// `UseKey` packet that carries it. A peer key that does not parse, or is
/// longer than the own key, makes the `ChooseKey` packet invalid.
pub fn choose_session_key(keypair: &RsaPrivateKey, dst_public_key: Vec<u8>) -> (result: Result<
    (SessionKey, Serverbound),
    ClientError,
>)
    ensures
        match result {
            Ok((key, packet)) => key@.len() == 32 && (packet@ matches ServerboundModel::UseKey {
                session_key,
                signature,
            } && seals_session_key(key@, dst_public_key@, keypair@, session_key, signature)),
            Err(ClientError::InvalidMessage { message }) => message@ == (ClientboundModel::ChooseKey {
                dst_public_key: dst_public_key@,
            }) && !key_sizes_fit(keypair@, dst_public_key@),
            Err(e) => e is SslError,
        },
{
    let key = match SessionKey::generate() {
        Ok(k) => k,
        Err(e) => return Err(ClientError::SslError(e)),
    };
    let peer = RsaPublicKey::from_der(dst_public_key);
    match key.try_encrypt_session_key(&peer, keypair) {
        None => Err(
            ClientError::InvalidMessage {
                message: Clientbound::ChooseKey { dst_public_key: vstd::slice::slice_to_vec(peer.der()) },
            },
        ),
        Some(Err(e)) => Err(ClientError::SslError(e)),
        Some(Ok((session_key, signature))) => Ok((key, Serverbound::UseKey { session_key, signature })),
    }
}

/// Whether `packet` is the `UseKey` packet with these fields.
pub open spec fn is_use_key_packet(
    packet: Clientbound,
    dst_public_key: Seq<u8>,
    session_key: Seq<u8>,
    signature: Seq<u8>,
) -> bool {
    packet@ == (ClientboundModel::UseKey { dst_public_key, session_key, signature })
}

/// Answers the server's `UseKey`: opens the session key the peer chose,
/// checking its signature with the peer's public key first. OpenSSL cannot
/// decrypt more than `i32::MAX` bytes, so a validly signed encrypted key that
/// long makes the `UseKey` packet invalid.
pub fn accept_session_key(
    keypair: &RsaPrivateKey,
    dst_public_key: Vec<u8>,
    session_key: Vec<u8>,
    signature: Vec<u8>,
) -> (result: Result<SessionKey, ClientError>)
    ensures
        ({
            let too_long = session_key@.len() > i32::MAX && rsa_sha3_256_valid(
                dst_public_key@,
                session_key@,
                signature@,
            ) == Some(true);
            &&& too_long ==> (result matches Err(ClientError::InvalidMessage { message })
                && is_use_key_packet(message, dst_public_key@, session_key@, signature@))
            &&& !too_long ==> match open_session_key(
                session_key@,
                signature@,
                keypair@,
                dst_public_key@,
            ) {
                KeyOpening::Failure => result matches Err(ClientError::SslError(_)),
                KeyOpening::BadSignature => result matches Err(ClientError::InvalidSignature),
                KeyOpening::Undetermined => result is Ok || result matches Err(
                    ClientError::SslError(_),
                ),
                KeyOpening::Key(key) => result matches Ok(k) && k@ == key,
            }
        }),
{
    if session_key.len() > 2147483647 {
        match rsa_sha3_256_verify(dst_public_key.as_slice(), session_key.as_slice(), signature.as_slice()) {
            Err(e) => return Err(ClientError::SslError(e)),
            Ok(false) => return Err(ClientError::InvalidSignature),
            Ok(true) => return Err(
                ClientError::InvalidMessage {
                    message: Clientbound::UseKey { dst_public_key, session_key, signature },
                },
            ),
        }
    }
    let peer = RsaPublicKey::from_der(dst_public_key);
    SessionKey::decrypt_session_key(session_key, signature, keypair, &peer)
}

/// What a chatting client does with one packet from the server (`None` once
/// the connection has closed).
#[derive(Debug)]
pub enum ChatEvent {
    /// The connection closed.
    Closed,
    /// The chat ended with this error.
    Ended(ClientError),
    /// A chat message arrived: its text, or why it could not be read.
    Received(Result<String, ClientError>),
}

/// Reads one packet from the server while chatting under the session key: a
/// message is decrypted, a shutdown or a failing connection ends the chat, and
/// any other packet is reported as invalid. OpenSSL takes no key, and no part
/// of a message, longer than `i32::MAX` bytes.
pub fn chat_event(key: &SessionKey, packet: Option<Result<Clientbound, std::io::Error>>) -> (event:
    ChatEvent)
    requires
        key@.len() <= i32::MAX,
        packet matches Some(Ok(p)) && p@ matches ClientboundModel::Message(e) ==> e.fits_openssl(),
    ensures
        match packet {
            None => event is Closed,
            Some(Err(e)) => event matches ChatEvent::Ended(ClientError::IoError(f)) && f == e,
            Some(Ok(p)) => match p@ {
                ClientboundModel::Shutdown { message } => event matches ChatEvent::Ended(
                    ClientError::ServerShutdown { reason: Some(r) },
                ) && r@ == message,
                ClientboundModel::Message(e) => match open_message(key@, e) {
                    MessageOpening::Failure => event matches ChatEvent::Received(
                        Err(ClientError::SslError(_)),
                    ),
                    MessageOpening::NotText => event matches ChatEvent::Received(
                        Err(ClientError::InvalidConversion(_)),
                    ),
                    MessageOpening::Text(text) => event matches ChatEvent::Received(Ok(s)) && s@
                        == text,
                },
                _ => event matches ChatEvent::Received(Err(ClientError::InvalidMessage { message }))
                    && message == p,
            },
        },
{
    match packet {
        None => ChatEvent::Closed,
        Some(Err(e)) => ChatEvent::Ended(ClientError::IoError(e)),
        Some(Ok(Clientbound::Shutdown { message })) => ChatEvent::Ended(
            ClientError::ServerShutdown { reason: Some(message) },
        ),
        Some(Ok(Clientbound::Message(e))) => ChatEvent::Received(key.session_decrypt_message(e)),
        Some(Ok(other)) => ChatEvent::Received(Err(ClientError::InvalidMessage { message: other })),
    }
}

} // verus!
