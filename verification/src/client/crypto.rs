//! The client's session-key operations, in the form where keys are passed by
//! value and an encrypted message travels as separate ciphertext, tag and iv.

use vstd::prelude::*;
use super::ClientError;
use crate::crypto::{open_message, seals_message, MessageOpening, RsaPrivateKey, RsaPublicKey};
use crate::message::EncryptedModel;
use crate::primitives::{
    aes_256_gcm_decrypt, aes_256_gcm_encrypt, random_fill, rsa_key_pair_checks, rsa_pkcs1_message,
    rsa_private_decrypt, rsa_private_key_size, rsa_private_size, rsa_public_encrypt,
    rsa_public_key_of, rsa_public_key_size, rsa_sha3_256_valid, rsa_sha3_256_verify,
};
use vstd::utf8::encode_utf8;
use openssl::error::ErrorStack;

verus! {

/// What opening an encrypted session key gives in this form, where the key
/// is decrypted first and the signature checked after.
pub enum KeyReceipt {
    /// What decryption gives is not settled here: the own key pair's parts do
    /// not fit together, or the decrypted block is not a validly padded message
    /// (OpenSSL then reports an error or, from version 3.2, hands back a
    /// synthetic key). Whatever it gives, the signature is checked after.
    Undetermined,
    /// OpenSSL reported an error while checking the signature.
    Failure,
    /// The signature does not check.
    BadSignature,
    /// The session key.
    Key(Seq<u8>),
}

/// Opening an encrypted session key in this form: decrypt with the own key
/// pair, then check `signature` over the encrypted key under the sender's
/// public key.
pub open spec fn receive_session_key(
    enc: Seq<u8>,
    signature: Seq<u8>,
    dec_der: Seq<u8>,
    verifier_der: Seq<u8>,
) -> KeyReceipt {
    if rsa_key_pair_checks(dec_der) != Some(true) {
        KeyReceipt::Undetermined
    } else {
        match rsa_pkcs1_message(dec_der, enc) {
            None => KeyReceipt::Undetermined,
            Some(key) => match rsa_sha3_256_valid(verifier_der, enc, signature) {
                None => KeyReceipt::Failure,
                Some(false) => KeyReceipt::BadSignature,
                Some(true) => KeyReceipt::Key(key),
            },
        }
    }
}

/// A symmetric session key.
pub struct SessionKey {
    session_key: Vec<u8>,
}

impl View for SessionKey {
    type V = Seq<u8>;

    closed spec fn view(&self) -> Seq<u8> {
        self.session_key@
    }
}

impl SessionKey {
    /// The given key, or a random 256-bit key when none is given.
    pub fn new(given_key: Option<Vec<u8>>) -> (key: Result<Self, ErrorStack>)
        ensures
            match given_key {
                Some(k) => key matches Ok(s) && s@ == k@,
                None => key matches Ok(s) ==> s@.len() == 32,
            },
    {
        match given_key {
            None => {
                let mut session_key: Vec<u8> = vec![0u8; 32];
                random_fill(session_key.as_mut_slice())?;
                Ok(SessionKey { session_key })
            },
            Some(session_key) => Ok(SessionKey { session_key }),
        }
    }

    /// Uses RSA to encrypt the session key for the holder of `pub_key`, and signs
    /// the result with `sign_key`. The encrypted key takes as many bytes as the
    /// signing key is long, so that key must not be shorter than `pub_key`.
    pub fn encrypt_session_key(self, pub_key: RsaPublicKey, sign_key: RsaPrivateKey) -> (result:
        Result<(Vec<u8>, Vec<u8>), ErrorStack>)
        requires
            self@.len() <= i32::MAX,
            forall|a: nat, b: nat|
                rsa_private_key_size(sign_key@) == Some(a) && rsa_public_key_size(pub_key@) == Some(b)
                    ==> b <= a,
        ensures
            result matches Ok((enc, signature)) ==> crate::crypto::seals_session_key(
                self@,
                pub_key@,
                sign_key@,
                enc@,
                signature@,
            ),
            rsa_private_key_size(sign_key@) is None ==> result is Err,
            rsa_public_key_size(pub_key@) is None ==> result is Err,
    {
        let size = rsa_private_size(sign_key.der())?;
        let mut enc_key: Vec<u8> = vec![0u8; size as usize];
        let ghost zeros = enc_key@;
        let written = rsa_public_encrypt(
            pub_key.der(),
            self.session_key.as_slice(),
            enc_key.as_mut_slice(),
        )?;
        proof {
            assert forall|i: int| written <= i < enc_key@.len() implies enc_key@[i] == 0u8 by {
                assert(enc_key@.skip(written as int)[i - written] == zeros.skip(written as int)[i
                    - written]);
            }
        }
        crate::crypto::sign_encrypted_key(enc_key, &sign_key)
    }

    /// Encrypts and signs the session key as [`SessionKey::encrypt_session_key`]
    /// does, where the signing key is at least as long as `pub_key`; `None`,
    /// with nothing encrypted, where it is shorter or either key does not parse.
    pub fn try_encrypt_session_key(self, pub_key: RsaPublicKey, sign_key: RsaPrivateKey) -> (result:
        Option<Result<(Vec<u8>, Vec<u8>), ErrorStack>>)
        requires
            self@.len() <= i32::MAX,
        ensures
            match result {
                None => !crate::client::key_sizes_fit(sign_key@, pub_key@),
                Some(r) => crate::client::key_sizes_fit(sign_key@, pub_key@) && (r matches Ok(
                    (enc, signature),
                ) ==> crate::crypto::seals_session_key(
                    self@,
                    pub_key@,
                    sign_key@,
                    enc@,
                    signature@,
                )),
            },
    {
        let sign_size = match rsa_private_size(sign_key.der()) {
            Ok(n) => n,
            Err(_) => return None,
        };
        let public_size = match crate::primitives::rsa_public_size(pub_key.der()) {
            Ok(n) => n,
            Err(_) => return None,
        };
        if public_size > sign_size {
            return None;
        }
        Some(self.encrypt_session_key(pub_key, sign_key))
    }

    /// The opposite of [`SessionKey::encrypt_session_key`]: decrypts the
    /// session key with the own `dec_key`, then checks `signature` over the
    /// encrypted key with the sender's `verifier_key`. Returns the key and the
    /// signature. OpenSSL cannot decrypt more than `i32::MAX` bytes.
    pub fn decrypt_session_key(
        enc_session_key: Vec<u8>,
        signature: Vec<u8>,
        dec_key: RsaPrivateKey,
        verifier_key: RsaPublicKey,
    ) -> (result: Result<(Self, Vec<u8>), ClientError>)
        requires
            enc_session_key@.len() <= i32::MAX,
        ensures
            match receive_session_key(enc_session_key@, signature@, dec_key@, verifier_key@) {
                KeyReceipt::Undetermined => match result {
                    Ok((_, s)) => s@ == signature@ && rsa_sha3_256_valid(
                        verifier_key@,
                        enc_session_key@,
                        signature@,
                    ) == Some(true),
                    Err(ClientError::InvalidSignature) => rsa_sha3_256_valid(
                        verifier_key@,
                        enc_session_key@,
                        signature@,
                    ) == Some(false),
                    Err(e) => e is SslError,
                },
                KeyReceipt::Failure => result matches Err(ClientError::SslError(_)),
                KeyReceipt::BadSignature => result matches Err(ClientError::InvalidSignature),
                KeyReceipt::Key(key) => result matches Ok((k, s)) && s@ == signature@ && k@ == key,
            },
    {
        let size = match rsa_private_size(dec_key.der()) {
            Ok(n) => n,
            Err(e) => return Err(ClientError::SslError(e)),
        };
        let mut dec_session_key: Vec<u8> = vec![0u8; size as usize];
        let length = match rsa_private_decrypt(
            dec_key.der(),
            enc_session_key.as_slice(),
            dec_session_key.as_mut_slice(),
        ) {
            Ok(n) => n,
            Err(e) => return Err(ClientError::SslError(e)),
        };
        dec_session_key.truncate(length);
        let valid = match rsa_sha3_256_verify(
            verifier_key.der(),
            enc_session_key.as_slice(),
            signature.as_slice(),
        ) {
            Ok(v) => v,
            Err(e) => return Err(ClientError::SslError(e)),
        };
        if valid {
            match SessionKey::new(Some(dec_session_key)) {
                Ok(key) => Ok((key, signature)),
                Err(e) => Err(ClientError::SslError(e)),
            }
        } else {
            Err(ClientError::InvalidSignature)
        }
    }

    /// Uses AES-256-GCM to encrypt a message under the session key, with a fresh
    /// random 12-byte iv and a 16-byte tag; returns the ciphertext, the tag and
    /// the iv. OpenSSL takes neither a key nor a message longer than `i32::MAX`
    /// bytes.
    pub fn session_encrypt_message(self, message: String) -> (result: Result<
        (Vec<u8>, Vec<u8>, Vec<u8>),
        ClientError,
    >)
        requires
            self@.len() <= i32::MAX,
            encode_utf8(message@).len() <= i32::MAX,
        ensures
            match result {
                Ok((ciphertext, tag, iv)) => seals_message(
                    self@,
                    message@,
                    EncryptedModel { iv: iv@, ciphertext: ciphertext@, tag: tag@ },
                ),
                Err(e) => e is SslError,
            },
    {
        let mut iv: Vec<u8> = vec![0u8; 12];
        match random_fill(iv.as_mut_slice()) {
            Ok(()) => {},
            Err(e) => return Err(ClientError::SslError(e)),
        }
        let aad: [u8; 0] = [];
        let mut tag: Vec<u8> = vec![0u8; 16];
        let encrypted_message = match aes_256_gcm_encrypt(
            self.session_key.as_slice(),
            iv.as_slice(),
            &aad,
            message.as_str().as_bytes(),
            tag.as_mut_slice(),
        ) {
            Ok(c) => c,
            Err(e) => return Err(ClientError::SslError(e)),
        };
        assert(aad@ =~= Seq::<u8>::empty());
        Ok((encrypted_message, tag, iv))
    }

    /// Uses AES-256-GCM to decrypt a message under the session key. OpenSSL
    /// takes no key, iv, ciphertext or tag longer than `i32::MAX` bytes.
    pub fn session_decrypt_message(self, enc_message: Vec<u8>, tag: Vec<u8>, iv: Vec<u8>) -> (result:
        Result<String, ClientError>)
        requires
            self@.len() <= i32::MAX,
            enc_message@.len() <= i32::MAX,
            tag@.len() <= i32::MAX,
            iv@.len() <= i32::MAX,
        ensures
            match open_message(
                self@,
                EncryptedModel { iv: iv@, ciphertext: enc_message@, tag: tag@ },
            ) {
                MessageOpening::Failure => result matches Err(ClientError::SslError(_)),
                MessageOpening::NotText => result matches Err(ClientError::InvalidConversion(_)),
                MessageOpening::Text(text) => result matches Ok(s) && s@ == text,
            },
    {
        let aad: [u8; 0] = [];
        assert(aad@ =~= Seq::<u8>::empty());
        let plain = match aes_256_gcm_decrypt(
            self.session_key.as_slice(),
            iv.as_slice(),
            &aad,
            enc_message.as_slice(),
            tag.as_slice(),
        ) {
            Ok(p) => p,
            Err(e) => return Err(ClientError::SslError(e)),
        };
        match crate::primitives::string_from_utf8(plain) {
            Ok(text) => Ok(text),
            Err(e) => Err(ClientError::InvalidConversion(e)),
        }
    }
}

/// In this form too, a session key encrypted and signed for a peer is opened
/// by that peer to the same key, when the sender's signing key and the peer's
/// public key have the same size and the parts of both key pairs fit together.
pub proof fn lemma_receive_session_key_roundtrip(
    key: Seq<u8>,
    sender_pair: Seq<u8>,
    sender_public: Seq<u8>,
    receiver_pair: Seq<u8>,
    receiver_public: Seq<u8>,
    enc: Seq<u8>,
    signature: Seq<u8>,
)
    requires
        rsa_public_key_of(sender_pair) == Some(sender_public),
        rsa_public_key_of(receiver_pair) == Some(receiver_public),
        rsa_key_pair_checks(sender_pair) == Some(true),
        rsa_key_pair_checks(receiver_pair) == Some(true),
        rsa_public_key_size(receiver_public) == rsa_private_key_size(sender_pair),
        crate::crypto::seals_session_key(key, receiver_public, sender_pair, enc, signature),
    ensures
        receive_session_key(enc, signature, receiver_pair, sender_public) == KeyReceipt::Key(key),
{
    let k = rsa_public_key_size(receiver_public)->Some_0;
    assert(enc.take(k as int) =~= enc);
    assert(rsa_pkcs1_message(receiver_pair, enc.take(k as int)) == Some(key));
    assert(rsa_sha3_256_valid(sender_public, enc, signature) == Some(true));
}

} // verus!
