//! Key pairs, key fingerprints, and the session key that encrypts a chat.
//!
//! The chat uses hybrid encryption: one client chooses a random 256-bit session
//! key, encrypts it with RSA for the peer and signs the result; every chat
//! message is then encrypted with AES-256-GCM under the session key.

use vstd::prelude::*;
use crate::client::ClientError;
use crate::message::{Encrypted, EncryptedModel};
use crate::primitives::{
    aes_256_gcm_decrypt, aes_256_gcm_encrypt, aes_256_gcm_open, aes_256_gcm_seal, base64_encode,
    base64_encoding, random_fill, rsa_generate, rsa_key_pair_checks, rsa_pkcs1_message,
    rsa_private_decrypt,
    rsa_private_key_size, rsa_private_size, rsa_public_der, rsa_public_encrypt, rsa_public_key_of,
    rsa_public_key_size, rsa_public_size, rsa_sha3_256_sign, rsa_sha3_256_valid,
    rsa_sha3_256_verify, sha3_256, sha3_256_digest, string_from_utf8,
};
use openssl::error::ErrorStack;
use vstd::utf8::{decode_utf8, encode_utf8, valid_utf8};

verus! {

/// An RSA key pair, held as its DER-encoded PKCS#1 `RSAPrivateKey` structure.
pub struct RsaPrivateKey {
    der: Vec<u8>,
}

/// An RSA public key, held as its DER-encoded `SubjectPublicKeyInfo` structure.
pub struct RsaPublicKey {
    der: Vec<u8>,
}

impl View for RsaPrivateKey {
    type V = Seq<u8>;

    closed spec fn view(&self) -> Seq<u8> {
        self.der@
    }
}

impl View for RsaPublicKey {
    type V = Seq<u8>;

    closed spec fn view(&self) -> Seq<u8> {
        self.der@
    }
}

impl RsaPrivateKey {
    /// The key pair with this PKCS#1 DER encoding. The bytes are checked when the
    /// key is used: a key that does not parse makes each operation fail.
    pub fn from_der(der: Vec<u8>) -> (key: Self)
        ensures
            key@ == der@,
    {
        RsaPrivateKey { der }
    }

    /// The key pair's PKCS#1 DER encoding.
    pub fn der(&self) -> (der: &[u8])
        ensures
            der@ == self@,
    {
        self.der.as_slice()
    }

    /// The public half of the key pair.
    pub fn public_key(&self) -> (public: Result<RsaPublicKey, ErrorStack>)
        ensures
            match public {
                Ok(p) => rsa_public_key_of(self@) == Some(p@),
                Err(_) => rsa_public_key_of(self@) is None,
            },
    {
        match rsa_public_der(self.der.as_slice()) {
            Ok(der) => Ok(RsaPublicKey { der }),
            Err(e) => Err(e),
        }
    }
}

impl RsaPublicKey {
    /// The public key with this SubjectPublicKeyInfo DER encoding. The bytes are
    /// checked when the key is used.
    pub fn from_der(der: Vec<u8>) -> (key: Self)
        ensures
            key@ == der@,
    {
        RsaPublicKey { der }
    }

    /// The key's SubjectPublicKeyInfo DER encoding.
    pub fn der(&self) -> (der: &[u8])
         ensures
            der@ == self@,
    {
        self.der.as_slice()
    }
}

/// Generates the client's RSA key pair, of `keysize` bits or else 2048.
pub fn generate_keypair(keysize: Option<u32>) -> (keypair: Result<RsaPrivateKey, ClientError>)
    ensures
        match keypair {
            Ok(k) => rsa_private_key_size(k@) == Some(
                ((match keysize {
                    Some(bits) => bits,
                    None => 2048u32,
                } + 7) / 8) as nat,
            ) && rsa_public_key_of(k@) is Some && rsa_key_pair_checks(k@) == Some(true),
            Err(e) => e is SslError,
        },
{
    let bits = match keysize {
        Some(bits) => bits,
        None => 2048,
    };
    match rsa_generate(bits) {
        Ok(der) => Ok(RsaPrivateKey { der }),
        Err(e) => Err(ClientError::SslError(e)),
    }
}

/// The base64 text of the SHA3-256 digest of `buf`.
pub open spec fn fingerprint_text(buf: Seq<u8>) -> Seq<char> {
    base64_encoding(sha3_256_digest(buf))
}

/// Calculates the base64'd SHA3-256 hash of a buffer. Fails only where the
/// OpenSSL build offers no SHA3-256.
pub fn sha3_256_base64(buf: &[u8]) -> (hash: Result<String, ErrorStack>)
    ensures
        hash matches Ok(h) ==> h@ == fingerprint_text(buf@),
{
    let digest = sha3_256(buf)?;
    Ok(base64_encode(digest.as_slice()))
}

/// Hashes the public half of a key pair: the fingerprint that identifies a
/// user without telling the server anything about the key.
pub fn hash_pub_key(keypair: &RsaPrivateKey) -> (hash: Result<String, ErrorStack>)
    ensures
        hash matches Ok(h) ==> rsa_public_key_of(keypair@) matches Some(public) && h@
            == fingerprint_text(public),
        rsa_public_key_of(keypair@) is None ==> hash is Err,
{
    let public = rsa_public_der(keypair.der.as_slice())?;
    sha3_256_base64(public.as_slice())
}

/// `enc` and `signature` carry `key` from the holder of the key pair `sign_der`
/// to the holder of the key pair whose public half is `public_der`: `enc` is as
/// long as the signing key, starts with an RSA encryption of `key` that such a
/// key pair (one whose parts fit together) opens, and is zero after it; and
/// `signature` is a SHA3-256 RSA signature of `enc` that the public half of
/// `sign_der` accepts when the parts of `sign_der` fit together.
pub open spec fn seals_session_key(
    key: Seq<u8>,
    public_der: Seq<u8>,
    sign_der: Seq<u8>,
    enc: Seq<u8>,
    signature: Seq<u8>,
) -> bool {
    &&& rsa_private_key_size(sign_der) == Some(enc.len())
    &&& rsa_public_key_size(public_der) matches Some(k) && k <= enc.len()
    &&& forall|pair: Seq<u8>|
        rsa_key_pair_checks(pair) == Some(true) && rsa_public_key_of(pair) == Some(public_der)
            ==> #[trigger] rsa_pkcs1_message(
            pair,
            enc.take(rsa_public_key_size(public_der)->Some_0 as int),
        ) == Some(key)
    &&& forall|i: int| rsa_public_key_size(public_der)->Some_0 <= i < enc.len() ==> enc[i] == 0u8
    &&& forall|verifier: Seq<u8>|
        rsa_key_pair_checks(sign_der) == Some(true) && rsa_public_key_of(sign_der) == Some(
            verifier,
        ) ==> #[trigger] rsa_sha3_256_valid(verifier, enc, signature) == Some(true)
}

/// What opening an encrypted session key gives.
pub enum KeyOpening {
    /// OpenSSL reported an error.
    Failure,
    /// The signature does not check.
    BadSignature,
    /// The signature checks, but what decryption gives is not settled here:
    /// the own key pair's parts do not fit together, or the decrypted block is
    /// not a validly padded message (OpenSSL then reports an error or, from
    /// version 3.2, hands back a synthetic key in its place).
    Undetermined,
    /// The session key.
    Key(Seq<u8>),
}

/// Opening an encrypted, signed session key: the signature is checked with the
/// sender's public key first, then the key is decrypted with the receiver's
/// key pair.
pub open spec fn open_session_key(
    enc: Seq<u8>,
    signature: Seq<u8>,
    dec_der: Seq<u8>,
    verifier_der: Seq<u8>,
) -> KeyOpening {
    match rsa_sha3_256_valid(verifier_der, enc, signature) {
        None => KeyOpening::Failure,
        Some(false) => KeyOpening::BadSignature,
        Some(true) => if rsa_key_pair_checks(dec_der) == Some(true) {
            match rsa_pkcs1_message(dec_der, enc) {
                None => KeyOpening::Undetermined,
                Some(key) => KeyOpening::Key(key),
            }
        } else {
            KeyOpening::Undetermined
        },
    }
}

/// `e` is `text` encrypted under `key`: a 12-byte iv, the AES-256-GCM
/// encryption of the UTF-8 bytes of `text` with no additional data, and its
/// 16-byte tag, which decryption with the same key and iv accepts. GCM is a
/// stream mode: the ciphertext is as long as the text's bytes.
pub open spec fn seals_message(key: Seq<u8>, text: Seq<char>, e: EncryptedModel) -> bool {
    &&& e.iv.len() == 12
    &&& e.tag.len() == 16
    &&& e.ciphertext.len() == encode_utf8(text).len()
    &&& aes_256_gcm_seal(key, e.iv, Seq::empty(), encode_utf8(text), 16) == Some(
        (e.ciphertext, e.tag),
    )
    &&& aes_256_gcm_open(key, e.iv, Seq::empty(), e.ciphertext, e.tag) == Some(encode_utf8(text))
}

/// What decrypting a message gives.
pub enum MessageOpening {
    /// The tag does not authenticate the ciphertext, or OpenSSL reported an error.
    Failure,
    /// The plaintext is not UTF-8.
    NotText,
    /// The message text.
    Text(Seq<char>),
}

/// Decrypting a message under `key`.
pub open spec fn open_message(key: Seq<u8>, e: EncryptedModel) -> MessageOpening {
    match aes_256_gcm_open(key, e.iv, Seq::empty(), e.ciphertext, e.tag) {
        None => MessageOpening::Failure,
        Some(plain) => if valid_utf8(plain) {
            MessageOpening::Text(decode_utf8(plain))
        } else {
            MessageOpening::NotText
        },
    }
}

/// Signs an RSA-encrypted session key with SHA3-256 under `sign_key`: the
/// encrypted key, unchanged, and its signature, which the public half of
/// `sign_key` accepts when the parts of `sign_key` fit together. A signing key
/// that does not parse makes it fail; whether OpenSSL's signing, which draws
/// random numbers, succeeds otherwise is up to OpenSSL.
pub fn sign_encrypted_key(enc_key: Vec<u8>, sign_key: &RsaPrivateKey) -> (result: Result<
    (Vec<u8>, Vec<u8>),
    ErrorStack,
>)
    ensures
        result matches Ok((enc, signature)) ==> enc@ == enc_key@ && forall|verifier: Seq<u8>|
            rsa_key_pair_checks(sign_key@) == Some(true) && rsa_public_key_of(sign_key@) == Some(
                verifier,
            ) ==> #[trigger] rsa_sha3_256_valid(verifier, enc_key@, signature@) == Some(true),
        rsa_private_key_size(sign_key@) is None ==> result is Err,
{
    let signature = rsa_sha3_256_sign(sign_key.der.as_slice(), enc_key.as_slice())?;
    Ok((enc_key, signature))
}

/// A symmetric session key.
pub struct SessionKey {
    session_key: Vec<u8>,
}

impl View for SessionKey {
    type V = Seq<u8>;

    closed spec fn view(&self) -> Seq<u8> {
        self.session_key@
    }
}

impl SessionKey {
    /// Randomly generates a 256-bit session key.
    pub fn generate() -> (key: Result<Self, ErrorStack>)
        ensures
            key matches Ok(k) ==> k@.len() == 32,
    {
        let mut session_key: Vec<u8> = vec![0u8; 32];
        random_fill(session_key.as_mut_slice())?;
        Ok(SessionKey { session_key })
    }

    /// The key's bytes.
    pub fn as_bytes(&self) -> (bytes: &[u8])
        ensures
            bytes@ == self@,
    {
        self.session_key.as_slice()
    }

    /// Uses RSA to encrypt the session key for the holder of `pub_key`, and signs
    /// the result with `sign_key`. The encrypted key takes as many bytes as the
    /// signing key is long, so that key must not be shorter than `pub_key`.
    pub fn encrypt_session_key(&self, pub_key: &RsaPublicKey, sign_key: &RsaPrivateKey) -> (result:
        Result<(Vec<u8>, Vec<u8>), ErrorStack>)
        requires
            self@.len() <= i32::MAX,
            forall|a: nat, b: nat|
                rsa_private_key_size(sign_key@) == Some(a) && rsa_public_key_size(pub_key@) == Some(b)
                    ==> b <= a,
        ensures
            result matches Ok((enc, signature)) ==> seals_session_key(
                self@,
                pub_key@,
                sign_key@,
                enc@,
                signature@,
            ),
            rsa_private_key_size(sign_key@) is None ==> result is Err,
            rsa_public_key_size(pub_key@) is None ==> result is Err,
    {
        let size = rsa_private_size(sign_key.der.as_slice())?;
        let mut enc_key: Vec<u8> = vec![0u8; size as usize];
        let ghost zeros = enc_key@;
        let written = rsa_public_encrypt(
            pub_key.der.as_slice(),
            self.session_key.as_slice(),
            enc_key.as_mut_slice(),
        )?;
        proof {
            assert forall|i: int| written <= i < enc_key@.len() implies enc_key@[i] == 0u8 by {
                assert(enc_key@.skip(written as int)[i - written] == zeros.skip(written as int)[i
                    - written]);
            }
        }
        sign_encrypted_key(enc_key, sign_key)
    }

    /// Encrypts and signs the session key as [`SessionKey::encrypt_session_key`]
    /// does, where the signing key is at least as long as `pub_key`; `None`,
    /// with nothing encrypted, where it is shorter or either key does not parse.
    pub fn try_encrypt_session_key(
        &self,
        pub_key: &RsaPublicKey,
        sign_key: &RsaPrivateKey,
    ) -> (result: Option<Result<(Vec<u8>, Vec<u8>), ErrorStack>>)
        requires
            self@.len() <= i32::MAX,
        ensures
            match result {
                None => !(rsa_private_key_size(sign_key@) matches Some(a) && rsa_public_key_size(
                    pub_key@,
                ) matches Some(b) && b <= a),
                Some(r) => rsa_private_key_size(sign_key@) matches Some(a) && rsa_public_key_size(
                    pub_key@,
                ) matches Some(b) && b <= a && (r matches Ok((enc, signature))
                    ==> seals_session_key(self@, pub_key@, sign_key@, enc@, signature@)),
            },
    {
        let sign_size = match rsa_private_size(sign_key.der.as_slice()) {
            Ok(n) => n,
            Err(_) => return None,
        };
        let public_size = match rsa_public_size(pub_key.der.as_slice()) {
            Ok(n) => n,
            Err(_) => return None,
        };
        if public_size > sign_size {
            return None;
        }
        Some(self.encrypt_session_key(pub_key, sign_key))
    }

    /// Opens a session key: checks `signature` over `enc_session_key` with the
    /// sender's `verifier_key`, then decrypts it with the own `dec_key`. OpenSSL
    /// cannot decrypt more than `i32::MAX` bytes, so an encrypted key that long
    /// must not carry a valid signature.
    pub fn decrypt_session_key(
        enc_session_key: Vec<u8>,
        signature: Vec<u8>,
        dec_key: &RsaPrivateKey,
        verifier_key: &RsaPublicKey,
    ) -> (result: Result<Self, ClientError>)
        requires
            rsa_sha3_256_valid(verifier_key@, enc_session_key@, signature@) == Some(true)
                ==> enc_session_key@.len() <= i32::MAX,
        ensures
            match open_session_key(enc_session_key@, signature@, dec_key@, verifier_key@) {
                KeyOpening::Failure => result matches Err(ClientError::SslError(_)),
                KeyOpening::BadSignature => result matches Err(ClientError::InvalidSignature),
                KeyOpening::Undetermined => result is Ok || result matches Err(
                    ClientError::SslError(_),
                ),
                KeyOpening::Key(key) => result matches Ok(k) && k@ == key,
            },
    {
        let valid = match rsa_sha3_256_verify(
            verifier_key.der.as_slice(),
            enc_session_key.as_slice(),
            signature.as_slice(),
        ) {
            Ok(v) => v,
            Err(e) => return Err(ClientError::SslError(e)),
        };
        if valid {
            let size = match rsa_private_size(dec_key.der.as_slice()) {
                Ok(n) => n,
                Err(e) => return Err(ClientError::SslError(e)),
            };
            let mut dec_session_key: Vec<u8> = vec![0u8; size as usize];
            let length = match rsa_private_decrypt(
                dec_key.der.as_slice(),
                enc_session_key.as_slice(),
                dec_session_key.as_mut_slice(),
            ) {
                Ok(n) => n,
                Err(e) => return Err(ClientError::SslError(e)),
            };
            dec_session_key.truncate(length);
            Ok(SessionKey { session_key: dec_session_key })
        } else {
            Err(ClientError::InvalidSignature)
        }
    }

    /// Uses AES-256-GCM to encrypt a message under the session key, with a fresh
    /// random 12-byte iv and a 16-byte tag. OpenSSL takes neither a key nor a
    /// message longer than `i32::MAX` bytes.
    pub fn session_encrypt_message(&self, message: String) -> (result: Result<Encrypted, ClientError>)
        requires
            self@.len() <= i32::MAX,
            encode_utf8(message@).len() <= i32::MAX,
        ensures
            match result {
                Ok(e) => seals_message(self@, message@, e@),
                Err(e) => e is SslError,
            },
    {
        let mut iv: Vec<u8> = vec![0u8; 12];
        match random_fill(iv.as_mut_slice()) {
            Ok(()) => {},
            Err(e) => return Err(ClientError::SslError(e)),
        }
        let aad: [u8; 0] = [];
        let mut tag: Vec<u8> = vec![0u8; 16];
        let ciphertext = match aes_256_gcm_encrypt(
            self.session_key.as_slice(),
            iv.as_slice(),
            &aad,
            message.as_str().as_bytes(),
            tag.as_mut_slice(),
        ) {
            Ok(c) => c,
            Err(e) => return Err(ClientError::SslError(e)),
        };
        assert(aad@ =~= Seq::<u8>::empty());
        Ok(Encrypted { iv, ciphertext, tag })
    }

    /// Uses AES-256-GCM to decrypt a message under the session key. OpenSSL
    /// takes no key, iv, ciphertext or tag longer than `i32::MAX` bytes.
    pub fn session_decrypt_message(&self, message: Encrypted) -> (result: Result<String, ClientError>)
        requires
            self@.len() <= i32::MAX,
            message@.fits_openssl(),
        ensures
            match open_message(self@, message@) {
                MessageOpening::Failure => result matches Err(ClientError::SslError(_)),
                MessageOpening::NotText => result matches Err(ClientError::InvalidConversion(_)),
                MessageOpening::Text(text) => result matches Ok(s) && s@ == text,
            },
    {
        let aad: [u8; 0] = [];
        assert(aad@ =~= Seq::<u8>::empty());
        let plain = match aes_256_gcm_decrypt(
            self.session_key.as_slice(),
            message.iv.as_slice(),
            &aad,
            message.ciphertext.as_slice(),
            message.tag.as_slice(),
        ) {
            Ok(p) => p,
            Err(e) => return Err(ClientError::SslError(e)),
        };
        match string_from_utf8(plain) {
            Ok(text) => Ok(text),
            Err(e) => Err(ClientError::InvalidConversion(e)),
        }
    }
}

/// A session key encrypted and signed for a peer is opened by that peer to the
/// same key, when the sender's signing key and the peer's public key have the
/// same size (as keys of one size chosen by both clients do) and the parts of
/// both key pairs fit together (as they do in generated keys).
pub proof fn lemma_session_key_roundtrip(
    key: Seq<u8>,
    sender_pair: Seq<u8>,
    sender_public: Seq<u8>,
    receiver_pair: Seq<u8>,
    receiver_public: Seq<u8>,
    enc: Seq<u8>,
    signature: Seq<u8>,
)
    requires
        rsa_public_key_of(sender_pair) == Some(sender_public),
        rsa_public_key_of(receiver_pair) == Some(receiver_public),
        rsa_key_pair_checks(sender_pair) == Some(true),
        rsa_key_pair_checks(receiver_pair) == Some(true),
        rsa_public_key_size(receiver_public) == rsa_private_key_size(sender_pair),
        seals_session_key(key, receiver_public, sender_pair, enc, signature),
    ensures
        open_session_key(enc, signature, receiver_pair, sender_public) == KeyOpening::Key(key),
{
    let k = rsa_public_key_size(receiver_public)->Some_0;
    assert(enc.take(k as int) =~= enc);
    assert(rsa_pkcs1_message(receiver_pair, enc.take(k as int)) == Some(key));
    assert(rsa_sha3_256_valid(sender_public, enc, signature) == Some(true));
}

/// A message encrypted under a session key decrypts, under the same key, to the
/// same text.
pub proof fn lemma_message_roundtrip(key: Seq<u8>, text: Seq<char>, e: EncryptedModel)
    requires
        seals_message(key, text, e),
    ensures
        open_message(key, e) == MessageOpening::Text(text),
{
    vstd::utf8::encode_utf8_valid_utf8(text);
    vstd::utf8::encode_utf8_decode_utf8(text);
}

} // verus!
