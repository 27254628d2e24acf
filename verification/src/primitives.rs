//! The cryptographic primitives the chat relies on, provided by OpenSSL.
//!
//! Keys cross this boundary as DER bytes: an RSA key pair as its PKCS#1
//! `RSAPrivateKey` structure, an RSA public key as its `SubjectPublicKeyInfo`
//! structure (what `public_key_to_der` writes). The results that depend on the
//! inputs alone are given names; what OpenSSL computes for them is not restated
//! here. Results that depend on chance (random bytes, key generation, the
//! random padding of RSA encryption) are described only by what holds of every
//! outcome.

use vstd::prelude::*;
use openssl::error::ErrorStack;
use openssl::hash::MessageDigest;
use openssl::pkey::PKey;
use openssl::rsa::{Padding, Rsa};
use openssl::sign::{Signer, Verifier};
use openssl::symm::Cipher;
use std::string::FromUtf8Error;
use vstd::utf8::{decode_utf8, valid_utf8};

verus! {

/// Declares `openssl::error::ErrorStack`, the error OpenSSL reports.
#[verifier::external_type_specification]
#[verifier::external_body]
pub struct ExErrorStack(openssl::error::ErrorStack);

/// Declares `std::string::FromUtf8Error`, the error of decoding bytes that are
/// not UTF-8.
#[verifier::external_type_specification]
#[verifier::external_body]
pub struct ExFromUtf8Error(std::string::FromUtf8Error);

/// The size in bytes (`RSA_size`) of the RSA key pair with this PKCS#1 DER
/// encoding; `None` when the bytes do not parse as one.
pub uninterp spec fn rsa_private_key_size(private_der: Seq<u8>) -> Option<nat>;

/// The size in bytes (`RSA_size`) of the RSA public key with this
/// SubjectPublicKeyInfo DER encoding; `None` when the bytes do not parse as one.
pub uninterp spec fn rsa_public_key_size(public_der: Seq<u8>) -> Option<nat>;

/// The SubjectPublicKeyInfo DER encoding of the public half of a key pair;
/// `None` when the key pair does not parse or cannot be encoded.
pub uninterp spec fn rsa_public_key_of(private_der: Seq<u8>) -> Option<Seq<u8>>;

/// The message a ciphertext carries, with PKCS#1 v1.5 padding, for a key pair
/// whose parts fit together (one that passes `RSA_check_key`): the unpadded
/// block the ciphertext decrypts to, when that block is validly padded; `None`
/// when the key does not parse or the block is not validly padded. Only what
/// holds of key pairs that pass the check is said of it: for others, OpenSSL's
/// blinded decryption gives a result that depends on chance. (What OpenSSL
/// hands back for a block that is not validly padded depends on its version,
/// and is not this either.)
pub uninterp spec fn rsa_pkcs1_message(private_der: Seq<u8>, ciphertext: Seq<u8>) -> Option<
    Seq<u8>,
>;

/// What `RSA_check_key` says of a key pair: `Some(true)` when its primes,
/// modulus, exponents and CRT values fit together; `Some(false)` or `None`
/// otherwise (`None` when the key does not parse, or when OpenSSL reports the
/// mismatch as an error).
pub uninterp spec fn rsa_key_pair_checks(private_der: Seq<u8>) -> Option<bool>;

/// Whether `signature` is a valid RSA signature with SHA3-256 of `message`;
/// `None` when the check itself fails.
pub uninterp spec fn rsa_sha3_256_valid(
    public_der: Seq<u8>,
    message: Seq<u8>,
    signature: Seq<u8>,
) -> Option<bool>;

/// The SHA3-256 digest of `data`.
pub uninterp spec fn sha3_256_digest(data: Seq<u8>) -> Seq<u8>;

/// The SHA-256 digest of `data`.
pub uninterp spec fn sha256_digest(data: Seq<u8>) -> Seq<u8>;

/// The base64 digit for a value below 64: `A`-`Z`, `a`-`z`, `0`-`9`, `+`, `/`.
pub open spec fn base64_digit(v: int) -> char {
    if v < 26 {
        (65 + v) as char
    } else if v < 52 {
        (97 + (v - 26)) as char
    } else if v < 62 {
        (48 + (v - 52)) as char
    } else if v == 62 {
        '+'
    } else {
        '/'
    }
}

/// The base64 encoding of `data`, as `EVP_EncodeBlock` writes it: each group of
/// three bytes becomes four digits of six bits each, and a last group of one or
/// two bytes is filled with zero bits and padded with `=` to four characters.
/// No line breaks are written.
pub open spec fn base64_encoding(data: Seq<u8>) -> Seq<char>
    decreases data.len(),
{
    let b0 = data[0] as int;
    let b1 = data[1] as int;
    let b2 = data[2] as int;
    if data.len() == 0 {
        Seq::empty()
    } else if data.len() == 1 {
        seq![base64_digit(b0 / 4), base64_digit((b0 % 4) * 16), '=', '=']
    } else if data.len() == 2 {
        seq![
            base64_digit(b0 / 4),
            base64_digit((b0 % 4) * 16 + b1 / 16),
            base64_digit((b1 % 16) * 4),
            '=',
        ]
    } else {
        seq![
            base64_digit(b0 / 4),
            base64_digit((b0 % 4) * 16 + b1 / 16),
            base64_digit((b1 % 16) * 4 + b2 / 64),
            base64_digit(b2 % 64),
        ] + base64_encoding(data.skip(3))
    }
}

/// AES-256-GCM encryption of `plaintext` under `key` and `iv` with the
/// additional data `aad`: the ciphertext and an authentication tag of
/// `tag_len` bytes; `None` when OpenSSL refuses the parameters.
pub uninterp spec fn aes_256_gcm_seal(
    key: Seq<u8>,
    iv: Seq<u8>,
    aad: Seq<u8>,
    plaintext: Seq<u8>,
    tag_len: nat,
) -> Option<(Seq<u8>, Seq<u8>)>;

/// AES-256-GCM decryption: the plaintext, or `None` when the parameters are
/// refused or the tag does not authenticate the ciphertext.
pub uninterp spec fn aes_256_gcm_open(
    key: Seq<u8>,
    iv: Seq<u8>,
    aad: Seq<u8>,
    ciphertext: Seq<u8>,
    tag: Seq<u8>,
) -> Option<Seq<u8>>;

/// `openssl::rand::rand_bytes`: fills `buf` with random bytes. It panics on a
/// buffer longer than `c_int::MAX`, which `requires` excludes. What bytes come
/// out, and whether the call fails, is left unsaid.
#[verifier::external_body]
pub(crate) fn random_fill(buf: &mut [u8]) -> (result: Result<(), ErrorStack>)
    requires
        old(buf)@.len() <= i32::MAX,
    ensures
        final(buf)@.len() == old(buf)@.len(),
{
    openssl::rand::rand_bytes(buf)
}

/// `Rsa::generate` followed by `private_key_to_der`: a fresh key pair of
/// `bits` bits with public exponent 65537, as DER. Which key comes out is left
/// to chance; a generated key parses back, with a size of `bits` rounded up to
/// whole bytes, has a public half, and passes `RSA_check_key`.
#[verifier::external_body]
pub(crate) fn rsa_generate(bits: u32) -> (result: Result<Vec<u8>, ErrorStack>)
    ensures
        result matches Ok(der) ==> rsa_private_key_size(der@) == Some(((bits + 7) / 8) as nat)
            && rsa_public_key_of(der@) is Some && rsa_key_pair_checks(der@) == Some(true),
{
    Rsa::generate(bits)?.private_key_to_der()
}

/// `Rsa::private_key_from_der` followed by `size`: the size in bytes of a key
/// pair. A key pair that does not parse carries no message.
#[verifier::external_body]
pub(crate) fn rsa_private_size(private_der: &[u8]) -> (result: Result<u32, ErrorStack>)
    ensures
        match result {
            Ok(n) => rsa_private_key_size(private_der@) == Some(n as nat),
            Err(_) => rsa_private_key_size(private_der@) is None && forall|c: Seq<u8>|
                #[trigger] rsa_pkcs1_message(private_der@, c) is None,
        },
{
    Ok(Rsa::private_key_from_der(private_der)?.size())
}

/// `Rsa::public_key_from_der` followed by `size`: the size in bytes of a public
/// key.
#[verifier::external_body]
pub(crate) fn rsa_public_size(public_der: &[u8]) -> (result: Result<u32, ErrorStack>)
    ensures
        match result {
            Ok(n) => rsa_public_key_size(public_der@) == Some(n as nat),
            Err(_) => rsa_public_key_size(public_der@) is None,
        },
{
    Ok(Rsa::public_key_from_der(public_der)?.size())
}

/// `Rsa::private_key_from_der` followed by `public_key_to_der`: the public half
/// of a key pair.
#[verifier::external_body]
pub(crate) fn rsa_public_der(private_der: &[u8]) -> (result: Result<Vec<u8>, ErrorStack>)
    ensures
        match result {
            Ok(der) => rsa_public_key_of(private_der@) == Some(der@),
            Err(_) => rsa_public_key_of(private_der@) is None,
        },
{
    Rsa::private_key_from_der(private_der)?.public_key_to_der()
}

/// `Rsa::public_encrypt` with PKCS#1 v1.5 padding, under a public key given as
/// DER. It panics when `from` is longer than `i32::MAX` or `to` is shorter than
/// the key, which `requires` excludes. The padding is random, so the bytes
/// written are left unsaid, but not what they carry: on success exactly the
/// key's size in bytes is written at the start of `to`, the rest of `to` is
/// untouched, and under every key pair that has this public half and passes
/// `RSA_check_key` they carry `from`.
#[verifier::external_body]
pub(crate) fn rsa_public_encrypt(public_der: &[u8], from: &[u8], to: &mut [u8]) -> (result:
    Result<usize, ErrorStack>)
    requires
        from@.len() <= i32::MAX,
        forall|n: nat| rsa_public_key_size(public_der@) == Some(n) ==> n <= old(to)@.len(),
    ensures
        final(to)@.len() == old(to)@.len(),
        result matches Ok(k) ==> {
            &&& rsa_public_key_size(public_der@) == Some(k as nat)
            &&& k <= old(to)@.len()
            &&& final(to)@.skip(k as int) == old(to)@.skip(k as int)
            &&& forall|pair: Seq<u8>|
                rsa_key_pair_checks(pair) == Some(true) && rsa_public_key_of(pair) == Some(
                    public_der@,
                ) ==> #[trigger] rsa_pkcs1_message(pair, final(to)@.take(k as int)) == Some(from@)
        },
{
    Rsa::public_key_from_der(public_der)?.public_encrypt(from, to, Padding::PKCS1)
}

/// `Rsa::private_decrypt` with PKCS#1 v1.5 padding, under a key pair given as
/// DER: writes the plaintext at the start of `to` and returns its length. It
/// panics when `from` is longer than `i32::MAX` or `to` is shorter than the
/// key, which `requires` excludes. Under a key pair that passes
/// `RSA_check_key` it succeeds on a ciphertext that carries a message and gives
/// that message; a key pair that does not parse makes it fail. For a block that
/// is not validly padded, whether it fails or (from OpenSSL 3.2) returns a
/// synthetic message is left unsaid, and so is what it gives under a key pair
/// whose parts do not fit together, and what it leaves in the rest of `to`.
#[verifier::external_body]
pub(crate) fn rsa_private_decrypt(private_der: &[u8], from: &[u8], to: &mut [u8]) -> (result:
    Result<usize, ErrorStack>)
    requires
        from@.len() <= i32::MAX,
        forall|n: nat| rsa_private_key_size(private_der@) == Some(n) ==> n <= old(to)@.len(),
    ensures
        final(to)@.len() == old(to)@.len(),
        result matches Ok(k) ==> k <= old(to)@.len(),
        rsa_key_pair_checks(private_der@) == Some(true) ==> (rsa_pkcs1_message(private_der@, from@)
            matches Some(m) ==> (result matches Ok(k) && final(to)@.take(k as int) == m)),
        rsa_private_key_size(private_der@) is None ==> result is Err,
{
    Rsa::private_key_from_der(private_der)?.private_decrypt(from, to, Padding::PKCS1)
}

/// Signs `message` with SHA3-256 under a key pair given as DER: the key goes
/// through `PKey::from_rsa`, then `Signer::new`, `update` and `sign_to_vec`.
/// OpenSSL signs with blinding, which draws random numbers, so which signature
/// comes out, and whether signing succeeds, is left unsaid; a key pair that
/// does not parse makes it fail. When the key pair passes `RSA_check_key`, the
/// signature is one its public half accepts.
#[verifier::external_body]
pub(crate) fn rsa_sha3_256_sign(private_der: &[u8], message: &[u8]) -> (result: Result<
    Vec<u8>,
    ErrorStack,
>)
    ensures
        rsa_private_key_size(private_der@) is None ==> result is Err,
        result matches Ok(sig) ==> forall|public_der: Seq<u8>|
            rsa_key_pair_checks(private_der@) == Some(true) && rsa_public_key_of(private_der@)
                == Some(public_der) ==> #[trigger] rsa_sha3_256_valid(
                public_der,
                message@,
                sig@,
            ) == Some(true),
{
    let key = PKey::from_rsa(Rsa::private_key_from_der(private_der)?)?;
    let mut signer = Signer::new(MessageDigest::sha3_256(), &key)?;
    signer.update(message)?;
    signer.sign_to_vec()
}

/// Checks a SHA3-256 RSA signature under a public key given as DER: the key
/// goes through `PKey::from_rsa`, then `Verifier::new`, `update` and `verify`.
#[verifier::external_body]
pub(crate) fn rsa_sha3_256_verify(public_der: &[u8], message: &[u8], signature: &[u8]) -> (result:
    Result<bool, ErrorStack>)
    ensures
        match result {
            Ok(valid) => rsa_sha3_256_valid(public_der@, message@, signature@) == Some(valid),
            Err(_) => rsa_sha3_256_valid(public_der@, message@, signature@) is None,
        },
{
    let key = PKey::from_rsa(Rsa::public_key_from_der(public_der)?)?;
    let mut verifier = Verifier::new(MessageDigest::sha3_256(), &key)?;
    verifier.update(message)?;
    verifier.verify(signature)
}

/// `openssl::hash::hash` with SHA3-256: the 32-byte digest of `data`. Whether
/// the OpenSSL build offers SHA3-256 is left unsaid.
#[verifier::external_body]
pub(crate) fn sha3_256(data: &[u8]) -> (result: Result<Vec<u8>, ErrorStack>)
    ensures
        result matches Ok(digest) ==> digest@ == sha3_256_digest(data@) && digest@.len() == 32,
{
    Ok(openssl::hash::hash(MessageDigest::sha3_256(), data)?.to_vec())
}

/// `openssl::sha::sha256`: the 32-byte SHA-256 digest of `data`.
#[verifier::external_body]
pub(crate) fn sha256(data: &[u8]) -> (digest: Vec<u8>)
    ensures
        digest@ == sha256_digest(data@),
        digest@.len() == 32,
{
    openssl::sha::sha256(data).to_vec()
}

/// `openssl::base64::encode_block`: the base64 encoding of `data`. It panics
/// when the input or the encoded length overflows a C `int`, which `requires`
/// excludes.
#[verifier::external_body]
pub(crate) fn base64_encode(data: &[u8]) -> (encoded: String)
    requires
        4 * (data@.len() / 3) + 5 <= i32::MAX,
    ensures
        encoded@ == base64_encoding(data@),
{
    openssl::base64::encode_block(data)
}

/// `openssl::symm::encrypt_aead` with AES-256-GCM: returns the ciphertext and
/// fills `tag` with the authentication tag. It panics when a length does not
/// fit a C `int`, which `requires` excludes. GCM is a stream mode, so the
/// ciphertext is as long as the data; and what it encrypts, decryption with
/// the same key, iv and additional data gives back.
#[verifier::external_body]
pub(crate) fn aes_256_gcm_encrypt(
    key: &[u8],
    iv: &[u8],
    aad: &[u8],
    data: &[u8],
    tag: &mut [u8],
) -> (result: Result<Vec<u8>, ErrorStack>)
    requires
        key@.len() <= i32::MAX,
        iv@.len() <= i32::MAX,
        aad@.len() <= i32::MAX,
        data@.len() <= i32::MAX,
        old(tag)@.len() <= i32::MAX,
    ensures
        final(tag)@.len() == old(tag)@.len(),
        match result {
            Ok(ciphertext) => aes_256_gcm_seal(key@, iv@, aad@, data@, old(tag)@.len()) == Some(
                (ciphertext@, final(tag)@),
            ) && aes_256_gcm_open(key@, iv@, aad@, ciphertext@, final(tag)@) == Some(data@)
                && ciphertext@.len() == data@.len(),
            Err(_) => aes_256_gcm_seal(key@, iv@, aad@, data@, old(tag)@.len()) is None,
        },
{
    openssl::symm::encrypt_aead(Cipher::aes_256_gcm(), key, Some(iv), aad, data, tag)
}

/// `openssl::symm::decrypt_aead` with AES-256-GCM: the plaintext, when the tag
/// authenticates the ciphertext. It panics when a length does not fit a C
/// `int`, which `requires` excludes.
#[verifier::external_body]
pub(crate) fn aes_256_gcm_decrypt(key: &[u8], iv: &[u8], aad: &[u8], data: &[u8], tag: &[u8]) -> (result:
    Result<Vec<u8>, ErrorStack>)
    requires
        key@.len() <= i32::MAX,
        iv@.len() <= i32::MAX,
        aad@.len() <= i32::MAX,
        data@.len() <= i32::MAX,
        tag@.len() <= i32::MAX,
    ensures
        match result {
            Ok(plaintext) => aes_256_gcm_open(key@, iv@, aad@, data@, tag@) == Some(plaintext@),
            Err(_) => aes_256_gcm_open(key@, iv@, aad@, data@, tag@) is None,
        },
{
    openssl::symm::decrypt_aead(Cipher::aes_256_gcm(), key, Some(iv), aad, data, tag)
}

/// `String::from_utf8`: the text the bytes encode, when they are UTF-8.
#[verifier::external_body]
pub(crate) fn string_from_utf8(bytes: Vec<u8>) -> (result: Result<String, FromUtf8Error>)
    ensures
        match result {
            Ok(text) => valid_utf8(bytes@) && text@ == decode_utf8(bytes@),
            Err(_) => !valid_utf8(bytes@),
        },
{
    String::from_utf8(bytes)
}

} // verus!
