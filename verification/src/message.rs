//! Packets exchanged between clients and the server, and their wire framing.
//!
//! On the wire every packet is its JSON encoding followed by a single NUL byte.
//! JSON text never contains a NUL byte, so the first NUL in the stream ends the
//! current packet.

use vstd::prelude::*;
use bytes::BytesMut;

verus! {

/// Packets that can be sent from the client to the server.
#[derive(Debug, PartialEq, Eq)]
pub enum Serverbound {
    /// Sent on startup to register the client with the server.
    /// Includes the client's DER-encoded public key.
    Hello { public_key: Vec<u8> },
    /// Sent by a client to request an E2E-encrypted channel with another client.
    /// Includes the key fingerprint of the peer to chat with (the SHA3-256 hash of
    /// their key).
    ConnectRequest { peer_fingerprint: String },
    /// The client's response to a ChooseKey packet.
    UseKey { session_key: Vec<u8>, signature: Vec<u8> },
    /// Send an encrypted message to another client.
    Message(Encrypted),
}

/// Packets that can be sent from the server to the client.
#[derive(Debug, PartialEq, Eq)]
pub enum Clientbound {
    /// A ConnectRequest has been received, and the server is waiting for the
    /// other client to accept it. Once the connection is established, the server
    /// sends either a ChooseKey or a UseKey packet.
    ConnectWaiting,
    /// The ConnectRequest failed; `reason` is a human-readable description.
    ConnectFail { reason: String },
    /// The connection is established and this client was selected to generate
    /// the session key; it answers with a Serverbound::UseKey packet.
    ChooseKey { dst_public_key: Vec<u8> },
    /// The connection is established and the other client has chosen a key.
    UseKey { dst_public_key: Vec<u8>, session_key: Vec<u8>, signature: Vec<u8> },
    /// Another client has sent an encrypted message.
    Message(Encrypted),
    /// The server is terminating the connection; `message` is a human-readable
    /// reason for the shutdown.
    Shutdown { message: String },
}

/// A message that has been encrypted and MACed.
#[derive(Debug, PartialEq, Eq)]
pub struct Encrypted {
    pub iv: Vec<u8>,
    pub ciphertext: Vec<u8>,
    pub tag: Vec<u8>,
}

/// The content of an encrypted message: initialisation vector, ciphertext and
/// authentication tag.
pub struct EncryptedModel {
    pub iv: Seq<u8>,
    pub ciphertext: Seq<u8>,
    pub tag: Seq<u8>,
}

impl EncryptedModel {
    /// Whether each part is short enough for OpenSSL, whose lengths are C `int`s.
    pub open spec fn fits_openssl(self) -> bool {
        &&& self.iv.len() <= i32::MAX
        &&& self.ciphertext.len() <= i32::MAX
        &&& self.tag.len() <= i32::MAX
    }
}

impl View for Encrypted {
    type V = EncryptedModel;

    open spec fn view(&self) -> EncryptedModel {
        EncryptedModel { iv: self.iv@, ciphertext: self.ciphertext@, tag: self.tag@ }
    }
}

/// What a client-to-server packet says.
pub enum ServerboundModel {
    Hello { public_key: Seq<u8> },
    ConnectRequest { peer_fingerprint: Seq<char> },
    UseKey { session_key: Seq<u8>, signature: Seq<u8> },
    Message(EncryptedModel),
}

impl View for Serverbound {
    type V = ServerboundModel;

    open spec fn view(&self) -> ServerboundModel {
        match self {
            Serverbound::Hello { public_key } => ServerboundModel::Hello { public_key: public_key@ },
            Serverbound::ConnectRequest { peer_fingerprint } => ServerboundModel::ConnectRequest {
                peer_fingerprint: peer_fingerprint@,
            },
            Serverbound::UseKey { session_key, signature } => ServerboundModel::UseKey {
                session_key: session_key@,
                signature: signature@,
            },
            Serverbound::Message(e) => ServerboundModel::Message(e@),
        }
    }
}

/// What a server-to-client packet says.
pub enum ClientboundModel {
    ConnectWaiting,
    ConnectFail { reason: Seq<char> },
    ChooseKey { dst_public_key: Seq<u8> },
    UseKey { dst_public_key: Seq<u8>, session_key: Seq<u8>, signature: Seq<u8> },
    Message(EncryptedModel),
    Shutdown { message: Seq<char> },
}

impl View for Clientbound {
    type V = ClientboundModel;

    open spec fn view(&self) -> ClientboundModel {
        match self {
            Clientbound::ConnectWaiting => ClientboundModel::ConnectWaiting,
            Clientbound::ConnectFail { reason } => ClientboundModel::ConnectFail { reason: reason@ },
            Clientbound::ChooseKey { dst_public_key } => ClientboundModel::ChooseKey {
                dst_public_key: dst_public_key@,
            },
            Clientbound::UseKey { dst_public_key, session_key, signature } =>
                ClientboundModel::UseKey {
                    dst_public_key: dst_public_key@,
                    session_key: session_key@,
                    signature: signature@,
                },
            Clientbound::Message(e) => ClientboundModel::Message(e@),
            Clientbound::Shutdown { message } => ClientboundModel::Shutdown { message: message@ },
        }
    }
}

impl Clone for Encrypted {
    /// A copy of the message.
    fn clone(&self) -> (copy: Encrypted)
        ensures
            copy@ == self@,
    {
        Encrypted { iv: self.iv.clone(), ciphertext: self.ciphertext.clone(), tag: self.tag.clone() }
    }
}

/// Declares `bytes::BytesMut`, the growable byte buffer the codec reads from and
/// writes to.
#[verifier::external_type_specification]
#[verifier::external_body]
pub struct ExBytesMut(bytes::BytesMut);

/// The bytes a `BytesMut` holds, in order.
pub uninterp spec fn buffer_bytes(b: BytesMut) -> Seq<u8>;

/// `<BytesMut as Deref>::deref`: a slice of exactly the bytes the buffer holds.
#[verifier::external_body]
fn buffer_as_slice(b: &BytesMut) -> (s: &[u8])
    ensures
        s@ == buffer_bytes(*b),
{
    &b[..]
}

/// `BytesMut::reserve`: only makes room, the held bytes do not change.
/// It panics when the new capacity overflows, which the bound excludes.
#[verifier::external_body]
fn buffer_reserve(b: &mut BytesMut, additional: usize)
    requires
        buffer_bytes(*old(b)).len() + additional <= isize::MAX,
    ensures
        buffer_bytes(*final(b)) == buffer_bytes(*old(b)),
{
    b.reserve(additional)
}

/// `BytesMut::extend_from_slice`: appends the slice at the end of the buffer.
#[verifier::external_body]
fn buffer_extend_from_slice(b: &mut BytesMut, s: &[u8])
    requires
        buffer_bytes(*old(b)).len() + s@.len() <= isize::MAX,
    ensures
        buffer_bytes(*final(b)) == buffer_bytes(*old(b)) + s@,
{
    b.extend_from_slice(s)
}

/// `BytesMut::split_to`: the result holds the first `at` bytes, the buffer keeps
/// the rest. It panics when `at` exceeds the length, which `requires` excludes.
#[verifier::external_body]
fn buffer_split_to(b: &mut BytesMut, at: usize) -> (head: BytesMut)
    requires
        at <= buffer_bytes(*old(b)).len(),
    ensures
        buffer_bytes(head) == buffer_bytes(*old(b)).take(at as int),
        buffer_bytes(*final(b)) == buffer_bytes(*old(b)).skip(at as int),
{
    b.split_to(at)
}

/// `<BytesMut as Buf>::advance`: drops the first `cnt` bytes. It panics when
/// `cnt` exceeds the length, which `requires` excludes.
#[verifier::external_body]
fn buffer_advance(b: &mut BytesMut, cnt: usize)
    requires
        cnt <= buffer_bytes(*old(b)).len(),
    ensures
        buffer_bytes(*final(b)) == buffer_bytes(*old(b)).skip(cnt as int),
{
    bytes::Buf::advance(b, cnt)
}

/// No byte of `s` is the NUL terminator.
pub open spec fn nul_free(s: Seq<u8>) -> bool {
    forall|i: int| 0 <= i < s.len() ==> s[i] != 0u8
}

/// `k` is the position of the first NUL byte of `s`.
pub open spec fn is_frame_end(s: Seq<u8>, k: int) -> bool {
    &&& 0 <= k < s.len()
    &&& s[k] == 0u8
    &&& nul_free(s.take(k))
}

/// The bytes one packet takes on the wire: its payload, then a NUL byte.
pub open spec fn framed(payload: Seq<u8>) -> Seq<u8> {
    payload.push(0u8)
}

/// Splits a received stream into its first complete packet payload and the
/// bytes after that packet's terminator; `None` while no terminator has arrived.
pub open spec fn next_frame(s: Seq<u8>) -> Option<(Seq<u8>, Seq<u8>)> {
    if exists|k: int| is_frame_end(s, k) {
        let k = choose|k: int| is_frame_end(s, k);
        Some((s.take(k), s.skip(k + 1)))
    } else {
        None
    }
}

/// A stream holds at most one first terminator.
pub proof fn lemma_frame_end_unique(s: Seq<u8>, k1: int, k2: int)
    requires
        is_frame_end(s, k1),
        is_frame_end(s, k2),
    ensures
        k1 == k2,
{
    if k1 < k2 {
        assert(s.take(k2)[k1] == s[k1]);
    } else if k2 < k1 {
        assert(s.take(k1)[k2] == s[k2]);
    }
}

/// The bytes a sequence of packets takes on the wire, one after another.
pub open spec fn framed_all(payloads: Seq<Seq<u8>>) -> Seq<u8>
    decreases payloads.len(),
{
    if payloads.len() == 0 {
        Seq::empty()
    } else {
        framed(payloads[0]) + framed_all(payloads.drop_first())
    }
}

/// The payloads of all complete packets in a received stream, in order; the
/// bytes after the last terminator are a packet still in transit.
pub open spec fn frames_of(s: Seq<u8>) -> Seq<Seq<u8>>
    decreases s.len(),
{
    if exists|k: int| is_frame_end(s, k) {
        let k = choose|k: int| is_frame_end(s, k);
        seq![s.take(k)] + frames_of(s.skip(k + 1))
    } else {
        Seq::empty()
    }
}

/// A packet whose payload holds no NUL byte is read back as it was written,
/// whatever follows it in the stream, and what follows is left untouched.
pub proof fn lemma_frame_roundtrip(payload: Seq<u8>, rest: Seq<u8>)
    requires
        nul_free(payload),
    ensures
        next_frame(framed(payload) + rest) == Some((payload, rest)),
{
    let s = framed(payload) + rest;
    let n = payload.len() as int;
    assert(s.take(n) =~= payload);
    assert(is_frame_end(s, n));
    let k = choose|k: int| is_frame_end(s, k);
    lemma_frame_end_unique(s, k, n);
    assert(s.skip(n + 1) =~= rest);
}

/// Bytes that arrive later never change a packet that is already complete:
/// they are only appended to what follows it.
pub proof fn lemma_frame_stable_under_arrival(s: Seq<u8>, more: Seq<u8>)
    requires
        next_frame(s) is Some,
    ensures
        next_frame(s + more) == (match next_frame(s) {
            Some((payload, rest)) => Some((payload, rest + more)),
            None => None,
        }),
{
    let k = choose|k: int| is_frame_end(s, k);
    let t = s + more;
    assert(t.take(k) =~= s.take(k));
    assert(is_frame_end(t, k));
    let k2 = choose|k2: int| is_frame_end(t, k2);
    lemma_frame_end_unique(t, k, k2);
    assert(t.skip(k + 1) =~= s.skip(k + 1) + more);
}

/// Packets without NUL bytes, sent one after another, are received as the same
/// packets in the same order.
pub proof fn lemma_stream_roundtrip(payloads: Seq<Seq<u8>>)
    requires
        forall|i: int| 0 <= i < payloads.len() ==> nul_free(#[trigger] payloads[i]),
    ensures
        frames_of(framed_all(payloads)) == payloads,
    decreases payloads.len(),
{
    if payloads.len() == 0 {
        let s = framed_all(payloads);
        assert(s =~= Seq::<u8>::empty());
        assert(!exists|k: int| is_frame_end(s, k));
    } else {
        let rest = payloads.drop_first();
        assert forall|i: int| 0 <= i < rest.len() implies nul_free(#[trigger] rest[i]) by {
            assert(rest[i] == payloads[i + 1]);
        }
        lemma_stream_roundtrip(rest);
        assert(nul_free(payloads[0]));
        lemma_frame_roundtrip(payloads[0], framed_all(rest));
        let s = framed_all(payloads);
        let k = choose|k: int| is_frame_end(s, k);
        assert(seq![payloads[0]] + rest =~= payloads);
    }
}

/// Appends one packet to the outgoing buffer: the payload, then the NUL
/// terminator.
pub fn encode_frame(payload: &[u8], dst: &mut BytesMut)
    requires
        buffer_bytes(*old(dst)).len() + payload@.len() + 1 <= isize::MAX,
    ensures
        buffer_bytes(*final(dst)) == buffer_bytes(*old(dst)) + framed(payload@),
{
    buffer_reserve(dst, payload.len() + 1);
    buffer_extend_from_slice(dst, payload);
    let terminator: [u8; 1] = [0u8];
    buffer_extend_from_slice(dst, &terminator);
    proof {
        assert(terminator@ =~= seq![0u8]);
        assert(buffer_bytes(*old(dst)) + payload@ + seq![0u8] =~= buffer_bytes(*old(dst))
            + framed(payload@));
    }
}

/// Takes the first complete packet out of the incoming buffer.
///
/// Where the buffer holds a NUL byte, the bytes before the first one are
/// returned and removed together with that terminator; otherwise the buffer is
/// left as it is and `None` is returned, to wait for more bytes.
pub fn decode_frame(src: &mut BytesMut) -> (frame: Option<BytesMut>)
    ensures
        match next_frame(buffer_bytes(*old(src))) {
            Some((payload, rest)) => frame matches Some(f) && buffer_bytes(f) == payload
                && buffer_bytes(*final(src)) == rest,
            None => frame is None && buffer_bytes(*final(src)) == buffer_bytes(*old(src)),
        },
{
    let ghost s = buffer_bytes(*src);
    let bytes = buffer_as_slice(src);
    let n = bytes.len();
    let mut i: usize = 0;
    while i < n
        invariant
            n == s.len(),
            bytes@ == s,
            buffer_bytes(*src) == s,
            buffer_bytes(*old(src)) == s,
            i <= n,
            nul_free(s.take(i as int)),
        decreases n - i,
    {
        if bytes[i] == 0u8 {
            proof {
                assert(is_frame_end(s, i as int));
                let k = choose|k: int| is_frame_end(s, k);
                lemma_frame_end_unique(s, k, i as int);
                assert(next_frame(s) == Some((s.take(i as int), s.skip(i + 1))));
            }
            let head = buffer_split_to(src, i);
            buffer_advance(src, 1);
            proof {
                assert(s.skip(i as int).skip(1) =~= s.skip(i + 1));
            }
            return Some(head);
        }
        proof {
            assert(s.take(i + 1) =~= s.take(i as int).push(s[i as int]));
        }
        i = i + 1;
    }
    proof {
        assert(s.take(n as int) =~= s);
        assert forall|k: int| !is_frame_end(s, k) by {
            if is_frame_end(s, k) {
                assert(s.take(n as int)[k] == s[k]);
            }
        }
    }
    None
}

} // verus!
