//! The server's bookkeeping: which clients are connected, and what the event
//! loop of one connected client decides on each event.
//!
//! The server keeps one entry per registered client, keyed by the client's key
//! fingerprint. Each client's event loop holds a [`ClientSession`]: the client's
//! own fingerprint and public key, the destination it asked to chat with, whether its own
//! connection request to that destination is still unanswered, and the
//! requests of other clients that wait for this client to ask for them.

use vstd::prelude::*;
use vstd::multiset::Multiset;
use crate::message::{Clientbound, ClientboundModel, EncryptedModel, Serverbound, ServerboundModel};
use vstd::utf8::encode_utf8;
use crate::crypto::{fingerprint_text, sha3_256_base64};
use openssl::error::ErrorStack;

verus! {

/// Errors that end a client's session on the server.
#[derive(Debug)]
pub enum Error {
    /// The client sent a packet that does not fit the state of its session.
    UnexpectedMessage(Serverbound),
    /// A client with this key fingerprint is already connected.
    DuplicateClient(Vec<u8>),
    /// Reading or writing the client's connection failed.
    IoError(std::io::Error),
}

/// `a` and `b` hold the same bytes.
pub fn bytes_equal(a: &[u8], b: &[u8]) -> (same: bool)
    ensures
        same == (a@ == b@),
{
    if a.len() != b.len() {
        return false;
    }
    let n = a.len();
    let mut i: usize = 0;
    while i < n
        invariant
            n == a@.len(),
            n == b@.len(),
            i <= n,
            forall|j: int| 0 <= j < i ==> a@[j] == b@[j],
        decreases n - i,
    {
        if a[i] != b[i] {
            return false;
        }
        i = i + 1;
    }
    assert(a@ =~= b@);
    true
}

/// What the first packet of a new connection decides: `Ok(Some(key))` to
/// register the client with the public key it sent in its `Hello`, `Ok(None)`
/// when the connection closed before saying anything, and an error otherwise.
pub fn accept_hello(first: Option<Result<Serverbound, std::io::Error>>) -> (outcome: Result<
    Option<Vec<u8>>,
    Error,
>)
    ensures
        match first {
            None => outcome matches Ok(None),
            Some(Err(e)) => outcome matches Err(Error::IoError(f)) && f == e,
            Some(Ok(m)) => match m@ {
                ServerboundModel::Hello { public_key } => outcome matches Ok(Some(k)) && k@
                    == public_key,
                _ => outcome matches Err(Error::UnexpectedMessage(x)) && x == m,
            },
        },
{
    match first {
        None => Ok(None),
        Some(Err(e)) => Err(Error::IoError(e)),
        Some(Ok(Serverbound::Hello { public_key })) => Ok(Some(public_key)),
        Some(Ok(m)) => Err(Error::UnexpectedMessage(m)),
    }
}

/// The key fingerprint a client is registered under: the UTF-8 bytes of the
/// base64'd SHA3-256 hash of its DER-encoded public key, the text a peer types
/// into its `ConnectRequest`.
pub fn key_fingerprint(public_key: &[u8]) -> (fingerprint: Result<Vec<u8>, ErrorStack>)
    ensures
        fingerprint matches Ok(f) ==> f@ == encode_utf8(fingerprint_text(public_key@)),
{
    let text = sha3_256_base64(public_key)?;
    Ok(vstd::slice::slice_to_vec(text.as_str().as_bytes()))
}

/// The packet a client gets when the server ends its session, if a reason is
/// given.
pub fn shutdown_notice(reason: Option<String>) -> (packet: Option<Clientbound>)
    ensures
        match reason {
            Some(r) => packet matches Some(p) && p@ == (ClientboundModel::Shutdown { message: r@ }),
            None => packet is None,
        },
{
    match reason {
        Some(message) => Some(Clientbound::Shutdown { message }),
        None => None,
    }
}

/// A registered client: its key fingerprint, its DER-encoded public key, and the
/// handle through which the server reaches its event loop.
pub struct ClientEntry<H> {
    pub fingerprint: Vec<u8>,
    pub public_key: Vec<u8>,
    pub handle: H,
}

/// The registered clients, at most one per key fingerprint.
pub struct ClientRegistry<H> {
    entries: Vec<ClientEntry<H>>,
}

/// No two entries share a fingerprint.
pub open spec fn fingerprints_unique<H>(s: Seq<ClientEntry<H>>) -> bool {
    forall|i: int, j: int|
        0 <= i < s.len() && 0 <= j < s.len() && i != j ==> #[trigger] s[i].fingerprint@
            != #[trigger] s[j].fingerprint@
}

/// Some entry carries fingerprint `k`.
pub open spec fn has_fingerprint<H>(s: Seq<ClientEntry<H>>, k: Seq<u8>) -> bool {
    exists|i: int| 0 <= i < s.len() && #[trigger] s[i].fingerprint@ == k
}

/// The entries as a map from fingerprint to public key and handle.
pub open spec fn entries_map<H>(s: Seq<ClientEntry<H>>) -> Map<Seq<u8>, (Seq<u8>, H)> {
    Map::new(
        |k: Seq<u8>| has_fingerprint(s, k),
        |k: Seq<u8>|
            {
                let i = choose|i: int| 0 <= i < s.len() && #[trigger] s[i].fingerprint@ == k;
                (s[i].public_key@, s[i].handle)
            },
    )
}

proof fn lemma_entries_map_at<H>(s: Seq<ClientEntry<H>>, i: int)
    requires
        fingerprints_unique(s),
        0 <= i < s.len(),
    ensures
        entries_map(s).dom().contains(s[i].fingerprint@),
        entries_map(s)[s[i].fingerprint@] == (s[i].public_key@, s[i].handle),
{
    let k = s[i].fingerprint@;
    assert(has_fingerprint(s, k));
    let j = choose|j: int| 0 <= j < s.len() && #[trigger] s[j].fingerprint@ == k;
    assert(i == j);
}

proof fn lemma_entries_map_push<H>(s: Seq<ClientEntry<H>>, e: ClientEntry<H>)
    requires
        fingerprints_unique(s),
        !has_fingerprint(s, e.fingerprint@),
    ensures
        fingerprints_unique(s.push(e)),
        entries_map(s.push(e)) == entries_map(s).insert(e.fingerprint@, (e.public_key@, e.handle)),
{
    let t = s.push(e);
    assert forall|i: int, j: int|
        0 <= i < t.len() && 0 <= j < t.len() && i != j implies #[trigger] t[i].fingerprint@
        != #[trigger] t[j].fingerprint@ by {
        if i < s.len() && j < s.len() {
            assert(t[i] == s[i] && t[j] == s[j]);
        } else if i < s.len() {
            assert(t[i] == s[i]);
        } else {
            assert(t[j] == s[j]);
        }
    }
    let m = entries_map(s).insert(e.fingerprint@, (e.public_key@, e.handle));
    assert forall|k: Seq<u8>| #[trigger] entries_map(t).dom().contains(k) <==> m.dom().contains(k) by {
        if has_fingerprint(t, k) {
            let i = choose|i: int| 0 <= i < t.len() && #[trigger] t[i].fingerprint@ == k;
            if i < s.len() {
                assert(s[i] == t[i]);
                assert(has_fingerprint(s, k));
            }
        }
        if has_fingerprint(s, k) {
            let i = choose|i: int| 0 <= i < s.len() && #[trigger] s[i].fingerprint@ == k;
            assert(t[i] == s[i]);
        }
        if k == e.fingerprint@ {
            assert(t[s.len() as int] == e);
        }
    }
    assert forall|k: Seq<u8>| #[trigger] m.dom().contains(k) implies entries_map(t)[k] == m[k] by {
        if k == e.fingerprint@ {
            lemma_entries_map_at(t, s.len() as int);
        } else {
            let i = choose|i: int| 0 <= i < s.len() && #[trigger] s[i].fingerprint@ == k;
            lemma_entries_map_at(s, i);
            assert(t[i] == s[i]);
            lemma_entries_map_at(t, i);
        }
    }
    assert(entries_map(t) =~= m);
}

proof fn lemma_entries_map_remove<H>(s: Seq<ClientEntry<H>>, j: int)
    requires
        fingerprints_unique(s),
        0 <= j < s.len(),
    ensures
        fingerprints_unique(s.remove(j)),
        entries_map(s.remove(j)) == entries_map(s).remove(s[j].fingerprint@),
{
    let t = s.remove(j);
    let kj = s[j].fingerprint@;
    assert forall|a: int| 0 <= a < t.len() implies #[trigger] t[a] == s[if a < j { a } else { a + 1 }] by {}
    assert forall|a: int, b: int|
        0 <= a < t.len() && 0 <= b < t.len() && a != b implies #[trigger] t[a].fingerprint@
        != #[trigger] t[b].fingerprint@ by {
        let a1 = if a < j { a } else { a + 1 };
        let b1 = if b < j { b } else { b + 1 };
        assert(t[a] == s[a1] && t[b] == s[b1]);
    }
    let m = entries_map(s).remove(kj);
    assert forall|k: Seq<u8>| #[trigger] entries_map(t).dom().contains(k) <==> m.dom().contains(k) by {
        if has_fingerprint(t, k) {
            let a = choose|a: int| 0 <= a < t.len() && #[trigger] t[a].fingerprint@ == k;
            let a1 = if a < j { a } else { a + 1 };
            assert(t[a] == s[a1]);
            assert(has_fingerprint(s, k));
            assert(a1 != j);
        }
        if has_fingerprint(s, k) && k != kj {
            let a1 = choose|a: int| 0 <= a < s.len() && #[trigger] s[a].fingerprint@ == k;
            assert(a1 != j);
            let a = if a1 < j { a1 } else { a1 - 1 };
            assert(t[a] == s[a1]);
        }
    }
    assert forall|k: Seq<u8>| #[trigger] m.dom().contains(k) implies entries_map(t)[k] == m[k] by {
        let a1 = choose|a: int| 0 <= a < s.len() && #[trigger] s[a].fingerprint@ == k;
        assert(a1 != j);
        let a = if a1 < j { a1 } else { a1 - 1 };
        assert(t[a] == s[a1]);
        lemma_entries_map_at(s, a1);
        lemma_entries_map_at(t, a);
    }
    assert(entries_map(t) =~= m);
}

proof fn lemma_entries_map_len<H>(s: Seq<ClientEntry<H>>)
    requires
        fingerprints_unique(s),
    ensures
        entries_map(s).dom().finite(),
        entries_map(s).len() == s.len(),
    decreases s.len(),
{
    if s.len() == 0 {
        assert(entries_map(s) =~= Map::<Seq<u8>, (Seq<u8>, H)>::empty());
    } else {
        let p = s.drop_last();
        let e = s.last();
        assert(p.push(e) =~= s);
        assert forall|i: int, j: int|
            0 <= i < p.len() && 0 <= j < p.len() && i != j implies #[trigger] p[i].fingerprint@
            != #[trigger] p[j].fingerprint@ by {
            assert(p[i] == s[i] && p[j] == s[j]);
        }
        if has_fingerprint(p, e.fingerprint@) {
            let i = choose|i: int| 0 <= i < p.len() && #[trigger] p[i].fingerprint@ == e.fingerprint@;
            assert(p[i] == s[i]);
            assert(s[s.len() - 1] == e);
        }
        lemma_entries_map_push(p, e);
        lemma_entries_map_len(p);
    }
}

impl<H> View for ClientRegistry<H> {
    type V = Map<Seq<u8>, (Seq<u8>, H)>;

    closed spec fn view(&self) -> Map<Seq<u8>, (Seq<u8>, H)> {
        entries_map(self.entries@)
    }
}

impl<H> ClientRegistry<H> {
    /// The registry keeps fingerprints unique.
    #[verifier::type_invariant]
    spec fn fingerprints_are_unique(&self) -> bool {
        fingerprints_unique(self.entries@)
    }

    /// The position of the entry with fingerprint `fingerprint`, if any.
    fn find(&self, fingerprint: &[u8]) -> (pos: Option<usize>)
        ensures
            fingerprints_unique(self.entries@),
            match pos {
                Some(i) => i < self.entries@.len() && self.entries@[i as int].fingerprint@
                    == fingerprint@,
                None => !has_fingerprint(self.entries@, fingerprint@),
            },
    {
        proof {
            use_type_invariant(self);
        }
        let n = self.entries.len();
        let mut i: usize = 0;
        while i < n
            invariant
                n == self.entries@.len(),
                i <= n,
                fingerprints_unique(self.entries@),
                forall|j: int| 0 <= j < i ==> #[trigger] self.entries@[j].fingerprint@ != fingerprint@,
            decreases n - i,
        {
            if bytes_equal(self.entries[i].fingerprint.as_slice(), fingerprint) {
                return Some(i);
            }
            i = i + 1;
        }
        None
    }

    /// An empty registry.
    pub fn new() -> (registry: Self)
        ensures
            registry@ == Map::<Seq<u8>, (Seq<u8>, H)>::empty(),
    {
        let registry = ClientRegistry { entries: Vec::new() };
        assert(registry@ =~= Map::<Seq<u8>, (Seq<u8>, H)>::empty());
        registry
    }

    /// The number of registered clients.
    pub fn len(&self) -> (n: usize)
        ensures
            n == self@.len(),
    {
        proof {
            use_type_invariant(self);
            lemma_entries_map_len(self.entries@);
        }
        self.entries.len()
    }

    /// Whether a client with this fingerprint is registered.
    pub fn contains(&self, fingerprint: &[u8]) -> (found: bool)
        ensures
            found == self@.dom().contains(fingerprint@),
    {
        self.find(fingerprint).is_some()
    }

    /// The entry registered under `fingerprint`, if any.
    pub fn get(&self, fingerprint: &[u8]) -> (entry: Option<&ClientEntry<H>>)
        ensures
            match entry {
                Some(e) => self@.dom().contains(fingerprint@) && e.fingerprint@ == fingerprint@
                    && self@[fingerprint@] == (e.public_key@, e.handle),
                None => !self@.dom().contains(fingerprint@),
            },
    {
        match self.find(fingerprint) {
            Some(i) => {
                proof {
                    lemma_entries_map_at(self.entries@, i as int);
                }
                Some(&self.entries[i])
            },
            None => None,
        }
    }

    /// Registers a client. Refused, leaving the registry as it was, when a client
    /// with the same fingerprint is already registered.
    pub fn register(&mut self, entry: ClientEntry<H>) -> (result: Result<(), Error>)
        ensures
            old(self)@.dom().contains(entry.fingerprint@) ==> (result matches Err(
                Error::DuplicateClient(k),
            ) && k@ == entry.fingerprint@ && final(self)@ == old(self)@),
            !old(self)@.dom().contains(entry.fingerprint@) ==> (result is Ok && final(self)@
                == old(self)@.insert(entry.fingerprint@, (entry.public_key@, entry.handle))),
    {
        match self.find(entry.fingerprint.as_slice()) {
            Some(i) => {
                proof {
                    lemma_entries_map_at(self.entries@, i as int);
                }
                Err(Error::DuplicateClient(entry.fingerprint))
            },
            None => {
                let mut entries: Vec<ClientEntry<H>> = Vec::new();
                std::mem::swap(&mut entries, &mut self.entries);
                proof {
                    lemma_entries_map_push(entries@, entry);
                }
                entries.push(entry);
                self.entries = entries;
                Ok(())
            },
        }
    }

    /// Empties the registry and hands out every entry it held.
    pub fn take_all(&mut self) -> (taken: Vec<ClientEntry<H>>)
        ensures
            final(self)@ == Map::<Seq<u8>, (Seq<u8>, H)>::empty(),
            fingerprints_unique(taken@),
            entries_map(taken@) == old(self)@,
    {
        proof {
            use_type_invariant(&*self);
        }
        let mut taken: Vec<ClientEntry<H>> = Vec::new();
        std::mem::swap(&mut taken, &mut self.entries);
        assert(self@ =~= Map::<Seq<u8>, (Seq<u8>, H)>::empty());
        taken
    }

    /// Removes the client registered under `fingerprint`, if there is one.
    pub fn unregister(&mut self, fingerprint: &[u8])
        ensures
            final(self)@ == old(self)@.remove(fingerprint@),
    {
        match self.find(fingerprint) {
            Some(i) => {
                let mut entries: Vec<ClientEntry<H>> = Vec::new();
                std::mem::swap(&mut entries, &mut self.entries);
                proof {
                    lemma_entries_map_remove(entries@, i as int);
                }
                let _removed = entries.remove(i);
                self.entries = entries;
            },
            None => {
                assert(self@ =~= self@.remove(fingerprint@));
            },
        }
    }
}

/// The reason given to a client that asks for a peer who is not connected.
pub open spec fn no_such_client_text() -> Seq<char> {
    "No client with the specified key fingerprint is connected."@
}

/// The shutdown reason when the destination cannot be reached.
pub open spec fn destination_disconnected_text() -> Seq<char> {
    "Destination client disconnected"@
}

/// The shutdown reason when the destination declined the connection.
pub open spec fn destination_rejected_text() -> Seq<char> {
    "Destination client rejected connection"@
}

/// The shutdown reason sent to every client when the server stops.
pub open spec fn server_shutting_down_text() -> Seq<char> {
    "Server shutting down"@
}

/// `ConnectFail`: no client with the requested fingerprint is connected.
pub fn no_such_client() -> (packet: Clientbound)
    ensures
        packet@ == (ClientboundModel::ConnectFail { reason: no_such_client_text() }),
{
    Clientbound::ConnectFail {
        reason: String::from_str("No client with the specified key fingerprint is connected."),
    }
}

/// `Shutdown`: the destination client cannot be reached.
pub fn destination_disconnected() -> (packet: Clientbound)
    ensures
        packet@ == (ClientboundModel::Shutdown { message: destination_disconnected_text() }),
{
    Clientbound::Shutdown { message: String::from_str("Destination client disconnected") }
}

/// `Shutdown`: the destination client declined the connection.
pub fn destination_rejected() -> (packet: Clientbound)
    ensures
        packet@ == (ClientboundModel::Shutdown { message: destination_rejected_text() }),
{
    Clientbound::Shutdown { message: String::from_str("Destination client rejected connection") }
}

/// The reason the server gives its clients when it stops.
pub fn server_shutting_down() -> (reason: String)
    ensures
        reason@ == server_shutting_down_text(),
{
    String::from_str("Server shutting down")
}

/// What a client's event loop does next, in the order the actions are listed.
#[derive(Debug)]
pub enum Action<R> {
    /// Send this packet to the own client; a failure to send ends the session.
    Send(Clientbound),
    /// Send this packet to the own client; a failure to send is ignored.
    Notify(Clientbound),
    /// Answer another client's waiting connection request with `accept`; if the
    /// answer cannot be delivered, send `on_failure` (when there is one) to the
    /// own client.
    Answer { responder: R, accept: bool, on_failure: Option<Clientbound> },
    /// Ask the `destination` client to accept a connection from `requester`,
    /// keeping the channel on which it will answer; if the request cannot be
    /// delivered, send `fallback` to the own client.
    AskDestination { destination: Vec<u8>, requester: Vec<u8>, fallback: Clientbound },
    /// Hand this packet to the `destination` client; a failure is ignored.
    Forward { destination: Vec<u8>, packet: Clientbound },
}

/// What an action does.
pub enum ActionModel<R> {
    Send(ClientboundModel),
    Notify(ClientboundModel),
    Answer { responder: R, accept: bool, on_failure: Option<ClientboundModel> },
    AskDestination { destination: Seq<u8>, requester: Seq<u8>, fallback: ClientboundModel },
    Forward { destination: Seq<u8>, packet: ClientboundModel },
}

impl<R> View for Action<R> {
    type V = ActionModel<R>;

    open spec fn view(&self) -> ActionModel<R> {
        match self {
            Action::Send(p) => ActionModel::Send(p@),
            Action::Notify(p) => ActionModel::Notify(p@),
            Action::Answer { responder, accept, on_failure } => ActionModel::Answer {
                responder: *responder,
                accept: *accept,
                on_failure: match on_failure {
                    Some(p) => Some(p@),
                    None => None,
                },
            },
            Action::AskDestination { destination, requester, fallback } =>
                ActionModel::AskDestination {
                    destination: destination@,
                    requester: requester@,
                    fallback: fallback@,
                },
            Action::Forward { destination, packet } => ActionModel::Forward {
                destination: destination@,
                packet: packet@,
            },
        }
    }
}

/// The views of a list of actions.
pub open spec fn actions_view<R>(actions: Seq<Action<R>>) -> Seq<ActionModel<R>> {
    actions.map_values(|a: Action<R>| a@)
}

/// The state of one client's event loop.
pub struct ClientSession<R> {
    key_fingerprint: Vec<u8>,
    public_key: Vec<u8>,
    destination: Option<Vec<u8>>,
    request_pending: bool,
    waiting: Vec<(Vec<u8>, R)>,
}

/// What a session holds: the client's own fingerprint and DER-encoded public
/// key, the destination it asked to chat with, whether its request to the
/// destination is unanswered, and the requests of other clients (their
/// fingerprint and the channel to answer on) that wait for this client, in the
/// order they arrived.
pub struct SessionModel<R> {
    pub fingerprint: Seq<u8>,
    pub public_key: Seq<u8>,
    pub destination: Option<Seq<u8>>,
    pub request_pending: bool,
    pub waiting: Seq<(Seq<u8>, R)>,
}

/// No two waiting requests come from the same client.
pub open spec fn requesters_unique<R>(w: Seq<(Seq<u8>, R)>) -> bool {
    forall|i: int, j: int|
        0 <= i < w.len() && 0 <= j < w.len() && i != j ==> (#[trigger] w[i]).0 != (#[trigger] w[j]).0
}

/// Some waiting request comes from `peer`.
pub open spec fn is_waiting<R>(w: Seq<(Seq<u8>, R)>, peer: Seq<u8>) -> bool {
    exists|i: int| 0 <= i < w.len() && (#[trigger] w[i]).0 == peer
}

/// The position of the waiting request from `peer` (meaningful when there is one).
pub open spec fn waiting_position<R>(w: Seq<(Seq<u8>, R)>, peer: Seq<u8>) -> int {
    choose|i: int| 0 <= i < w.len() && (#[trigger] w[i]).0 == peer
}

/// The waiting requests after one from `peer` arrives: it takes the place of an
/// earlier request from the same client, or joins the end.
pub open spec fn with_request<R>(w: Seq<(Seq<u8>, R)>, peer: Seq<u8>, responder: R) -> Seq<
    (Seq<u8>, R),
> {
    if is_waiting(w, peer) {
        w.update(waiting_position(w, peer), (peer, responder))
    } else {
        w.push((peer, responder))
    }
}

/// The requester fingerprints and answer channels of stored requests.
pub open spec fn requests_view<R>(w: Seq<(Vec<u8>, R)>) -> Seq<(Seq<u8>, R)> {
    w.map_values(|p: (Vec<u8>, R)| (p.0@, p.1))
}

/// Declining each of these requests, in order.
pub open spec fn declines<R>(w: Seq<(Seq<u8>, R)>) -> Seq<ActionModel<R>> {
    w.map_values(
        |p: (Seq<u8>, R)| ActionModel::Answer { responder: p.1, accept: false, on_failure: None },
    )
}

/// The session invariant: a request to the destination is only pending once a
/// destination is chosen, no requests wait once a destination is chosen, and no
/// client has two requests waiting.
pub open spec fn session_wf<R>(s: SessionModel<R>) -> bool {
    &&& s.request_pending ==> s.destination is Some
    &&& s.destination is Some ==> s.waiting.len() == 0
    &&& requesters_unique(s.waiting)
}

/// What a session does with a packet from its own client, given the
/// registered clients: the actions and the next state, or `None` when the packet
/// does not fit the session (the session then ends with `UnexpectedMessage`).
pub open spec fn handle_step<R, H>(
    s: SessionModel<R>,
    m: ServerboundModel,
    clients: Map<Seq<u8>, (Seq<u8>, H)>,
) -> Option<(Seq<ActionModel<R>>, SessionModel<R>)> {
    match m {
        ServerboundModel::ConnectRequest { peer_fingerprint } => {
            let peer = encode_utf8(peer_fingerprint);
            if s.request_pending || s.destination is Some {
                None
            } else if !clients.dom().contains(peer) {
                Some(
                    (
                        seq![
                            ActionModel::Send(
                                ClientboundModel::ConnectFail { reason: no_such_client_text() },
                            ),
                        ],
                        s,
                    ),
                )
            } else {
                let connected = SessionModel {
                    fingerprint: s.fingerprint,
                    public_key: s.public_key,
                    destination: Some(peer),
                    request_pending: !is_waiting(s.waiting, peer),
                    waiting: Seq::empty(),
                };
                let disconnected = ClientboundModel::Shutdown {
                    message: destination_disconnected_text(),
                };
                let first = if is_waiting(s.waiting, peer) {
                    let j = waiting_position(s.waiting, peer);
                    seq![
                        ActionModel::Answer {
                            responder: s.waiting[j].1,
                            accept: true,
                            on_failure: Some(disconnected),
                        },
                    ] + declines(s.waiting.remove(j))
                } else {
                    seq![
                        ActionModel::AskDestination {
                            destination: peer,
                            requester: s.fingerprint,
                            fallback: disconnected,
                        },
                    ] + declines(s.waiting)
                };
                Some((first + seq![ActionModel::Send(ClientboundModel::ConnectWaiting)], connected))
            }
        },
        ServerboundModel::Message(e) => match s.destination {
            Some(d) => {
                let act = if clients.dom().contains(d) {
                    ActionModel::Forward { destination: d, packet: ClientboundModel::Message(e) }
                } else {
                    ActionModel::Send(
                        ClientboundModel::Shutdown { message: destination_disconnected_text() },
                    )
                };
                Some((seq![act], s))
            },
            None => None,
        },
        ServerboundModel::UseKey { session_key, signature } => match s.destination {
            Some(d) => {
                let act = if clients.dom().contains(d) {
                    ActionModel::Forward {
                        destination: d,
                        packet: ClientboundModel::UseKey {
                            dst_public_key: s.public_key,
                            session_key,
                            signature,
                        },
                    }
                } else {
                    ActionModel::Send(
                        ClientboundModel::Shutdown { message: destination_disconnected_text() },
                    )
                };
                Some((seq![act], s))
            },
            None => None,
        },
        ServerboundModel::Hello { .. } => None,
    }
}

/// What the session does when the destination answers its request.
pub open spec fn response_step<R, H>(
    s: SessionModel<R>,
    accepted: bool,
    clients: Map<Seq<u8>, (Seq<u8>, H)>,
) -> ActionModel<R> {
    let d = s.destination->Some_0;
    if !accepted {
        ActionModel::Send(ClientboundModel::Shutdown { message: destination_rejected_text() })
    } else if clients.dom().contains(d) {
        ActionModel::Send(ClientboundModel::ChooseKey { dst_public_key: clients[d].0 })
    } else {
        ActionModel::Send(ClientboundModel::Shutdown { message: destination_disconnected_text() })
    }
}

impl<R> View for ClientSession<R> {
    type V = SessionModel<R>;

    closed spec fn view(&self) -> SessionModel<R> {
        SessionModel {
            fingerprint: self.key_fingerprint@,
            public_key: self.public_key@,
            destination: match self.destination {
                Some(d) => Some(d@),
                None => None,
            },
            request_pending: self.request_pending,
            waiting: requests_view(self.waiting@),
        }
    }
}

impl<R> ClientSession<R> {
    /// Every session keeps the session invariant.
    #[verifier::type_invariant]
    spec fn keeps_invariant(&self) -> bool {
        session_wf(self@)
    }

    /// The session of a client that has just registered under `key_fingerprint`
    /// with the DER-encoded `public_key`.
    pub fn new(key_fingerprint: Vec<u8>, public_key: Vec<u8>) -> (session: Self)
        ensures
            session_wf(session@),
            session@ == (SessionModel::<R> {
                fingerprint: key_fingerprint@,
                public_key: public_key@,
                destination: None,
                request_pending: false,
                waiting: Seq::empty(),
            }),
    {
        let session = ClientSession {
            key_fingerprint,
            public_key,
            destination: None,
            request_pending: false,
            waiting: Vec::new(),
        };
        assert(session@.waiting =~= Seq::<(Seq<u8>, R)>::empty());
        session
    }

    /// The fingerprint of the destination the client asked for, if any.
    pub fn destination(&self) -> (d: Option<&Vec<u8>>)
        ensures
            match d {
                Some(v) => self@.destination == Some(v@),
                None => self@.destination is None,
            },
    {
        self.destination.as_ref()
    }

    /// Whether the client's request to its destination is still unanswered.
    pub fn request_pending(&self) -> (pending: bool)
        ensures
            pending == self@.request_pending,
    {
        self.request_pending
    }

    /// The position of the waiting request from `peer`, if any.
    fn find_waiting(&self, peer: &[u8]) -> (pos: Option<usize>)
        requires
            requesters_unique(self@.waiting),
        ensures
            match pos {
                Some(i) => i < self@.waiting.len() && self@.waiting[i as int].0 == peer@
                    && is_waiting(self@.waiting, peer@) && waiting_position(self@.waiting, peer@)
                    == i,
                None => !is_waiting(self@.waiting, peer@),
            },
    {
        let n = self.waiting.len();
        let mut i: usize = 0;
        while i < n
            invariant
                n == self.waiting@.len(),
                i <= n,
                requesters_unique(self@.waiting),
                forall|j: int| 0 <= j < i ==> (#[trigger] self@.waiting[j]).0 != peer@,
            decreases n - i,
        {
            if bytes_equal(self.waiting[i].0.as_slice(), peer) {
                proof {
                    let w = self@.waiting;
                    assert(w[i as int].0 == peer@);
                    assert(is_waiting(w, peer@));
                    let k = waiting_position(w, peer@);
                    assert(w[k].0 == peer@);
                    assert(k == i);
                }
                return Some(i);
            }
            i = i + 1;
        }
        None
    }

    /// Another client asks to connect to this one. While this client has no
    /// destination the request waits (replacing an earlier request of the same
    /// client); once it has one, the request is declined at once.
    pub fn on_peer_request(&mut self, peer: Vec<u8>, responder: R) -> (answer: Option<Action<R>>)
        ensures
            match old(self)@.destination {
                None => answer is None && final(self)@ == (SessionModel {
                    waiting: with_request(old(self)@.waiting, peer@, responder),
                    ..old(self)@
                }),
                Some(_) => answer matches Some(a) && a@ == (ActionModel::Answer {
                    responder,
                    accept: false,
                    on_failure: None,
                }) && final(self)@ == old(self)@,
            },
    {
        proof {
            use_type_invariant(&*self);
        }
        if self.destination.is_some() {
            return Some(Action::Answer { responder, accept: false, on_failure: None });
        }
        let ghost w = self@.waiting;
        let pos = self.find_waiting(peer.as_slice());
        let mut waiting = self.take_waiting();
        match pos {
            Some(i) => {
                waiting.set(i, (peer, responder));
                proof {
                    assert(requests_view(waiting@) =~= with_request(w, peer@, responder));
                }
            },
            None => {
                waiting.push((peer, responder));
                proof {
                    assert(requests_view(waiting@) =~= with_request(w, peer@, responder));
                    let nw = requests_view(waiting@);
                    assert forall|a: int, b: int|
                        0 <= a < nw.len() && 0 <= b < nw.len() && a != b implies (#[trigger] nw[a]).0
                        != (#[trigger] nw[b]).0 by {
                        if a < w.len() && b < w.len() {
                        } else if a < w.len() {
                            assert(!(w[a].0 == peer@));
                        } else {
                            assert(!(w[b].0 == peer@));
                        }
                    }
                }
            },
        }
        self.waiting = waiting;
        None
    }

    /// Takes the requests that wait, leaving none.
    fn take_waiting(&mut self) -> (taken: Vec<(Vec<u8>, R)>)
        ensures
            requests_view(taken@) == old(self)@.waiting,
            final(self)@ == (SessionModel { waiting: Seq::empty(), ..old(self)@ }),
    {
        proof {
            use_type_invariant(&*self);
        }
        let mut taken: Vec<(Vec<u8>, R)> = Vec::new();
        std::mem::swap(&mut taken, &mut self.waiting);
        assert(self@.waiting =~= Seq::<(Seq<u8>, R)>::empty());
        taken
    }

    /// Handles a packet from the session's own client.
    ///
    /// A `ConnectRequest` is only accepted while the client has no destination:
    /// if the requested peer is not connected the client is told so and may ask
    /// again; if the peer already asked for this client, its request is
    /// accepted; otherwise the peer is asked. Every other waiting request is
    /// declined, and the client is told to wait. Once a destination is chosen, a
    /// `UseKey` (the answer to `ChooseKey`) is handed to the destination as a
    /// `UseKey` that carries this client's public key, and a `Message` is handed
    /// to it as it is; when the destination is gone, the client is told so.
    /// Anything else ends the session with `UnexpectedMessage`.
    pub fn handle_message<H>(&mut self, message: Serverbound, clients: &ClientRegistry<H>) -> (result:
        Result<Vec<Action<R>>, Error>)
        ensures
            match handle_step(old(self)@, message@, clients@) {
                Some((acts, next)) => result matches Ok(a) && actions_view(a@) == acts
                    && final(self)@ == next,
                None => result matches Err(Error::UnexpectedMessage(m)) && m == message
                    && final(self)@ == old(self)@,
            },
    {
        proof {
            use_type_invariant(&*self);
        }
        match message {
            Serverbound::ConnectRequest { peer_fingerprint } => {
                if self.request_pending || self.destination.is_some() {
                    return Err(Error::UnexpectedMessage(Serverbound::ConnectRequest { peer_fingerprint }));
                }
                let peer: Vec<u8> = vstd::slice::slice_to_vec(peer_fingerprint.as_str().as_bytes());
                if !clients.contains(peer.as_slice()) {
                    let actions = vec![Action::Send(no_such_client())];
                    proof {
                        assert(actions_view(actions@) =~= seq![
                            ActionModel::Send(
                                ClientboundModel::ConnectFail { reason: no_such_client_text() },
                            ),
                        ]);
                    }
                    return Ok(actions);
                }
                let ghost s = self@;
                let pos = self.find_waiting(peer.as_slice());
                let mut waiting = self.take_waiting();
                let mut actions: Vec<Action<R>> = Vec::new();
                let pending = match pos {
                    Some(j) => {
                        let (_requester, responder) = waiting.remove(j);
                        actions.push(
                            Action::Answer {
                                responder,
                                accept: true,
                                on_failure: Some(destination_disconnected()),
                            },
                        );
                        proof {
                            assert(requests_view(waiting@) =~= s.waiting.remove(
                                j as int,
                            ));
                        }
                        false
                    },
                    None => {
                        actions.push(
                            Action::AskDestination {
                                destination: peer.clone(),
                                requester: self.key_fingerprint.clone(),
                                fallback: destination_disconnected(),
                            },
                        );
                        true
                    },
                };
                let ghost rest = requests_view(waiting@);
                let ghost first = actions_view(actions@);
                while waiting.len() > 0
                    invariant
                        rest.len() >= waiting@.len(),
                        requests_view(waiting@) == rest.skip(
                            rest.len() - waiting@.len(),
                        ),
                        actions_view(actions@) == first + declines(
                            rest.take(rest.len() - waiting@.len()),
                        ),
                    decreases waiting@.len(),
                {
                    let ghost k = rest.len() - waiting@.len();
                    let ghost before = actions@;
                    let ghost wv = waiting@;
                    let (_requester, responder) = waiting.remove(0);
                    actions.push(Action::Answer { responder, accept: false, on_failure: None });
                    proof {
                        assert(rest.skip(k)[0] == rest[k]);
                        assert(requests_view(wv)[0] == rest[k]);
                        assert(rest.take(k + 1) =~= rest.take(k).push(rest[k]));
                        assert(declines(rest.take(k + 1)) =~= declines(rest.take(k)).push(
                            ActionModel::Answer { responder: rest[k].1, accept: false, on_failure: None },
                        ));
                        assert(actions_view(actions@) =~= actions_view(before).push(
                            ActionModel::Answer { responder: rest[k].1, accept: false, on_failure: None },
                        ));
                        let wm = requests_view(wv);
                        assert forall|i: int| 0 <= i < waiting@.len() implies #[trigger] waiting@[i]
                            == wv[i + 1] by {}
                        assert forall|i: int| 0 <= i < waiting@.len() implies #[trigger] wm[i + 1]
                            == rest[k + 1 + i] by {
                            assert(wm[i + 1] == rest.skip(k)[i + 1]);
                        }
                        let nv = requests_view(waiting@);
                        assert(nv.len() == rest.skip(k + 1).len());
                        assert forall|i: int| 0 <= i < nv.len() implies #[trigger] nv[i] == rest.skip(
                            k + 1,
                        )[i] by {
                            assert(waiting@[i] == wv[i + 1]);
                            assert(wm[i + 1] == rest[k + 1 + i]);
                        }
                        assert(nv =~= rest.skip(k + 1));
                    }
                }
                let ghost before_wait = actions@;
                actions.push(Action::Send(Clientbound::ConnectWaiting));
                proof {
                    assert(rest.take(rest.len() as int) =~= rest);
                    assert(actions_view(actions@) =~= actions_view(before_wait).push(
                        ActionModel::Send(ClientboundModel::ConnectWaiting),
                    ));
                }
                self.destination = Some(peer);
                self.request_pending = pending;
                Ok(actions)
            },
            Serverbound::Message(e) => {
                match &self.destination {
                    Some(d) => {
                        let act = if clients.contains(d.as_slice()) {
                            Action::Forward { destination: d.clone(), packet: Clientbound::Message(e) }
                        } else {
                            Action::Send(destination_disconnected())
                        };
                        let actions = vec![act];
                        assert(actions_view(actions@) =~= seq![act@]);
                        Ok(actions)
                    },
                    None => Err(Error::UnexpectedMessage(Serverbound::Message(e))),
                }
            },
            Serverbound::UseKey { session_key, signature } => {
                match &self.destination {
                    Some(d) => {
                        let act = if clients.contains(d.as_slice()) {
                            Action::Forward {
                                destination: d.clone(),
                                packet: Clientbound::UseKey {
                                    dst_public_key: self.public_key.clone(),
                                    session_key,
                                    signature,
                                },
                            }
                        } else {
                            Action::Send(destination_disconnected())
                        };
                        let actions = vec![act];
                        assert(actions_view(actions@) =~= seq![act@]);
                        Ok(actions)
                    },
                    None => Err(Error::UnexpectedMessage(Serverbound::UseKey { session_key, signature })),
                }
            },
            other => Err(Error::UnexpectedMessage(other)),
        }
    }

    /// The destination answered this client's connection request; a lost answer
    /// counts as a refusal. On acceptance the client is chosen to generate the
    /// session key and gets the destination's public key, unless the
    /// destination has gone meanwhile. The request is no longer pending.
    pub fn on_destination_response<H>(&mut self, accepted: bool, clients: &ClientRegistry<H>) -> (action:
        Action<R>)
        requires
            old(self)@.request_pending,
        ensures
            action@ == response_step(old(self)@, accepted, clients@),
            final(self)@ == (SessionModel { request_pending: false, ..old(self)@ }),
    {
        proof {
            use_type_invariant(&*self);
        }
        self.request_pending = false;
        if accepted {
            match &self.destination {
                Some(d) => match clients.get(d.as_slice()) {
                    Some(entry) => Action::Send(
                        Clientbound::ChooseKey { dst_public_key: entry.public_key.clone() },
                    ),
                    None => Action::Send(destination_disconnected()),
                },
                None => Action::Send(destination_disconnected()),
            }
        } else {
            Action::Send(destination_rejected())
        }
    }

    /// The channel on which other clients' requests arrive has closed: the client
    /// is told that the destination is gone.
    pub fn on_peer_requests_closed(&self) -> (action: Action<R>)
        ensures
            action@ == ActionModel::<R>::Notify(
                ClientboundModel::Shutdown { message: destination_disconnected_text() },
            ),
    {
        Action::Notify(destination_disconnected())
    }
}


/// The channels answered by a list of actions, in order.
pub open spec fn answered<R>(acts: Seq<ActionModel<R>>) -> Seq<R>
    decreases acts.len(),
{
    if acts.len() == 0 {
        Seq::empty()
    } else {
        let earlier = answered(acts.drop_last());
        match acts.last() {
            ActionModel::Answer { responder, .. } => earlier.push(responder),
            _ => earlier,
        }
    }
}

/// The answer channels of waiting requests, in order.
pub open spec fn responders<R>(w: Seq<(Seq<u8>, R)>) -> Seq<R> {
    w.map_values(|p: (Seq<u8>, R)| p.1)
}

proof fn lemma_answered_concat<R>(a: Seq<ActionModel<R>>, b: Seq<ActionModel<R>>)
    ensures
        answered(a + b) == answered(a) + answered(b),
    decreases b.len(),
{
    if b.len() == 0 {
        assert(a + b =~= a);
        assert(answered(a) + answered(b) =~= answered(a));
    } else {
        lemma_answered_concat(a, b.drop_last());
        assert((a + b).drop_last() =~= a + b.drop_last());
        assert((a + b).last() == b.last());
        match b.last() {
            ActionModel::Answer { responder, .. } => {
                assert(answered(a) + answered(b.drop_last()).push(responder) =~= (answered(a)
                    + answered(b.drop_last())).push(responder));
            },
            _ => {},
        }
    }
}

proof fn lemma_answered_declines<R>(w: Seq<(Seq<u8>, R)>)
    ensures
        answered(declines(w)) == responders(w),
    decreases w.len(),
{
    if w.len() == 0 {
        assert(responders(w) =~= Seq::<R>::empty());
    } else {
        lemma_answered_declines(w.drop_last());
        assert(declines(w).drop_last() =~= declines(w.drop_last()));
        assert(responders(w) =~= responders(w.drop_last()).push(w.last().1));
    }
}

/// Once a client's `ConnectRequest` for a connected peer is accepted, every
/// request that was waiting for it is answered exactly once (the peer's own
/// request accepted, all others declined), none is left waiting, and the
/// client's destination is the peer.
pub proof fn lemma_connect_answers_every_waiting_request<R, H>(
    s: SessionModel<R>,
    peer_fingerprint: Seq<char>,
    clients: Map<Seq<u8>, (Seq<u8>, H)>,
)
    requires
        session_wf(s),
        s.destination is None,
        clients.dom().contains(encode_utf8(peer_fingerprint)),
    ensures
        handle_step(s, ServerboundModel::ConnectRequest { peer_fingerprint }, clients) matches Some(
            (acts, next),
        ) && answered(acts).to_multiset() == responders(s.waiting).to_multiset() && next.waiting.len()
            == 0 && next.destination == Some(encode_utf8(peer_fingerprint)),
{
    broadcast use vstd::multiset::group_multiset_axioms;

    let peer = encode_utf8(peer_fingerprint);
    let w = s.waiting;
    let tail = seq![ActionModel::<R>::Send(ClientboundModel::ConnectWaiting)];
    let none = Seq::<ActionModel<R>>::empty();
    assert(answered(none) == Seq::<R>::empty());
    assert(tail.drop_last() =~= none);
    assert(answered(tail) == answered(none));
    if is_waiting(w, peer) {
        let j = waiting_position(w, peer);
        let head = seq![
            ActionModel::Answer {
                responder: w[j].1,
                accept: true,
                on_failure: Some(ClientboundModel::Shutdown { message: destination_disconnected_text() }),
            },
        ];
        assert(head.drop_last() =~= none);
        assert(answered(head) =~= answered(none).push(w[j].1));
        lemma_answered_concat(head, declines(w.remove(j)));
        lemma_answered_concat(head + declines(w.remove(j)), tail);
        lemma_answered_declines(w.remove(j));
        assert(responders(w.remove(j)) =~= responders(w).remove(j));
        vstd::seq_lib::to_multiset_remove(responders(w), j);
        let rest = responders(w).remove(j);
        assert(seq![w[j].1] + rest =~= rest.insert(0, w[j].1));
        assert(rest.insert(0, w[j].1).to_multiset() == rest.to_multiset().insert(w[j].1)) by {
            vstd::seq_lib::to_multiset_insert(rest, 0, w[j].1);
        }
        assert(responders(w)[j] == w[j].1);
        assert(responders(w).to_multiset().contains(w[j].1)) by {
            vstd::seq_lib::to_multiset_contains(responders(w), w[j].1);
        }
        assert(answered(head + declines(w.remove(j)) + tail).to_multiset() =~= responders(
            w,
        ).to_multiset());
    } else {
        let head = seq![
            ActionModel::AskDestination {
                destination: peer,
                requester: s.fingerprint,
                fallback: ClientboundModel::Shutdown { message: destination_disconnected_text() },
            },
        ];
        assert(head.drop_last() =~= none);
        assert(answered(head) == answered(none));
        lemma_answered_concat(head, declines(w));
        lemma_answered_concat(head + declines(w), tail);
        lemma_answered_declines(w);
        assert(answered(head + declines(w) + tail) =~= responders(w));
    }
}

/// A client connects at most once: after a `ConnectRequest` that chose a
/// destination, any further `ConnectRequest` ends the session as unexpected.
pub proof fn lemma_connect_request_once<R, H>(
    s: SessionModel<R>,
    first_peer: Seq<char>,
    second_peer: Seq<char>,
    clients: Map<Seq<u8>, (Seq<u8>, H)>,
    later_clients: Map<Seq<u8>, (Seq<u8>, H)>,
)
    requires
        session_wf(s),
        clients.dom().contains(encode_utf8(first_peer)),
        handle_step(s, ServerboundModel::ConnectRequest { peer_fingerprint: first_peer }, clients) is Some,
    ensures
        handle_step(
            handle_step(s, ServerboundModel::ConnectRequest { peer_fingerprint: first_peer }, clients)->Some_0.1,
            ServerboundModel::ConnectRequest { peer_fingerprint: second_peer },
            later_clients,
        ) is None,
{
}

/// Chat messages are only relayed once a destination is chosen: before that, a
/// `Message` ends the session as unexpected.
pub proof fn lemma_message_needs_destination<R, H>(
    s: SessionModel<R>,
    e: EncryptedModel,
    clients: Map<Seq<u8>, (Seq<u8>, H)>,
)
    ensures
        (handle_step(s, ServerboundModel::Message(e), clients) is None) <==> (s.destination is None),
{
}

/// Every step of a session keeps the session invariant.
pub proof fn lemma_handle_step_keeps_invariant<R, H>(
    s: SessionModel<R>,
    m: ServerboundModel,
    clients: Map<Seq<u8>, (Seq<u8>, H)>,
)
    requires
        session_wf(s),
        handle_step(s, m, clients) is Some,
    ensures
        session_wf(handle_step(s, m, clients)->Some_0.1),
{
}

/// Two registered clients that ask for each other get connected, with `ChooseKey`
/// to one side and `UseKey` to the other. Client A asks for B first (B has not
/// asked for A): A's session asks B and tells A to wait. A's request waits in
/// B's session until B asks for A, which accepts it on the channel A's session
/// listens to. A's session, told of the acceptance, sends A `ChooseKey` with
/// B's public key, and the `UseKey` that A answers with is handed to B with A's
/// public key, the session key and the signature unchanged.
pub proof fn lemma_two_clients_connect<R, H>(
    a: SessionModel<R>,
    b: SessionModel<R>,
    a_text: Seq<char>,
    b_text: Seq<char>,
    responder: R,
    clients: Map<Seq<u8>, (Seq<u8>, H)>,
    session_key: Seq<u8>,
    signature: Seq<u8>,
)
    requires
        session_wf(a),
        session_wf(b),
        a.destination is None,
        b.destination is None,
        encode_utf8(a_text) == a.fingerprint,
        encode_utf8(b_text) == b.fingerprint,
        !is_waiting(a.waiting, b.fingerprint),
        clients.dom().contains(a.fingerprint),
        clients.dom().contains(b.fingerprint),
        clients[a.fingerprint].0 == a.public_key,
        clients[b.fingerprint].0 == b.public_key,
    ensures
        ({
            let disconnected = ClientboundModel::Shutdown { message: destination_disconnected_text() };
            let step1 = handle_step(a, ServerboundModel::ConnectRequest { peer_fingerprint: b_text }, clients);
            let a1 = step1->Some_0.1;
            let b1 = SessionModel { waiting: with_request(b.waiting, a.fingerprint, responder), ..b };
            let step2 = handle_step(b1, ServerboundModel::ConnectRequest { peer_fingerprint: a_text }, clients);
            let a2 = SessionModel { request_pending: false, ..a1 };
            &&& step1 is Some
            &&& step1->Some_0.0[0] == ActionModel::<R>::AskDestination {
                destination: b.fingerprint,
                requester: a.fingerprint,
                fallback: disconnected,
            }
            &&& step1->Some_0.0.last() == ActionModel::<R>::Send(ClientboundModel::ConnectWaiting)
            &&& a1.destination == Some(b.fingerprint) && a1.request_pending
            &&& step2 is Some
            &&& step2->Some_0.0[0] == ActionModel::<R>::Answer {
                responder,
                accept: true,
                on_failure: Some(disconnected),
            }
            &&& step2->Some_0.1.destination == Some(a.fingerprint)
            &&& !step2->Some_0.1.request_pending
            &&& response_step(a1, true, clients) == ActionModel::<R>::Send(
                ClientboundModel::ChooseKey { dst_public_key: b.public_key },
            )
            &&& handle_step(a2, ServerboundModel::UseKey { session_key, signature }, clients) == Some(
                (
                    seq![
                        ActionModel::<R>::Forward {
                            destination: b.fingerprint,
                            packet: ClientboundModel::UseKey {
                                dst_public_key: a.public_key,
                                session_key,
                                signature,
                            },
                        },
                    ],
                    a2,
                ),
            )
        }),
{
    let b1 = SessionModel { waiting: with_request(b.waiting, a.fingerprint, responder), ..b };
    let w = with_request(b.waiting, a.fingerprint, responder);
    if is_waiting(b.waiting, a.fingerprint) {
        let j = waiting_position(b.waiting, a.fingerprint);
        assert(w[j].0 == a.fingerprint);
        assert(is_waiting(w, a.fingerprint));
    } else {
        assert(w[b.waiting.len() as int].0 == a.fingerprint);
        assert(is_waiting(w, a.fingerprint));
    }
    let j = waiting_position(w, a.fingerprint);
    assert(w[j].0 == a.fingerprint);
    assert(w[j].1 == responder) by {
        if is_waiting(b.waiting, a.fingerprint) {
            let i = waiting_position(b.waiting, a.fingerprint);
            assert(b.waiting.update(i, (a.fingerprint, responder))[i].0 == a.fingerprint);
        }
    }
}

/// Once a client has a destination that is registered, each chat message it
/// sends is handed to that destination unchanged, and nothing else happens:
/// whether its own request is still pending, who asked for whom, and what else
/// the session holds make no difference, and the session does not change.
pub proof fn lemma_chat_message_is_relayed<R, H>(
    s: SessionModel<R>,
    d: Seq<u8>,
    e: EncryptedModel,
    clients: Map<Seq<u8>, (Seq<u8>, H)>,
)
    requires
        s.destination == Some(d),
        clients.dom().contains(d),
    ensures
        handle_step(s, ServerboundModel::Message(e), clients) == Some(
            (
                seq![ActionModel::<R>::Forward { destination: d, packet: ClientboundModel::Message(e) }],
                s,
            ),
        ),
{
}

/// Once a client has a destination that is registered, the session key it
/// sends is handed to that destination with the sender's own public key, the
/// key and the signature unchanged, whatever else the session holds; the
/// session does not change.
pub proof fn lemma_use_key_is_relayed<R, H>(
    s: SessionModel<R>,
    d: Seq<u8>,
    session_key: Seq<u8>,
    signature: Seq<u8>,
    clients: Map<Seq<u8>, (Seq<u8>, H)>,
)
    requires
        s.destination == Some(d),
        clients.dom().contains(d),
    ensures
        handle_step(s, ServerboundModel::UseKey { session_key, signature }, clients) == Some(
            (
                seq![
                    ActionModel::<R>::Forward {
                        destination: d,
                        packet: ClientboundModel::UseKey {
                            dst_public_key: s.public_key,
                            session_key,
                            signature,
                        },
                    },
                ],
                s,
            ),
        ),
{
}

/// A client whose destination is no longer registered is told so when it
/// sends a chat message or a session key, and nothing is handed on; the
/// session does not change.
pub proof fn lemma_relay_to_departed_destination<R, H>(
    s: SessionModel<R>,
    d: Seq<u8>,
    m: ServerboundModel,
    clients: Map<Seq<u8>, (Seq<u8>, H)>,
)
    requires
        s.destination == Some(d),
        !clients.dom().contains(d),
        m is Message || m is UseKey,
    ensures
        handle_step(s, m, clients) == Some(
            (
                seq![
                    ActionModel::<R>::Send(
                        ClientboundModel::Shutdown { message: destination_disconnected_text() },
                    ),
                ],
                s,
            ),
        ),
{
}

/// After the destination accepts a client's request, the client's chat
/// messages reach the destination: the acceptance leaves the destination in
/// place, and a message is then relayed to it while it stays registered.
pub proof fn lemma_messages_flow_after_acceptance<R, H>(
    s: SessionModel<R>,
    e: EncryptedModel,
    clients: Map<Seq<u8>, (Seq<u8>, H)>,
)
    requires
        session_wf(s),
        s.request_pending,
        clients.dom().contains(s.destination->Some_0),
    ensures
        ({
            let accepted = SessionModel { request_pending: false, ..s };
            &&& response_step(s, true, clients) == ActionModel::<R>::Send(
                ClientboundModel::ChooseKey { dst_public_key: clients[s.destination->Some_0].0 },
            )
            &&& handle_step(accepted, ServerboundModel::Message(e), clients) == Some(
                (
                    seq![
                        ActionModel::<R>::Forward {
                            destination: s.destination->Some_0,
                            packet: ClientboundModel::Message(e),
                        },
                    ],
                    accepted,
                ),
            )
        }),
{
}

} // verus!
