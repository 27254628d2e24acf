# Garble

An end-to-end encrypted chat: clients register with a server under the
fingerprint of their RSA key, ask the server for a chat with another client,
agree on an AES-256-GCM session key (chosen by one side, RSA-encrypted and
signed for the other), and then exchange messages that the server only relays.

## Layout

- `src/` — the verified library (Verus).
  - `message.rs` — the packets, and their wire framing (JSON text ended by a
    NUL byte) over a `bytes::BytesMut`, with the laws of reading back what was
    written.
  - `primitives.rs` — the OpenSSL operations the chat relies on, with the
    contracts the rest of the library is proved against.
  - `crypto.rs` — key pairs, key fingerprints, and the session key: its
    encryption for a peer and the encryption of chat messages, with the laws
    that the peer opens what was sealed for it.
  - `client/` — the client's errors, how it reads the server's replies while
    connecting and chatting, and the session-key operations in their by-value
    form.
  - `server.rs` — the registry of connected clients, and the decisions of a
    client's event loop on the server, with the law that two clients who ask
    for each other are connected and their session key is relayed.
  - `lib.rs` — the command-line address rules.
- `tests/` — tests of the library on concrete values.
- `app/` — the programs: the tokio server and client loops that perform what
  the library decides, the JSON codec, and the command line.
