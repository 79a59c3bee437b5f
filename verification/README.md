# nd_secure

The security core of ND Secure, a local vault that keeps an encrypted media
gallery, a credential manager and per-project secrets under one master
password, written in Verus and proved against its contracts.

## Layout

- `src/` — the verified library.
  - `session.rs`: the vault header, password and recovery envelopes of the
    root key, unlocking, re-authentication, idle locking and the delay after
    failed attempts.
  - `crypto.rs`, `encoding.rs`: the primitives (AES-256-GCM, HKDF, SHA-256,
    HMAC-SHA-1, Argon2id, Base64, Base32, randomness) behind trusted
    wrappers, and the key derivations built on them.
  - `digest.rs`: SHA-256 over data fed in pieces, and the digest checks of
    copied clipboard text.
  - `container.rs`: the chunked container format of stored media: header,
    metadata and content records, nonces, range planning and reassembly.
  - `gallery.rs`, `thumbnail.rs`, `trash_flow.rs`: gallery rows and files,
    thumbnails, start-up recovery, and the step machines that move an item to
    the trash and back without ever losing it.
  - `credentials.rs`, `credential_search.rs`, `generator.rs`, `totp.rs`:
    credential records, search pages, password generation and TOTP codes.
  - `env.rs`, `registry.rs`: project registration, dotenv parsing and import
    planning.
  - `media_server.rs`, `request_head.rs`, `protocol.rs`, `token.rs`: the
    loopback stream server's request parsing, capability grants and ranges,
    and the `vault://` object protocol.
  - `health.rs`, `commands.rs`, `source.rs`, `state.rs`, `paths.rs` and the
    helper modules `bytes.rs`, `text.rs`, `ordered.rs`, `ids.rs`, `clock.rs`.
- `tests/` — tests of the library on concrete values.
- `app/` — the application around it: the header file, SQLite stores,
  container files, the stream server's socket loop, source files, processes,
  and the commands the interface calls.
