# snaplan

The backend of SnapLAN, a tool for pairing devices on a local network and
signalling between them, as a Verus-verified library (`src/`) and a thin
server program around it (`app/`).

- `src/` holds the logic, each function with a contract proved by Verus:
  the server state and its registries, the decisions the websocket server
  takes for each client message and at disconnection, discovery updates,
  identities and their capabilities, the key agreement of pairing, session
  states, pairing codes, and the cryptographic operations.  Calls into the
  cryptography, encoding and identifier crates stand behind small trusted
  wrappers whose contracts name what the crates compute.
- `app/` runs the HTTPS/websocket server (axum), the mDNS announcer and
  browser, the TCP peer protocol, and the JSON forms of the messages.
- `tests/` exercises the library on concrete values, including published
  test vectors for Ed25519, X25519, HKDF-SHA256 and AES-256-GCM.

## Collections

The server state's maps keyed by strings are `StrMap`s (`src/str_map.rs`):
a vector of entries in which no key occurs twice, viewed as a `Map`.  The
capabilities of an identity are a vector without duplicates, viewed as a
`Set`.  vstd specifies `HashMap` and `HashSet` only for key types that it
knows to obey its key model (integers and a few others); it gives no such
fact for `String` or for an enum of this crate, so with those keys the calls
type-check but nothing can be proved of their results.

## Dependencies

`rustls` is named only for `app/`: axum-server is built with
`tls-rustls-no-provider`, so the program installs rustls's `ring` crypto
provider itself at start-up, before it serves HTTPS.
