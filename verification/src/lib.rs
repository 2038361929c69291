//! SnapLAN: pairing, sessions and signalling for sharing files between
//! devices on a local network.
//!
//! The modules hold the logic with its contracts: the server state
//! (`state`, over `str_map`), what the websocket server does with each
//! client message (`handler`), network discovery (`discovery`), identities
//! and capabilities (`identity`), key agreement (`handshake`), encrypted
//! sessions (`session`), pairing codes (`qr`), cryptography (`crypto`),
//! messages (`message`, `protocol`), identifiers (`ids`), settings
//! (`config`), errors (`errors`, `core_errors`), text helpers (`text`) and
//! the properties that span operations (`laws`).
pub mod config;
pub mod core_errors;
pub mod crypto;
pub mod discovery;
pub mod errors;
pub mod handler;
pub mod handshake;
pub mod identity;
pub mod ids;
pub mod laws;
pub mod message;
pub mod protocol;
pub mod qr;
pub mod session;
pub mod state;
pub mod str_map;
pub mod text;
