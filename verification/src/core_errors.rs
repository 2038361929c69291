//! The errors of the core: identities, sessions, pairing and cryptography.
use vstd::prelude::*;

verus! {

/// `std::io::Error`, carried opaquely.
#[verifier::external_type_specification]
#[verifier::external_body]
pub struct ExIoError(std::io::Error);

/// A failure of the core.
#[derive(Debug)]
pub enum SnapError {
    InvalidState,
    InvalidIdentity,
    PeerNotFound,
    SessionNotFound,
    Transport(String),
    Discovery(String),
    Pairing(String),
    Crypto(String),
    Serialization(String),
    Io(std::io::Error),
}

impl From<std::io::Error> for SnapError {
    fn from(e: std::io::Error) -> (r: SnapError) {
        SnapError::Io(e)
    }
}

impl vstd::std_specs::convert::FromSpecImpl<std::io::Error> for SnapError {
    open spec fn obeys_from_spec() -> bool {
        true
    }

    open spec fn from_spec(v: std::io::Error) -> SnapError {
        SnapError::Io(v)
    }
}

/// The text of an I/O error (`std::io::Error` written out by `Display`).  It
/// comes from the operating system; nothing is claimed of it.
#[verifier::external_body]
fn io_error_text(e: &std::io::Error) -> String {
    e.to_string()
}


fn with_prefix(prefix: &str, details: &str) -> (r: String)
    ensures
        r@ == prefix@ + details@,
{
    let mut r = String::from_str(prefix);
    r.append(details);
    r
}

impl SnapError {
    /// The text that describes the error.
    pub fn message(&self) -> (r: String)
        ensures
            match self {
                SnapError::InvalidState => r@ == "Invalid state"@,
                SnapError::InvalidIdentity => r@ == "Invalid Identity"@,
                SnapError::PeerNotFound => r@ == "Peer not found"@,
                SnapError::SessionNotFound => r@ == "Session not found"@,
                SnapError::Transport(s) => r@ == "Transport error: "@ + s@,
                SnapError::Discovery(s) => r@ == "Discovery error: "@ + s@,
                SnapError::Pairing(s) => r@ == "Pairing error: "@ + s@,
                SnapError::Crypto(s) => r@ == "Crypto error: "@ + s@,
                SnapError::Serialization(s) => r@ == "Serialization error: "@ + s@,
                SnapError::Io(_) => exists|t: Seq<char>| r@ == "IO error: "@ + t,
            },
    {
        match self {
            SnapError::InvalidState => String::from_str("Invalid state"),
            SnapError::InvalidIdentity => String::from_str("Invalid Identity"),
            SnapError::PeerNotFound => String::from_str("Peer not found"),
            SnapError::SessionNotFound => String::from_str("Session not found"),
            SnapError::Transport(s) => with_prefix("Transport error: ", s.as_str()),
            SnapError::Discovery(s) => with_prefix("Discovery error: ", s.as_str()),
            SnapError::Pairing(s) => with_prefix("Pairing error: ", s.as_str()),
            SnapError::Crypto(s) => with_prefix("Crypto error: ", s.as_str()),
            SnapError::Serialization(s) => with_prefix("Serialization error: ", s.as_str()),
            SnapError::Io(e) => {
                let t = io_error_text(e);
                with_prefix("IO error: ", t.as_str())
            },
        }
    }
}

} // verus!
