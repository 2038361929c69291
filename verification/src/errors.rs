//! The errors of the network layer.
use vstd::prelude::*;

verus! {

/// A failure of the network layer.
#[derive(Debug)]
pub enum SnapError {
    NetworkError(String),
    SerializationError(String),
    PeerNotFound,
}

impl SnapError {
    /// The text that describes the error.
    pub fn message(&self) -> (r: String)
        ensures
            r@ == match self {
                SnapError::NetworkError(s) => "Network error: "@ + s@,
                SnapError::SerializationError(s) => "Serialization error: "@ + s@,
                SnapError::PeerNotFound => "Peer Not Found"@,
            },
    {
        match self {
            SnapError::NetworkError(s) => {
                let mut r = String::from_str("Network error: ");
                r.append(s.as_str());
                r
            },
            SnapError::SerializationError(s) => {
                let mut r = String::from_str("Serialization error: ");
                r.append(s.as_str());
                r
            },
            SnapError::PeerNotFound => String::from_str("Peer Not Found"),
        }
    }
}

} // verus!
