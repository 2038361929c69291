//! The messages exchanged with websocket clients.
use vstd::prelude::*;

verus! {

/// A message to or from a websocket client.  On the wire each message is a
/// JSON object whose `type` field names the variant and whose other fields
/// are the variant's fields.
#[derive(Debug)]
pub enum WsMessage {
    ClientHello { device_name: String, session_id: String },
    PeerJoined { peer_id: String, device_name: String },
    PeerLeft { peer_id: String },
    Offer { from: String, to: String, sdp: String },
    Answer { from: String, to: String, sdp: String },
    IceCandidate { from: String, to: String, candidate: String },
    Ping,
    Pong,
    Heartbeat,
    Error { message: String },
}

} // verus!
