//! The messages of the direct peer-to-peer protocol.
use vstd::prelude::*;

verus! {

/// A message between two peers.
#[derive(Debug)]
pub enum Message {
    Hello { id: String, name: String },
    Ping,
    Pong,
    PairRequest { qr_token: String },
    PairAccept { session_id: String },
}

impl Clone for Message {
    fn clone(&self) -> (r: Self)
        ensures
            r == *self,
    {
        match self {
            Message::Hello { id, name } => Message::Hello { id: id.clone(), name: name.clone() },
            Message::Ping => Message::Ping,
            Message::Pong => Message::Pong,
            Message::PairRequest { qr_token } => Message::PairRequest { qr_token: qr_token.clone() },
            Message::PairAccept { session_id } => Message::PairAccept { session_id: session_id.clone() },
        }
    }
}

/// What the server answers to what it received: `Pong` to any message that
/// it could read, nothing otherwise.
pub fn server_reply(received: Option<Message>) -> (r: Option<Message>)
    ensures
        r is Some <==> received is Some,
        r matches Some(m) ==> m is Pong,
{
    match received {
        Some(_) => Some(Message::Pong),
        None => None,
    }
}

/// The message a client opens a connection with.
pub fn client_greeting() -> (m: Message)
    ensures
        m is Ping,
{
    Message::Ping
}

} // verus!
