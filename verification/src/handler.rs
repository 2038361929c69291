//! What the server does with what a websocket client sends.
//!
//! The connection loop itself (reading the socket, writing to it, the
//! channels) belongs to the caller; this module decides, for each message
//! and for the end of a connection, how the state changes and what is to be
//! sent where.
use vstd::prelude::*;
use crate::message::WsMessage;
use crate::state::{AppState, AppStateView, DiscoveryDevice, Peer, PeerView};
use crate::ids::is_hyphenated_uuid_v4;

verus! {

/// What the server announces to every client.
pub enum Event {
    /// A peer joined a session.
    PeerOnline { id: String, name: String, session: String },
    /// Every known peer.
    PeerList(Vec<Peer>),
    /// A peer left.
    PeerOffline { id: String },
    /// Every discovered device.
    DiscoveryList(Vec<DiscoveryDevice>),
}

/// What handling a message asks the caller to do, in order.
pub enum Action {
    /// Send the message to this client.
    Reply(WsMessage),
    /// Send the event to every client.
    Broadcast(Event),
    /// Keep this client's private channel under the peer id.
    RegisterChannel(String),
    /// Drop the private channel kept under the peer id.
    DropChannel(String),
    /// Pass the message on through the private channel of peer `to`.
    Forward { to: String, message: WsMessage },
}

/// What the server knows of one websocket connection: the peer id it got,
/// once it said hello.
pub struct Connection {
    pub peer_id: Option<String>,
}

impl Connection {
    /// A connection that has not said hello.
    pub fn new() -> (c: Self)
        ensures
            c.peer_id is None,
    {
        Connection { peer_id: None }
    }
}

/// The state after a client said hello: it is filed as peer `id` (address
/// "ws", seen at `now`), its channel is kept, and it joins the session.
pub open spec fn joined(s: AppStateView, id: Seq<char>, name: Seq<char>, session_id: Seq<char>, now: u64) -> AppStateView {
    s.with_peer(PeerView { id: id, name: name, address: "ws"@, last_seen: now }).with_channel(id).with_member(
        session_id,
        id,
    )
}

/// A signalling message passed on to the peer it names, unchanged.
pub open spec fn forwards(a: Action, to: Seq<char>, m: WsMessage) -> bool {
    a matches Action::Forward { to: t, message } && t@ == to && message == m
}

/// What handling a message does (see `handle_message_with`): from state
/// `s0` and connection peer id `c0`, with the id a hello gets and the
/// current time, to state `s1`, connection peer id `c1` and actions `r`.
pub open spec fn handled(
    s0: AppStateView,
    c0: Option<String>,
    msg: WsMessage,
    fresh_id: Seq<char>,
    now: u64,
    s1: AppState,
    c1: Option<String>,
    r: Seq<Action>,
) -> bool {
    match msg {
        WsMessage::ClientHello { device_name, session_id } => {
            &&& c1 matches Some(id) && id@ == fresh_id
            &&& s1@ == joined(s0, fresh_id, device_name@, session_id@, now)
            &&& r.len() == 4
            &&& r[0] matches Action::RegisterChannel(id) && id@ == fresh_id
            &&& r[1] matches Action::Broadcast(Event::PeerOnline { id, name, session }) && id@ == fresh_id
                && name@ == device_name@ && session@ == session_id@
            &&& r[2] matches Action::Broadcast(Event::PeerList(list)) && list@ == s1.peers.value_seq()
            &&& r[3] matches Action::Reply(WsMessage::PeerJoined { peer_id, device_name: name }) && peer_id@
                == fresh_id && name@ == device_name@
        },
        WsMessage::Ping => {
            &&& c1 == c0
            &&& s1@ == s0
            &&& r.len() == 1
            &&& r[0] matches Action::Reply(WsMessage::Pong)
        },
        WsMessage::Heartbeat => {
            &&& c1 == c0
            &&& s1@ == match c0 {
                Some(id) => s0.heartbeat(id@, now),
                None => s0,
            }
            &&& r.len() == 0
        },
        WsMessage::Offer { from, to, sdp } => {
            &&& c1 == c0
            &&& s1@ == s0
            &&& if s0.peers_tx.contains(to@) {
                r.len() == 1 && forwards(r[0], to@, WsMessage::Offer { from, to, sdp })
            } else {
                r.len() == 0
            }
        },
        WsMessage::Answer { from, to, sdp } => {
            &&& c1 == c0
            &&& s1@ == s0
            &&& if s0.peers_tx.contains(to@) {
                r.len() == 1 && forwards(r[0], to@, WsMessage::Answer { from, to, sdp })
            } else {
                r.len() == 0
            }
        },
        WsMessage::IceCandidate { from, to, candidate } => {
            &&& c1 == c0
            &&& s1@ == s0
            &&& if s0.peers_tx.contains(to@) {
                r.len() == 1 && forwards(r[0], to@, WsMessage::IceCandidate { from, to, candidate })
            } else {
                r.len() == 0
            }
        },
        _ => {
            &&& c1 == c0
            &&& s1@ == s0
            &&& r.len() == 0
        },
    }
}

/// Handles one message of a client, with the id that a hello gets and the
/// current time given.
///
/// - `ClientHello`: the client becomes peer `fresh_id`; the caller is asked
///   to keep its channel, to announce it, to send every client the peer
///   list, and to answer `PeerJoined`.
/// - `Ping`: answered with `Pong`.
/// - `Heartbeat`: the client's peer (once it said hello) is seen at `now`.
/// - `Offer`, `Answer`, `IceCandidate`: passed on to the peer named `to`
///   when it has a channel, dropped otherwise.
/// - anything else: ignored.
pub fn handle_message_with(
    state: &mut AppState,
    conn: &mut Connection,
    msg: WsMessage,
    fresh_id: String,
    now: u64,
) -> (r: Vec<Action>)
    requires
        old(state).wf(),
    ensures
        final(state).wf(),
        handled(old(state)@, old(conn).peer_id, msg, fresh_id@, now, *final(state), final(conn).peer_id, r@),
{
    let mut actions: Vec<Action> = Vec::new();
    match msg {
        WsMessage::ClientHello { device_name, session_id } => {
            conn.peer_id = Some(fresh_id.clone());
            let peer = Peer {
                id: fresh_id.clone(),
                name: device_name.clone(),
                address: String::from_str("ws"),
                last_seen: now,
            };
            state.add_peer(peer);
            state.register_channel(fresh_id.clone());
            actions.push(Action::RegisterChannel(fresh_id.clone()));
            actions.push(
                Action::Broadcast(
                    Event::PeerOnline { id: fresh_id.clone(), name: device_name.clone(), session: session_id.clone() },
                ),
            );
            state.add_peer_to_session(session_id.as_str(), fresh_id.as_str());
            let all_peers = state.peer_list();
            actions.push(Action::Broadcast(Event::PeerList(all_peers)));
            actions.push(Action::Reply(WsMessage::PeerJoined { peer_id: fresh_id, device_name }));
        },
        WsMessage::Ping => {
            actions.push(Action::Reply(WsMessage::Pong));
        },
        WsMessage::Heartbeat => {
            match &conn.peer_id {
                Some(id) => {
                    state.update_heartbeat_at(id.as_str(), now);
                },
                None => {},
            }
        },
        WsMessage::Offer { from, to, sdp } => {
            if state.has_channel(to.as_str()) {
                let target = to.clone();
                actions.push(Action::Forward { to: target, message: WsMessage::Offer { from, to, sdp } });
            }
        },
        WsMessage::Answer { from, to, sdp } => {
            if state.has_channel(to.as_str()) {
                let target = to.clone();
                actions.push(Action::Forward { to: target, message: WsMessage::Answer { from, to, sdp } });
            }
        },
        WsMessage::IceCandidate { from, to, candidate } => {
            if state.has_channel(to.as_str()) {
                let target = to.clone();
                actions.push(
                    Action::Forward { to: target, message: WsMessage::IceCandidate { from, to, candidate } },
                );
            }
        },
        _ => {},
    }
    actions
}

/// Handles one message of a client: a hello gets a fresh random peer id (a
/// version-4 UUID in lowercase hyphenated form), and the time is read from the clock
/// where it is needed.  What happens is what `handle_message_with` says for
/// some such id and time.
pub fn handle_message(state: &mut AppState, conn: &mut Connection, msg: WsMessage) -> (r: Vec<Action>)
    requires
        old(state).wf(),
    ensures
        final(state).wf(),
        exists|fresh_id: Seq<char>, now: u64|
            #[trigger] handled(old(state)@, old(conn).peer_id, msg, fresh_id, now, *final(state), final(conn).peer_id, r@)
                && (msg is ClientHello ==> is_hyphenated_uuid_v4(fresh_id)),
{
    let hello = matches!(msg, WsMessage::ClientHello { .. });
    let fresh_id = if hello {
        crate::ids::new_uuid_string()
    } else {
        String::new()
    };
    let needs_time = hello || matches!(msg, WsMessage::Heartbeat);
    let now = if needs_time {
        AppState::now()
    } else {
        0
    };
    let ghost id = fresh_id@;
    let ghost m = msg;
    let r = handle_message_with(state, conn, msg, fresh_id, now);
    assert(handled(old(state)@, old(conn).peer_id, m, id, now, *state, conn.peer_id, r@));
    r
}

/// Handles the end of a connection: a client that said hello is forgotten
/// as a peer, its channel dropped, its leaving announced, and it is taken
/// out of every session.
pub fn handle_disconnect(state: &mut AppState, conn: &Connection) -> (r: Vec<Action>)
    requires
        old(state).wf(),
    ensures
        final(state).wf(),
        match conn.peer_id {
            Some(id) => {
                &&& final(state)@ == old(state)@.without_peer(id@).without_member(id@)
                &&& r@.len() == 2
                &&& r@[0] matches Action::DropChannel(d) && d@ == id@
                &&& r@[1] matches Action::Broadcast(Event::PeerOffline { id: o }) && o@ == id@
            },
            None => final(state)@ == old(state)@ && r@.len() == 0,
        },
{
    let mut actions: Vec<Action> = Vec::new();
    match &conn.peer_id {
        Some(id) => {
            state.remove_peer(id.as_str());
            actions.push(Action::DropChannel(id.clone()));
            actions.push(Action::Broadcast(Event::PeerOffline { id: id.clone() }));
            state.remove_peer_from_all_sessions(id.as_str());
        },
        None => {},
    }
    actions
}

} // verus!
