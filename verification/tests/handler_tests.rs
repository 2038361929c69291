use snaplan::discovery::{advertised_host_name, on_service_removed, on_service_resolved, resolved_device};
use snaplan::handler::{handle_disconnect, handle_message, handle_message_with, Action, Connection, Event};
use snaplan::message::WsMessage;
use snaplan::state::AppState;

fn hello(name: &str, session: &str) -> WsMessage {
    WsMessage::ClientHello { device_name: name.to_string(), session_id: session.to_string() }
}

#[test]
fn hello_registers_peer_and_answers() {
    let mut s = AppState::new();
    s.create_session_with_id("s1".to_string(), "owner".to_string());
    let mut c = Connection::new();
    let actions = handle_message_with(&mut s, &mut c, hello("Browser", "s1"), "p1".to_string(), 42);
    assert_eq!(c.peer_id.as_deref(), Some("p1"));
    assert_eq!(actions.len(), 4);
    assert!(matches!(&actions[0], Action::RegisterChannel(id) if id == "p1"));
    match &actions[1] {
        Action::Broadcast(Event::PeerOnline { id, name, session }) => {
            assert_eq!(id, "p1");
            assert_eq!(name, "Browser");
            assert_eq!(session, "s1");
        }
        _ => panic!("expected peer_online"),
    }
    match &actions[2] {
        Action::Broadcast(Event::PeerList(list)) => {
            assert_eq!(list.len(), 1);
            assert_eq!(list[0].id, "p1");
            assert_eq!(list[0].address, "ws");
            assert_eq!(list[0].last_seen, 42);
        }
        _ => panic!("expected peer_list"),
    }
    match &actions[3] {
        Action::Reply(WsMessage::PeerJoined { peer_id, device_name }) => {
            assert_eq!(peer_id, "p1");
            assert_eq!(device_name, "Browser");
        }
        _ => panic!("expected PeerJoined"),
    }
    assert_eq!(s.sessions.get("s1").unwrap().peers, vec!["owner".to_string(), "p1".to_string()]);
    assert!(s.has_channel("p1"));
}

#[test]
fn ping_gets_pong() {
    let mut s = AppState::new();
    let mut c = Connection::new();
    let actions = handle_message(&mut s, &mut c, WsMessage::Ping);
    assert_eq!(actions.len(), 1);
    assert!(matches!(actions[0], Action::Reply(WsMessage::Pong)));
    assert!(c.peer_id.is_none());
}

#[test]
fn heartbeat_before_and_after_hello() {
    let mut s = AppState::new();
    let mut c = Connection::new();
    assert!(handle_message_with(&mut s, &mut c, WsMessage::Heartbeat, String::new(), 7).is_empty());
    assert_eq!(s.peers.len(), 0);
    handle_message_with(&mut s, &mut c, hello("X", "none"), "p".to_string(), 1);
    handle_message_with(&mut s, &mut c, WsMessage::Heartbeat, String::new(), 9);
    assert_eq!(s.peers.get("p").unwrap().last_seen, 9);
}

#[test]
fn signalling_is_forwarded_to_known_peers_only() {
    let mut s = AppState::new();
    let mut a = Connection::new();
    let mut b = Connection::new();
    handle_message_with(&mut s, &mut a, hello("A", "s"), "a".to_string(), 1);
    handle_message_with(&mut s, &mut b, hello("B", "s"), "b".to_string(), 1);
    let offer = WsMessage::Offer { from: "a".to_string(), to: "b".to_string(), sdp: "v=0".to_string() };
    let actions = handle_message(&mut s, &mut a, offer);
    assert_eq!(actions.len(), 1);
    match &actions[0] {
        Action::Forward { to, message: WsMessage::Offer { from, to: t, sdp } } => {
            assert_eq!(to, "b");
            assert_eq!(from, "a");
            assert_eq!(t, "b");
            assert_eq!(sdp, "v=0");
        }
        _ => panic!("expected forward"),
    }
    let lost = WsMessage::IceCandidate { from: "a".to_string(), to: "z".to_string(), candidate: "c".to_string() };
    assert!(handle_message(&mut s, &mut a, lost).is_empty());
    let answer = WsMessage::Answer { from: "b".to_string(), to: "a".to_string(), sdp: "x".to_string() };
    assert_eq!(handle_message(&mut s, &mut b, answer).len(), 1);
    assert!(handle_message(&mut s, &mut b, WsMessage::Pong).is_empty());
}

#[test]
fn disconnect_forgets_peer() {
    let mut s = AppState::new();
    s.create_session_with_id("s".to_string(), "o".to_string());
    let mut c = Connection::new();
    let got = handle_message(&mut s, &mut c, hello("A", "s"));
    assert_eq!(got.len(), 4);
    let id = c.peer_id.clone().unwrap();
    assert_eq!(id.len(), 36);
    let actions = handle_disconnect(&mut s, &c);
    assert_eq!(actions.len(), 2);
    assert!(matches!(&actions[0], Action::DropChannel(d) if *d == id));
    assert!(matches!(&actions[1], Action::Broadcast(Event::PeerOffline { id: o }) if *o == id));
    assert!(s.peers.get(&id).is_none());
    assert!(!s.has_channel(&id));
    assert_eq!(s.sessions.get("s").unwrap().peers, vec!["o".to_string()]);
    assert!(handle_disconnect(&mut s, &Connection::new()).is_empty());
}

#[test]
fn discovery_events_list_devices() {
    let mut s = AppState::new();
    let d = resolved_device("Dev._snaplan._tcp.local.".to_string(), vec!["192.168.1.5".to_string()], 9000);
    assert_eq!(d.ip, "192.168.1.5");
    match on_service_resolved(&mut s, d) {
        Event::DiscoveryList(list) => assert_eq!(list.len(), 1),
        _ => panic!("expected list"),
    }
    let u = resolved_device("Other".to_string(), vec![], 1);
    assert_eq!(u.ip, "unknown");
    match on_service_removed(&mut s, "Dev._snaplan._tcp.local.") {
        Event::DiscoveryList(list) => assert_eq!(list.len(), 1),
        _ => panic!("expected list"),
    }
    match on_service_removed(&mut s, "192.168.1.5") {
        Event::DiscoveryList(list) => assert!(list.is_empty()),
        _ => panic!("expected list"),
    }
}

#[test]
fn host_name_has_no_spaces() {
    assert_eq!(advertised_host_name("My Laptop Pro"), "My-Laptop-Pro.local.");
    assert_eq!(advertised_host_name(""), ".local.");
}

#[test]
fn hello_gets_a_fresh_hyphenated_v4_peer_id() {
    let mut s = AppState::new();
    let mut c = Connection::new();
    handle_message(&mut s, &mut c, hello("Phone", "none"));
    let id: Vec<char> = c.peer_id.clone().unwrap().chars().collect();
    assert_eq!(id.len(), 36);
    for (i, ch) in id.iter().enumerate() {
        if i == 8 || i == 13 || i == 18 || i == 23 {
            assert_eq!(*ch, '-');
        } else {
            assert!(ch.is_ascii_digit() || ('a'..='f').contains(ch));
        }
    }
    assert_eq!(id[14], '4');
    assert!(matches!(id[19], '8' | '9' | 'a' | 'b'));
}
