use snaplan::state::{AppState, DiscoveryDevice, Peer};

fn peer(id: &str, name: &str, seen: u64) -> Peer {
    Peer { id: id.to_string(), name: name.to_string(), address: "ws".to_string(), last_seen: seen }
}

#[test]
fn create_session_lists_owner() {
    let mut s = AppState::new();
    let id = s.create_session_with_id("s1".to_string(), "owner".to_string());
    assert_eq!(id, "s1");
    let session = s.sessions.get("s1").unwrap();
    assert_eq!(session.id, "s1");
    assert_eq!(session.peers, vec!["owner".to_string()]);
    assert_eq!(session.owner, "owner");
    let fresh = s.create_session("me".to_string());
    assert_eq!(fresh.len(), 36);
    assert!(s.sessions.contains_key(&fresh));
}

#[test]
fn join_session_once() {
    let mut s = AppState::new();
    s.create_session_with_id("s1".to_string(), "a".to_string());
    s.add_peer_to_session("s1", "b");
    s.add_peer_to_session("s1", "b");
    s.add_peer_to_session("s1", "a");
    assert_eq!(s.sessions.get("s1").unwrap().peers, vec!["a".to_string(), "b".to_string()]);
    assert_eq!(s.peer_sessions.get("b").unwrap(), "s1");
    s.add_peer_to_session("nope", "c");
    assert!(!s.sessions.contains_key("nope"));
    assert_eq!(s.peer_sessions.get("c").unwrap(), "nope");
}

#[test]
fn leave_all_sessions() {
    let mut s = AppState::new();
    s.create_session_with_id("s1".to_string(), "a".to_string());
    s.create_session_with_id("s2".to_string(), "b".to_string());
    s.add_peer_to_session("s1", "b");
    s.add_peer_to_session("s1", "c");
    s.remove_peer_from_all_sessions("b");
    assert_eq!(s.sessions.get("s1").unwrap().peers, vec!["a".to_string(), "c".to_string()]);
    assert!(s.sessions.get("s2").unwrap().peers.is_empty());
    assert_eq!(s.sessions.len(), 2);
}

#[test]
fn add_and_remove_peer() {
    let mut s = AppState::new();
    s.add_peer(peer("p1", "one", 5));
    s.add_peer(peer("p2", "two", 6));
    s.add_peer(peer("p1", "uno", 7));
    assert_eq!(s.peers.len(), 2);
    assert_eq!(s.peers.get("p1").unwrap().name, "uno");
    s.register_channel("p1".to_string());
    s.add_peer_to_session("x", "p1");
    assert!(s.has_channel("p1"));
    s.remove_peer("p1");
    assert!(s.peers.get("p1").is_none());
    assert!(!s.has_channel("p1"));
    assert!(s.peer_sessions.get("p1").is_none());
    assert_eq!(s.peer_list().len(), 1);
}

#[test]
fn heartbeat_updates_last_seen() {
    let mut s = AppState::new();
    s.add_peer(peer("p1", "one", 5));
    s.update_heartbeat_at("p1", 99);
    assert_eq!(s.peers.get("p1").unwrap().last_seen, 99);
    s.update_heartbeat_at("ghost", 100);
    assert_eq!(s.peers.len(), 1);
    s.update_heartbeat("p1");
    assert!(s.peers.get("p1").unwrap().last_seen >= 99);
}

#[test]
fn cleanup_drops_stale_peers_and_channels() {
    let mut s = AppState::new();
    s.add_peer(peer("old", "o", 10));
    s.add_peer(peer("edge", "e", 70));
    s.add_peer(peer("new", "n", 90));
    s.register_channel("old".to_string());
    s.register_channel("new".to_string());
    assert!(s.all_seen_by(100));
    assert!(!s.all_seen_by(50));
    s.cleanup_peers_at(100);
    assert!(s.peers.get("old").is_none());
    assert!(s.peers.get("edge").is_none());
    assert!(s.peers.get("new").is_some());
    assert!(!s.has_channel("old"));
    assert!(s.has_channel("new"));
}

#[test]
fn cleanup_with_clock_keeps_recent_peers() {
    let mut s = AppState::new();
    let now = AppState::now();
    s.add_peer(peer("recent", "r", now));
    s.cleanup_peers();
    assert!(s.peers.get("recent").is_some());
}

#[test]
fn session_peers_in_order() {
    let mut s = AppState::new();
    s.create_session_with_id("s".to_string(), "a".to_string());
    s.add_peer_to_session("s", "b");
    s.add_peer_to_session("s", "c");
    s.add_peer(peer("c", "cee", 1));
    s.add_peer(peer("a", "ay", 2));
    let got: Vec<String> = s.get_session_peers("s").into_iter().map(|p| p.name).collect();
    assert_eq!(got, vec!["ay".to_string(), "cee".to_string()]);
    assert!(s.get_session_peers("none").is_empty());
}

#[test]
fn discovery_devices_by_address() {
    let mut s = AppState::new();
    s.add_discovery_device(DiscoveryDevice { name: "A".to_string(), ip: "10.0.0.1".to_string(), port: 1 });
    s.add_discovery_device(DiscoveryDevice { name: "B".to_string(), ip: "10.0.0.1".to_string(), port: 2 });
    assert_eq!(s.discovery_list().len(), 1);
    assert_eq!(s.discovery_devices.get("10.0.0.1").unwrap().name, "B");
    s.remove_discovery_device("10.0.0.1");
    assert!(s.discovery_list().is_empty());
}

fn is_hyphenated_uuid_v4(s: &str) -> bool {
    let c: Vec<char> = s.chars().collect();
    c.len() == 36
        && c.iter().enumerate().all(|(i, ch)| {
            if i == 8 || i == 13 || i == 18 || i == 23 {
                *ch == '-'
            } else {
                ch.is_ascii_digit() || ('a'..='f').contains(ch)
            }
        })
        && c[14] == '4'
        && matches!(c[19], '8' | '9' | 'a' | 'b')
}

#[test]
fn fresh_session_id_is_a_hyphenated_v4_uuid() {
    let mut s = AppState::new();
    let a = s.create_session("me".to_string());
    let b = s.create_session("me".to_string());
    assert!(is_hyphenated_uuid_v4(&a));
    assert!(is_hyphenated_uuid_v4(&b));
    assert_ne!(a, b);
}
