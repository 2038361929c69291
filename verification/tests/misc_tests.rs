use snaplan::config::Config;
use snaplan::core_errors::SnapError as CoreError;
use snaplan::errors::SnapError;
use snaplan::ids::{DeviceId, PeerId, SessionId, TransferId};
use snaplan::protocol::{client_greeting, server_reply, Message};
use snaplan::qr::{decode_pair_payload, pair_uri, session_join_uri, try_decode_pair_payload, PairQR};
use snaplan::session::{Session, SessionState};
use snaplan::text::remove_all_occurrences;

#[test]
fn config_defaults() {
    let c = Config::default();
    assert_eq!(c.device_name, "SnapLAN Device");
    assert_eq!(c.port, 9000);
    assert_eq!(c.discovery_port, 8888);
}

#[test]
fn error_messages() {
    assert_eq!(SnapError::NetworkError("down".to_string()).message(), "Network error: down");
    assert_eq!(SnapError::SerializationError("bad".to_string()).message(), "Serialization error: bad");
    assert_eq!(SnapError::PeerNotFound.message(), "Peer Not Found");
    assert_eq!(CoreError::InvalidState.message(), "Invalid state");
    assert_eq!(CoreError::Crypto("x".to_string()).message(), "Crypto error: x");
    assert_eq!(CoreError::Pairing("p".to_string()).message(), "Pairing error: p");
    assert_eq!(CoreError::SessionNotFound.message(), "Session not found");
    let io = CoreError::from(std::io::Error::new(std::io::ErrorKind::Other, "disk"));
    assert_eq!(io.message(), "IO error: disk");
}

#[test]
fn session_lifecycle() {
    let peer = DeviceId::from_u128(5);
    let mut s = Session::new(peer);
    assert_eq!(s.state, SessionState::Created);
    assert!(s.encryption_key.is_none());
    assert_eq!(s.peer, peer);
    let id = s.id;
    s.establish([1u8; 32]);
    assert_eq!(s.state, SessionState::Connected);
    assert_eq!(s.encryption_key, Some([1u8; 32]));
    s.close();
    assert_eq!(s.state, SessionState::Closed);
    assert!(s.encryption_key.is_none());
    assert_eq!(s.id, id);
}

#[test]
fn ids_are_fresh() {
    assert_ne!(DeviceId::new(), DeviceId::new());
    assert_ne!(SessionId::new().as_u128(), SessionId::new().as_u128());
    assert_eq!(TransferId::from_u128(9).as_u128(), 9);
    assert_eq!(PeerId::from_u128(3).as_u128(), 3);
}

#[test]
fn pair_code_round_trip() {
    let uri = pair_uri(b"{\"a\":1}");
    assert_eq!(uri, "snaplan://pair?eyJhIjoxfQ==");
    assert_eq!(decode_pair_payload(&uri), b"{\"a\":1}".to_vec());
    assert_eq!(decode_pair_payload("eyJhIjoxfQ=="), b"{\"a\":1}".to_vec());
    assert_eq!(try_decode_pair_payload(&uri), Some(b"{\"a\":1}".to_vec()));
    assert!(try_decode_pair_payload("snaplan://pair?***").is_none());
    let q = PairQR::create(DeviceId::from_u128(1), "fp".to_string(), "tok".to_string());
    assert_eq!(q.token, "tok");
    assert_eq!(q.fingerprint, "fp");
}

#[test]
fn remove_all_takes_out_every_occurrence() {
    assert_eq!(remove_all_occurrences("abXabYab", "ab"), "XY");
    assert_eq!(remove_all_occurrences("aaa", "aa"), "a");
    assert_eq!(remove_all_occurrences("abc", ""), "abc");
}

#[test]
fn join_link() {
    assert_eq!(session_join_uri("abc"), "snaplan://join/abc");
}

#[test]
fn server_answers_pong() {
    assert!(matches!(server_reply(Some(Message::Ping)), Some(Message::Pong)));
    assert!(server_reply(None).is_none());
    assert!(matches!(client_greeting(), Message::Ping));
}

#[test]
fn ids_are_version_4_uuids() {
    for v in [
        DeviceId::new().as_u128(),
        SessionId::new().as_u128(),
        TransferId::new().as_u128(),
        PeerId::new().as_u128(),
    ] {
        assert_eq!((v >> 76) & 0xf, 4);
        assert_eq!((v >> 62) & 0x3, 2);
    }
}

#[test]
fn pair_code_payload_is_base64_text() {
    let uri = pair_uri(&[0xffu8, 0xfe, 0x00, 0x10, 0x7f]);
    let rest = &uri["snaplan://pair?".len()..];
    assert!(rest.chars().all(|c| c.is_ascii_alphanumeric() || c == '+' || c == '/' || c == '='));
}
