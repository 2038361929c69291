use snaplan::identity::{default_capabilities, Capability, Identity};
use snaplan::crypto::fingerprint;

#[test]
fn new_identity_has_every_capability_once() {
    let id = Identity::new();
    let caps = default_capabilities();
    assert_eq!(caps.len(), 7);
    assert_eq!(id.capabilities, caps);
    for c in [
        Capability::Ble,
        Capability::Mdns,
        Capability::QR,
        Capability::Quic,
        Capability::Encryption,
        Capability::Resume,
        Capability::ParallelTransfer,
    ] {
        assert!(id.supports(c));
    }
}

#[test]
fn identity_verifies_its_own_signature() {
    let id = Identity::new();
    let sig = id.sign(b"pairing token");
    assert!(id.verify(b"pairing token", &sig));
    assert!(!id.verify(b"other token", &sig));
    assert_eq!(id.fingerprint(), fingerprint(&id.public_key));
}

#[test]
fn capabilities_add_and_remove() {
    let mut id = Identity::new();
    id.remove_capability(Capability::Quic);
    assert!(!id.supports(Capability::Quic));
    assert_eq!(id.capabilities.len(), 6);
    id.remove_capability(Capability::Quic);
    assert_eq!(id.capabilities.len(), 6);
    id.add_capability(Capability::Quic);
    assert!(id.supports(Capability::Quic));
    assert_eq!(id.capabilities.len(), 7);
    id.add_capability(Capability::Quic);
    assert_eq!(id.capabilities.len(), 7);
    assert_eq!(*id.capabilities.last().unwrap(), Capability::Quic);
}
