//! The life of an encrypted session with a paired device.
use vstd::prelude::*;
use crate::ids::{DeviceId, SessionId, is_uuid_v4};

verus! {

/// Where a session stands.
#[derive(Debug, Clone, Copy, PartialEq, Eq, Structural)]
pub enum SessionState {
    Created,
    Pairing,
    Connected,
    Closed,
}

/// An encrypted session with a paired device.
pub struct Session {
    pub id: SessionId,
    pub peer: DeviceId,
    pub state: SessionState,
    pub encryption_key: Option<[u8; 32]>,
}

impl Session {
    /// A session holds a key exactly while it is connected.
    pub open spec fn key_matches_state(&self) -> bool {
        (self.state == SessionState::Connected) <==> self.encryption_key is Some
    }

    /// A new session with the device, under a fresh random id, not yet
    /// keyed.
    pub fn new(peer: DeviceId) -> (s: Self)
        ensures
            s.peer == peer,
            s.state == SessionState::Created,
            s.encryption_key is None,
            s.key_matches_state(),
            is_uuid_v4(s.id.value()),
    {
        Session { id: SessionId::new(), peer, state: SessionState::Created, encryption_key: None }
    }

    /// Keys the session and marks it connected.
    pub fn establish(&mut self, key: [u8; 32])
        ensures
            final(self).id == old(self).id,
            final(self).peer == old(self).peer,
            final(self).state == SessionState::Connected,
            final(self).encryption_key == Some(key),
            final(self).key_matches_state(),
    {
        self.encryption_key = Some(key);
        self.state = SessionState::Connected;
    }

    /// Closes the session and forgets its key.
    pub fn close(&mut self)
        ensures
            final(self).id == old(self).id,
            final(self).peer == old(self).peer,
            final(self).state == SessionState::Closed,
            final(self).encryption_key is None,
            final(self).key_matches_state(),
    {
        self.state = SessionState::Closed;
        self.encryption_key = None;
    }
}

} // verus!
