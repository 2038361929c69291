//! The key agreement that pairing runs to key a session.
use vstd::prelude::*;
use crate::crypto;
use crate::crypto::{hkdf_sha256_okm, session_key_info, x25519_public_key, x25519_shared_secret};

verus! {

/// The session key that a secret and the other side's public key give:
/// HKDF-SHA256 over their X25519 shared secret.
pub open spec fn session_key_for(secret: Seq<u8>, their_public: Seq<u8>) -> Seq<u8> {
    hkdf_sha256_okm(x25519_shared_secret(secret, their_public), session_key_info())
}

/// One side of a key agreement: an X25519 secret and its public key.
#[derive(Debug)]
pub struct Handshake {
    private_key: [u8; 32],
    pub public_key: [u8; 32],
}

impl Handshake {
    /// The secret of this side.
    pub closed spec fn secret(&self) -> Seq<u8> {
        self.private_key@
    }

    /// A secret is 32 bytes long.
    pub proof fn lemma_secret_len(&self)
        ensures
            self.secret().len() == 32,
            self.public().len() == 32,
    {
    }

    /// The public key of this side.
    pub closed spec fn public(&self) -> Seq<u8> {
        self.public_key@
    }

    /// The public key belongs to the secret.
    pub closed spec fn wf(&self) -> bool {
        self.public_key@ == x25519_public_key(self.secret())
    }

    /// The public key to send to the other side.
    pub fn public_key(&self) -> (p: [u8; 32])
        ensures
            p@ == self.public(),
    {
        self.public_key
    }

    /// A fresh random key pair.
    pub fn new() -> (h: Self)
        ensures
            h.wf(),
            h.public() == x25519_public_key(h.secret()),
    {
        let (private, public) = crypto::generate_session_keypair();
        Handshake { private_key: private, public_key: public }
    }

    /// The session key shared with the side whose public key is given.  The
    /// other side, keyed with the matching secret, derives the same key from
    /// this side's public key.
    pub fn create_shared_key(&self, remote_public: &[u8; 32]) -> (k: [u8; 32])
        ensures
            k@ == session_key_for(self.secret(), remote_public@),
            self.wf() ==> forall|other: Seq<u8>|
                other.len() == 32 && remote_public@ == #[trigger] x25519_public_key(other) ==> k@
                    == session_key_for(other, self.public()),
    {
        let shared = crypto::derive_shared_secret(&self.private_key, remote_public);
        crypto::derive_session_key(&shared)
    }
}

} // verus!
