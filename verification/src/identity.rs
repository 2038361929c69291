//! The identity of this device: its id, name, signing keys and the
//! capabilities it announces.
use vstd::prelude::*;
use crate::crypto;
use crate::crypto::{ed25519_public_key, ed25519_signature, ed25519_verifies, hex_lower, sha256};
use crate::ids::{DeviceId, is_uuid_v4};

verus! {

/// Something a device can do.
#[derive(Debug, Clone, Copy, PartialEq, Eq, Hash, Structural)]
pub enum Capability {
    Ble,
    Mdns,
    QR,
    Quic,
    Encryption,
    Resume,
    ParallelTransfer,
}

/// The list without the given capability, in order.
pub open spec fn capability_without(s: Seq<Capability>, c: Capability) -> Seq<Capability>
    decreases s.len(),
{
    if s.len() == 0 {
        s
    } else {
        let r = capability_without(s.drop_last(), c);
        if s.last() == c {
            r
        } else {
            r.push(s.last())
        }
    }
}

/// The capabilities a device announces unless told otherwise: all of them.
pub open spec fn all_capabilities() -> Seq<Capability> {
    seq![
        Capability::Ble,
        Capability::Mdns,
        Capability::QR,
        Capability::Quic,
        Capability::Encryption,
        Capability::Resume,
        Capability::ParallelTransfer,
    ]
}

/// Who this device is.  `private_key` is the Ed25519 signing key's secret,
/// `public_key` its verifying key; `capabilities` lists each capability at
/// most once.
#[derive(Debug)]
pub struct Identity {
    pub device_id: DeviceId,
    pub device_name: String,
    pub public_key: [u8; 32],
    pub private_key: [u8; 32],
    pub capabilities: Vec<Capability>,
}

impl Clone for Identity {
    fn clone(&self) -> (r: Self)
        ensures
            r.device_id == self.device_id,
            r.device_name == self.device_name,
            r.public_key == self.public_key,
            r.private_key == self.private_key,
            r.capabilities@ == self.capabilities@,
    {
        let capabilities = self.capabilities.clone();
        assert(capabilities@ =~= self.capabilities@);
        Identity {
            device_id: self.device_id,
            device_name: self.device_name.clone(),
            public_key: self.public_key,
            private_key: self.private_key,
            capabilities,
        }
    }
}

/// `hostname::get`, written out lossily as a string, or the empty string
/// when the name cannot be read.  It depends on the machine; nothing is
/// claimed of it.
#[verifier::external_body]
fn default_device_name() -> String {
    hostname::get().unwrap_or_default().to_string_lossy().into_owned()
}

/// Every capability, each once.
pub fn default_capabilities() -> (r: Vec<Capability>)
    ensures
        r@ == all_capabilities(),
{
    let mut r: Vec<Capability> = Vec::new();
    r.push(Capability::Ble);
    r.push(Capability::Mdns);
    r.push(Capability::QR);
    r.push(Capability::Quic);
    r.push(Capability::Encryption);
    r.push(Capability::Resume);
    r.push(Capability::ParallelTransfer);
    assert(r@ =~= all_capabilities());
    r
}

impl Identity {
    /// The verifying key belongs to the signing key.
    pub open spec fn keys_match(&self) -> bool {
        self.public_key@ == ed25519_public_key(self.private_key@)
    }

    /// No capability is listed twice.
    pub open spec fn wf(&self) -> bool {
        self.capabilities@.no_duplicates()
    }

    /// A new identity: a fresh random id and key pair, the machine's host
    /// name, and every capability.
    pub fn new() -> (r: Self)
        ensures
            r.keys_match(),
            r.wf(),
            r.capabilities@ == all_capabilities(),
            is_uuid_v4(r.device_id.value()),
    {
        let (private_key, public_key) = crypto::generate_identity_keypair();
        let capabilities = default_capabilities();
        proof {
            assert(all_capabilities().no_duplicates()) by {
                assert forall|i: int, j: int| 0 <= i < 7 && 0 <= j < 7 && i != j implies
                    all_capabilities()[i] != all_capabilities()[j] by {
                }
            }
        }
        Identity {
            device_id: DeviceId::new(),
            device_name: default_device_name(),
            public_key,
            private_key,
            capabilities,
        }
    }

    /// The fingerprint of the identity's verifying key.
    pub fn fingerprint(&self) -> (s: String)
        ensures
            s@ == hex_lower(sha256(self.public_key@)),
    {
        crypto::fingerprint(&self.public_key)
    }

    /// The identity's signature of `data`.
    pub fn sign(&self, data: &[u8]) -> (s: [u8; 64])
        ensures
            s@ == ed25519_signature(self.private_key@, data@),
    {
        crypto::sign(&self.private_key, data)
    }

    /// Whether the signature of `data` checks out under the identity's
    /// verifying key.  Every signature that the identity made of `data`
    /// does, when its keys match.
    pub fn verify(&self, data: &[u8], signature: &[u8; 64]) -> (b: bool)
        ensures
            b == ed25519_verifies(self.public_key@, data@, signature@),
            self.keys_match() && signature@ == ed25519_signature(self.private_key@, data@) ==> b,
    {
        let b = crypto::verify(&self.public_key, data, signature);
        proof {
            if self.keys_match() && signature@ == ed25519_signature(self.private_key@, data@) {
                assert(self.private_key@.len() == 32);
                assert(self.public_key@ == ed25519_public_key(self.private_key@));
            }
        }
        b
    }

    /// Whether the identity announces the capability.
    pub fn supports(&self, capability: Capability) -> (b: bool)
        ensures
            b == self.capabilities@.contains(capability),
    {
        let n = self.capabilities.len();
        let mut i: usize = 0;
        while i < n
            invariant
                n == self.capabilities@.len(),
                0 <= i <= n,
                forall|j: int| 0 <= j < i ==> self.capabilities@[j] != capability,
            decreases n - i,
        {
            if self.capabilities[i] == capability {
                return true;
            }
            i = i + 1;
        }
        false
    }

    /// Announces the capability (once).
    pub fn add_capability(&mut self, capability: Capability)
        ensures
            final(self).capabilities@ == if old(self).capabilities@.contains(capability) {
                old(self).capabilities@
            } else {
                old(self).capabilities@.push(capability)
            },
            final(self).capabilities@.to_set() == old(self).capabilities@.to_set().insert(capability),
            old(self).wf() ==> final(self).wf(),
            final(self).device_id == old(self).device_id,
            final(self).device_name == old(self).device_name,
            final(self).public_key == old(self).public_key,
            final(self).private_key == old(self).private_key,
    {
        if !self.supports(capability) {
            self.capabilities.push(capability);
            proof {
                let o = old(self).capabilities@;
                let f = self.capabilities@;
                assert(f == o.push(capability));
                if o.no_duplicates() {
                    assert forall|i: int, j: int| 0 <= i < f.len() && 0 <= j < f.len() && i != j implies f[i] != f[j] by {
                        if i == o.len() && f[j] == capability {
                            assert(o[j] == capability);
                            assert(o.contains(capability));
                        }
                        if j == o.len() && f[i] == capability {
                            assert(o[i] == capability);
                            assert(o.contains(capability));
                        }
                    }
                }
                o.lemma_push_to_set_commute(capability);
            }
        } else {
            proof {
                let o = old(self).capabilities@;
                assert(o.to_set() =~= o.to_set().insert(capability));
            }
        }
    }

    /// Stops announcing the capability.
    pub fn remove_capability(&mut self, capability: Capability)
        ensures
            final(self).capabilities@ == capability_without(old(self).capabilities@, capability),
            final(self).capabilities@.to_set() == old(self).capabilities@.to_set().remove(capability),
            old(self).wf() ==> final(self).wf(),
            final(self).device_id == old(self).device_id,
            final(self).device_name == old(self).device_name,
            final(self).public_key == old(self).public_key,
            final(self).private_key == old(self).private_key,
    {
        let ghost o = self.capabilities@;
        let n = self.capabilities.len();
        let mut kept: Vec<Capability> = Vec::new();
        let mut i: usize = 0;
        while i < n
            invariant
                n == o.len(),
                o == self.capabilities@,
                0 <= i <= n,
                kept@ == capability_without(o.take(i as int), capability),
                forall|x: Capability| #[trigger] kept@.contains(x) <==> (o.take(i as int).contains(x) && x != capability),
                o.no_duplicates() ==> kept@.no_duplicates(),
            decreases n - i,
        {
            let c = self.capabilities[i];
            let ghost prev = kept@;
            assert(o.take(i + 1).drop_last() =~= o.take(i as int));
            assert(o.take(i + 1).last() == o[i as int]);
            if c != capability {
                kept.push(c);
                proof {
                    if o.no_duplicates() {
                        if prev.contains(c) {
                            let m = choose|m: int| 0 <= m < i && #[trigger] o.take(i as int)[m] == c;
                            assert(o[m] == o[i as int]);
                        }
                        assert forall|a: int, b: int| 0 <= a < kept@.len() && 0 <= b < kept@.len() && a != b implies kept@[a] != kept@[b] by {
                            if a == prev.len() {
                                assert(kept@[b] == prev[b]);
                                assert(prev.contains(prev[b]));
                            } else if b == prev.len() {
                                assert(kept@[a] == prev[a]);
                                assert(prev.contains(prev[a]));
                            } else {
                                assert(kept@[a] == prev[a] && kept@[b] == prev[b]);
                            }
                        }
                    }
                }
            }
            proof {
                assert forall|x: Capability| #[trigger] kept@.contains(x) <==> (o.take(i + 1).contains(x) && x != capability) by {
                    if o.take(i + 1).contains(x) && x != capability {
                        let m = choose|m: int| 0 <= m < i + 1 && #[trigger] o.take(i + 1)[m] == x;
                        if m < i {
                            assert(o.take(i as int)[m] == x);
                            assert(prev.contains(x));
                            let k = choose|k: int| 0 <= k < prev.len() && #[trigger] prev[k] == x;
                            assert(kept@[k] == x);
                        } else {
                            assert(kept@[kept@.len() - 1] == x);
                        }
                    }
                    if kept@.contains(x) {
                        let k = choose|k: int| 0 <= k < kept@.len() && #[trigger] kept@[k] == x;
                        if k < prev.len() {
                            assert(prev[k] == x);
                            assert(prev.contains(x));
                            let m = choose|m: int| 0 <= m < i && #[trigger] o.take(i as int)[m] == x;
                            assert(o.take(i + 1)[m] == x);
                        } else {
                            assert(o.take(i + 1)[i as int] == x);
                        }
                    }
                }
            }
            i = i + 1;
        }
        assert(o.take(n as int) =~= o);
        self.capabilities = kept;
        assert(self.capabilities@.to_set() =~= o.to_set().remove(capability));
    }
}

} // verus!
