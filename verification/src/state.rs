//! The shared application state: connected peers, discovered devices,
//! sessions and the session of each peer.
use vstd::prelude::*;
use crate::str_map::{StrMap, lemma_entries_map_index, lemma_entries_map_dom, lemma_entries_same_keys, lemma_entries_push, entries_map, keys_distinct};
use crate::ids::is_hyphenated_uuid_v4;

verus! {

/// A peer that joined over the websocket.
#[derive(Debug)]
pub struct Peer {
    pub id: String,
    pub name: String,
    pub address: String,
    pub last_seen: u64,
}

/// What a peer is, as plain values.
pub struct PeerView {
    pub id: Seq<char>,
    pub name: Seq<char>,
    pub address: Seq<char>,
    pub last_seen: u64,
}

impl View for Peer {
    type V = PeerView;

    open spec fn view(&self) -> PeerView {
        PeerView { id: self.id@, name: self.name@, address: self.address@, last_seen: self.last_seen }
    }
}

impl Clone for Peer {
    fn clone(&self) -> (r: Self)
        ensures
            r == *self,
    {
        Peer {
            id: self.id.clone(),
            name: self.name.clone(),
            address: self.address.clone(),
            last_seen: self.last_seen,
        }
    }
}

/// A device found on the local network.
#[derive(Debug)]
pub struct DiscoveryDevice {
    pub name: String,
    pub ip: String,
    pub port: u16,
}

/// What a discovered device is, as plain values.
pub struct DeviceView {
    pub name: Seq<char>,
    pub ip: Seq<char>,
    pub port: u16,
}

impl View for DiscoveryDevice {
    type V = DeviceView;

    open spec fn view(&self) -> DeviceView {
        DeviceView { name: self.name@, ip: self.ip@, port: self.port }
    }
}

impl Clone for DiscoveryDevice {
    fn clone(&self) -> (r: Self)
        ensures
            r == *self,
    {
        DiscoveryDevice { name: self.name.clone(), ip: self.ip.clone(), port: self.port }
    }
}

/// A session that peers join; `peers` lists its members, owner first.
#[derive(Debug)]
pub struct Session {
    pub id: String,
    pub peers: Vec<String>,
    pub owner: String,
}

/// What a session is, as plain values.
pub struct SessionView {
    pub id: Seq<char>,
    pub peers: Seq<Seq<char>>,
    pub owner: Seq<char>,
}

/// The character sequences of a list of strings.
pub open spec fn string_views(s: Seq<String>) -> Seq<Seq<char>> {
    s.map_values(|x: String| x@)
}

impl View for Session {
    type V = SessionView;

    open spec fn view(&self) -> SessionView {
        SessionView { id: self.id@, peers: string_views(self.peers@), owner: self.owner@ }
    }
}

impl Clone for Session {
    fn clone(&self) -> (r: Self)
        ensures
            r@ == self@,
    {
        let peers = self.peers.clone();
        proof {
            assert(peers@ =~= self.peers@);
        }
        Session { id: self.id.clone(), peers, owner: self.owner.clone() }
    }
}

/// The application state as plain values.
pub struct AppStateView {
    /// Peers by id.
    pub peers: Map<Seq<char>, PeerView>,
    /// Discovered devices by address.
    pub discovery_devices: Map<Seq<char>, DeviceView>,
    /// Sessions by id.
    pub sessions: Map<Seq<char>, SessionView>,
    /// The session that each peer last joined.
    pub peer_sessions: Map<Seq<char>, Seq<char>>,
    /// The peers that have a private channel.
    pub peers_tx: Set<Seq<char>>,
}

/// The views of the values of a map.
pub open spec fn view_values<V: View>(m: Map<Seq<char>, V>) -> Map<Seq<char>, V::V> {
    m.map_values(|v: V| v@)
}

/// A list of keys has no key twice.
pub open spec fn no_duplicates(s: Seq<Seq<char>>) -> bool {
    forall|i: int, j: int| 0 <= i < s.len() && 0 <= j < s.len() && i != j ==> s[i] != s[j]
}

/// A list of keys without the given key.
pub open spec fn without(s: Seq<Seq<char>>, k: Seq<char>) -> Seq<Seq<char>>
    decreases s.len(),
{
    if s.len() == 0 {
        s
    } else {
        let r = without(s.drop_last(), k);
        if s.last() == k {
            r
        } else {
            r.push(s.last())
        }
    }
}

/// The peers that a list of ids names, in the list's order, skipping the
/// ids that name no known peer.
pub open spec fn listed_peers(ids: Seq<Seq<char>>, peers: Map<Seq<char>, PeerView>) -> Seq<PeerView>
    decreases ids.len(),
{
    if ids.len() == 0 {
        Seq::empty()
    } else {
        let r = listed_peers(ids.drop_last(), peers);
        if peers.dom().contains(ids.last()) {
            r.push(peers[ids.last()])
        } else {
            r
        }
    }
}

/// A peer is stale when it has been silent for the timeout or longer.
pub open spec fn is_stale(p: PeerView, now: u64) -> bool {
    now - p.last_seen >= PEER_TIMEOUT_SECS
}

/// Every peer was last seen no later than `now`.
pub open spec fn seen_by(peers: Map<Seq<char>, PeerView>, now: u64) -> bool {
    forall|k: Seq<char>| #[trigger] peers.dom().contains(k) ==> peers[k].last_seen <= now
}

/// Whether the list of strings holds `k`.
pub fn contains_str(v: &Vec<String>, k: &str) -> (b: bool)
    ensures
        b == string_views(v@).contains(k@),
{
    let key = k.to_owned();
    let n = v.len();
    let mut i: usize = 0;
    while i < n
        invariant
            n == v@.len(),
            0 <= i <= n,
            key@ == k@,
            forall|j: int| 0 <= j < i ==> #[trigger] v@[j]@ != k@,
        decreases n - i,
    {
        if v[i] == key {
            proof {
                assert(string_views(v@)[i as int] == k@);
            }
            return true;
        }
        i = i + 1;
    }
    proof {
        if string_views(v@).contains(k@) {
            let j = choose|j: int| 0 <= j < string_views(v@).len() && string_views(v@)[j] == k@;
            assert(v@[j]@ == k@);
        }
    }
    false
}

/// The list without the entries equal to `k`, in order.
pub fn without_str(v: &Vec<String>, k: &str) -> (r: Vec<String>)
    ensures
        string_views(r@) == without(string_views(v@), k@),
        no_duplicates(string_views(v@)) ==> no_duplicates(string_views(r@)),
{
    let key = k.to_owned();
    let n = v.len();
    let mut r: Vec<String> = Vec::new();
    let mut i: usize = 0;
    while i < n
        invariant
            n == v@.len(),
            0 <= i <= n,
            key@ == k@,
            string_views(r@) == without(string_views(v@).take(i as int), k@),
            forall|j: int| 0 <= j < r@.len() ==> exists|m: int| 0 <= m < i && #[trigger] r@[j]@ == v@[m]@,
            no_duplicates(string_views(v@)) ==> no_duplicates(string_views(r@)),
        decreases n - i,
    {
        let ghost prev = r@;
        assert(string_views(v@).take(i + 1).drop_last() =~= string_views(v@).take(i as int));
        assert(string_views(v@).take(i + 1).last() == v@[i as int]@);
        if !(v[i] == key) {
            r.push(v[i].clone());
            proof {
                assert(string_views(r@) =~= string_views(prev).push(v@[i as int]@));
                assert forall|j: int| 0 <= j < r@.len() implies exists|m: int| 0 <= m < i + 1 && #[trigger] r@[j]@ == v@[m]@ by {
                    if j < prev.len() {
                        assert(r@[j] == prev[j]);
                        let m = choose|m: int| 0 <= m < i && #[trigger] prev[j]@ == v@[m]@;
                        assert(r@[j]@ == v@[m]@);
                    } else {
                        assert(r@[j]@ == v@[i as int]@);
                    }
                }
                if no_duplicates(string_views(v@)) {
                    assert forall|a: int, b: int| 0 <= a < string_views(r@).len() && 0 <= b < string_views(r@).len() && a != b
                        implies string_views(r@)[a] != string_views(r@)[b] by {
                        if a < prev.len() && b < prev.len() {
                            assert(string_views(r@)[a] == string_views(prev)[a]);
                            assert(string_views(r@)[b] == string_views(prev)[b]);
                        } else if a < prev.len() {
                            assert(r@[a] == prev[a]);
                            let m = choose|m: int| 0 <= m < i && #[trigger] prev[a]@ == v@[m]@;
                            assert(string_views(v@)[m] != string_views(v@)[i as int]);
                        } else {
                            assert(r@[b] == prev[b]);
                            let m = choose|m: int| 0 <= m < i && #[trigger] prev[b]@ == v@[m]@;
                            assert(string_views(v@)[m] != string_views(v@)[i as int]);
                        }
                    }
                }
            }
        }
        i = i + 1;
    }
    assert(string_views(v@).take(n as int) =~= string_views(v@));
    r
}

/// The seconds after which a silent peer is dropped.
pub const PEER_TIMEOUT_SECS: u64 = 30;

/// The state of the server: who is connected, what was discovered, and the
/// sessions.  Each private channel itself is held by the caller; this state
/// records which peers have one (`peers_tx`).
#[derive(Debug)]
pub struct AppState {
    pub peers: StrMap<Peer>,
    pub discovery_devices: StrMap<DiscoveryDevice>,
    pub sessions: StrMap<Session>,
    pub peer_sessions: StrMap<String>,
    pub peers_tx: StrMap<()>,
}

impl View for AppState {
    type V = AppStateView;

    open spec fn view(&self) -> AppStateView {
        AppStateView {
            peers: view_values(self.peers@),
            discovery_devices: view_values(self.discovery_devices@),
            sessions: view_values(self.sessions@),
            peer_sessions: view_values(self.peer_sessions@),
            peers_tx: self.peers_tx@.dom(),
        }
    }
}

impl AppStateView {
    /// The state in which nothing is known.
    pub open spec fn empty() -> AppStateView {
        AppStateView {
            peers: Map::empty(),
            discovery_devices: Map::empty(),
            sessions: Map::empty(),
            peer_sessions: Map::empty(),
            peers_tx: Set::empty(),
        }
    }

    /// The state after the peer (if known) was seen at `now`.
    pub open spec fn heartbeat(self, peer_id: Seq<char>, now: u64) -> AppStateView {
        AppStateView {
            peers: if self.peers.dom().contains(peer_id) {
                self.peers.insert(peer_id, PeerView { last_seen: now, ..self.peers[peer_id] })
            } else {
                self.peers
            },
            ..self
        }
    }

    /// The state after the peers stale at `now` were dropped with their
    /// channels.
    pub open spec fn cleaned_up(self, now: u64) -> AppStateView {
        AppStateView {
            peers: self.peers.filter_keys(|k: Seq<char>| !is_stale(self.peers[k], now)),
            peers_tx: self.peers_tx.filter(
                |k: Seq<char>| !(self.peers.dom().contains(k) && is_stale(self.peers[k], now)),
            ),
            ..self
        }
    }

    /// The state after a session was opened with the given id and owner.
    pub open spec fn with_session(self, session_id: Seq<char>, owner: Seq<char>) -> AppStateView {
        AppStateView {
            sessions: self.sessions.insert(
                session_id,
                SessionView { id: session_id, peers: seq![owner], owner: owner },
            ),
            ..self
        }
    }

    /// The state after the peer was filed under its id.
    pub open spec fn with_peer(self, peer: PeerView) -> AppStateView {
        AppStateView { peers: self.peers.insert(peer.id, peer), ..self }
    }

    /// The state after the device was filed under its address.
    pub open spec fn with_device(self, device: DeviceView) -> AppStateView {
        AppStateView { discovery_devices: self.discovery_devices.insert(device.ip, device), ..self }
    }

    /// The state after the device filed under the address was forgotten.
    pub open spec fn without_device(self, ip: Seq<char>) -> AppStateView {
        AppStateView { discovery_devices: self.discovery_devices.remove(ip), ..self }
    }

    /// The state after a private channel was kept for the peer.
    pub open spec fn with_channel(self, peer_id: Seq<char>) -> AppStateView {
        AppStateView { peers_tx: self.peers_tx.insert(peer_id), ..self }
    }

    /// The state after the peer joined the session: it is added to the
    /// session's members when the session exists and does not list it, and
    /// the session is recorded as the peer's.
    pub open spec fn with_member(self, session_id: Seq<char>, peer_id: Seq<char>) -> AppStateView {
        AppStateView {
            sessions: if self.sessions.dom().contains(session_id) && !self.sessions[session_id].peers.contains(peer_id) {
                self.sessions.insert(
                    session_id,
                    SessionView { peers: self.sessions[session_id].peers.push(peer_id), ..self.sessions[session_id] },
                )
            } else {
                self.sessions
            },
            peer_sessions: self.peer_sessions.insert(peer_id, session_id),
            ..self
        }
    }

    /// The state after the peer, its session record and its channel were
    /// forgotten.
    pub open spec fn without_peer(self, peer_id: Seq<char>) -> AppStateView {
        AppStateView {
            peers: self.peers.remove(peer_id),
            peer_sessions: self.peer_sessions.remove(peer_id),
            peers_tx: self.peers_tx.remove(peer_id),
            ..self
        }
    }

    /// The state after the peer was taken out of every session's members.
    pub open spec fn without_member(self, peer_id: Seq<char>) -> AppStateView {
        AppStateView {
            sessions: self.sessions.map_values(
                |s: SessionView| SessionView { peers: without(s.peers, peer_id), ..s },
            ),
            ..self
        }
    }

    /// What every operation keeps: each peer is filed under its own id,
    /// each device under its own address, each session under its own id,
    /// and no session lists a member twice.
    pub open spec fn consistent(self) -> bool {
        &&& forall|k: Seq<char>| #[trigger] self.peers.dom().contains(k) ==> self.peers[k].id == k
        &&& forall|k: Seq<char>| #[trigger] self.discovery_devices.dom().contains(k) ==> self.discovery_devices[k].ip == k
        &&& forall|k: Seq<char>| #[trigger] self.sessions.dom().contains(k) ==> self.sessions[k].id == k
        &&& forall|k: Seq<char>| #[trigger] self.sessions.dom().contains(k) ==> no_duplicates(self.sessions[k].peers)
    }
}

impl Default for AppState {
    /// An empty state.
    fn default() -> (s: Self)
        ensures
            s.wf(),
            s@ == AppStateView::empty(),
    {
        AppState::new()
    }
}

impl AppState {
    /// Well-formedness: the registries hold no key twice, and the view is
    /// consistent.
    pub open spec fn wf(&self) -> bool {
        &&& self.peers.wf()
        &&& self.discovery_devices.wf()
        &&& self.sessions.wf()
        &&& self.peer_sessions.wf()
        &&& self.peers_tx.wf()
        &&& self@.consistent()
    }

    /// An empty state.
    pub fn new() -> (s: Self)
        ensures
            s.wf(),
            s@ == AppStateView::empty(),
    {
        let s = AppState {
            peers: StrMap::new(),
            discovery_devices: StrMap::new(),
            sessions: StrMap::new(),
            peer_sessions: StrMap::new(),
            peers_tx: StrMap::new(),
        };
        assert(s@.peers =~= Map::empty());
        assert(s@.discovery_devices =~= Map::empty());
        assert(s@.sessions =~= Map::empty());
        assert(s@.peer_sessions =~= Map::empty());
        assert(s@.peers_tx =~= Set::empty());
        s
    }

    /// Files the peer under its id, replacing any peer with that id.
    pub fn add_peer(&mut self, peer: Peer)
        requires
            old(self).wf(),
        ensures
            final(self).wf(),
            final(self)@ == old(self)@.with_peer(peer@),
    {
        let ghost p = peer;
        let key = peer.id.clone();
        self.peers.insert(key, peer);
        proof {
            assert(self@.peers =~= old(self)@.peers.insert(p.id@, p@));
            assert(self@.sessions == old(self)@.sessions);
            assert(self@.discovery_devices == old(self)@.discovery_devices);
            assert forall|k: Seq<char>| #[trigger] self@.peers.dom().contains(k) implies self@.peers[k].id == k by {
                if k != p.id@ {
                    assert(old(self)@.peers.dom().contains(k));
                }
            }
        }
    }

    /// Files the device under its address, replacing any device there.
    pub fn add_discovery_device(&mut self, device: DiscoveryDevice)
        requires
            old(self).wf(),
        ensures
            final(self).wf(),
            final(self)@ == old(self)@.with_device(device@),
    {
        let ghost d = device;
        let key = device.ip.clone();
        self.discovery_devices.insert(key, device);
        proof {
            assert(self@.discovery_devices =~= old(self)@.discovery_devices.insert(d.ip@, d@));
            assert(self@.sessions == old(self)@.sessions);
            assert(self@.peers == old(self)@.peers);
            assert forall|k: Seq<char>| #[trigger] self@.discovery_devices.dom().contains(k) implies self@.discovery_devices[k].ip == k by {
                if k != d.ip@ {
                    assert(old(self)@.discovery_devices.dom().contains(k));
                }
            }
        }
    }

    /// Forgets the device filed under `ip`.
    pub fn remove_discovery_device(&mut self, ip: &str)
        requires
            old(self).wf(),
        ensures
            final(self).wf(),
            final(self)@ == old(self)@.without_device(ip@),
    {
        self.discovery_devices.remove(ip);
        proof {
            assert(self@.discovery_devices =~= old(self)@.discovery_devices.remove(ip@));
            assert(self@.sessions == old(self)@.sessions);
            assert(self@.peers == old(self)@.peers);
            assert forall|k: Seq<char>| #[trigger] self@.discovery_devices.dom().contains(k) implies self@.discovery_devices[k].ip == k by {
                assert(old(self)@.discovery_devices.dom().contains(k));
            }
        }
    }

    /// Forgets the peer, its session membership record and its channel.
    pub fn remove_peer(&mut self, id: &str)
        requires
            old(self).wf(),
        ensures
            final(self).wf(),
            final(self)@ == old(self)@.without_peer(id@),
    {
        self.peers.remove(id);
        self.peer_sessions.remove(id);
        self.peers_tx.remove(id);
        proof {
            assert(self@.peers =~= old(self)@.peers.remove(id@));
            assert(self@.peer_sessions =~= old(self)@.peer_sessions.remove(id@));
            assert(self@.peers_tx =~= old(self)@.peers_tx.remove(id@));
            assert(self@.sessions == old(self)@.sessions);
            assert(self@.discovery_devices == old(self)@.discovery_devices);
            assert forall|k: Seq<char>| #[trigger] self@.peers.dom().contains(k) implies self@.peers[k].id == k by {
                assert(old(self)@.peers.dom().contains(k));
            }
        }
    }

    /// Opens a session with the given id, whose only member is its owner.
    pub fn create_session_with_id(&mut self, session_id: String, owner_peer_id: String) -> (r: String)
        requires
            old(self).wf(),
        ensures
            final(self).wf(),
            r@ == session_id@,
            final(self)@ == old(self)@.with_session(session_id@, owner_peer_id@),
    {
        let mut members: Vec<String> = Vec::new();
        members.push(owner_peer_id.clone());
        let session = Session { id: session_id.clone(), peers: members, owner: owner_peer_id };
        let ghost sv = session@;
        proof {
            assert(string_views(session.peers@) =~= seq![session.owner@]);
        }
        self.sessions.insert(session_id.clone(), session);
        proof {
            assert(self@.sessions =~= old(self)@.sessions.insert(session_id@, sv));
            assert(self@.peers == old(self)@.peers);
            assert(self@.discovery_devices == old(self)@.discovery_devices);
            assert forall|k: Seq<char>| #[trigger] self@.sessions.dom().contains(k) implies
                self@.sessions[k].id == k && no_duplicates(self@.sessions[k].peers) by {
                if k != session_id@ {
                    assert(old(self)@.sessions.dom().contains(k));
                }
            }
        }
        session_id
    }
    /// Adds the peer to the session's members (when the session exists and
    /// does not list it yet), and records the session as the peer's.
    pub fn add_peer_to_session(&mut self, session_id: &str, peer_id: &str)
        requires
            old(self).wf(),
        ensures
            final(self).wf(),
            final(self)@ == old(self)@.with_member(session_id@, peer_id@),
    {
        match self.sessions.find(session_id) {
            Some(i) => {
                proof {
                    lemma_entries_map_index(self.sessions.entries@, i as int);
                }
                if !contains_str(&self.sessions.entries[i].1.peers, peer_id) {
                    let mut session = self.sessions.entries[i].1.clone();
                    let ghost before = session@;
                    session.peers.push(peer_id.to_owned());
                    let ghost after = session@;
                    proof {
                        assert(old(self)@.sessions.dom().contains(session_id@));
                        assert(before == old(self)@.sessions[session_id@]);
                        assert(no_duplicates(before.peers));
                        assert(!before.peers.contains(peer_id@));
                        assert(after.peers =~= before.peers.push(peer_id@));
                        assert(no_duplicates(after.peers)) by {
                            assert forall|a: int, b: int| 0 <= a < after.peers.len() && 0 <= b < after.peers.len() && a != b
                                implies after.peers[a] != after.peers[b] by {
                                if a < before.peers.len() && b < before.peers.len() {
                                } else if a < before.peers.len() {
                                    assert(after.peers[a] == before.peers[a]);
                                    if before.peers[a] == peer_id@ {
                                        assert(before.peers.contains(peer_id@));
                                    }
                                } else {
                                    assert(after.peers[b] == before.peers[b]);
                                    if before.peers[b] == peer_id@ {
                                        assert(before.peers.contains(peer_id@));
                                    }
                                }
                            }
                        }
                    }
                    self.sessions.insert(session_id.to_owned(), session);
                    proof {
                        assert(self@.sessions =~= old(self)@.sessions.insert(session_id@, after));
                    }
                }
            },
            None => {},
        }
        self.peer_sessions.insert(peer_id.to_owned(), session_id.to_owned());
        proof {
            assert(self@.peer_sessions =~= old(self)@.peer_sessions.insert(peer_id@, session_id@));
            assert(self@.sessions =~= (if old(self)@.sessions.dom().contains(session_id@)
                && !old(self)@.sessions[session_id@].peers.contains(peer_id@) {
                old(self)@.sessions.insert(
                    session_id@,
                    SessionView {
                        peers: old(self)@.sessions[session_id@].peers.push(peer_id@),
                        ..old(self)@.sessions[session_id@]
                    },
                )
            } else {
                old(self)@.sessions
            }));
            assert(self@.peers == old(self)@.peers);
            assert(self@.discovery_devices == old(self)@.discovery_devices);
            assert forall|k: Seq<char>| #[trigger] self@.sessions.dom().contains(k) implies
                self@.sessions[k].id == k && no_duplicates(self@.sessions[k].peers) by {
                assert(old(self)@.sessions.dom().contains(k));
            }
        }
    }

    /// Takes the peer out of the member list of every session.
    pub fn remove_peer_from_all_sessions(&mut self, peer_id: &str)
        requires
            old(self).wf(),
        ensures
            final(self).wf(),
            final(self)@ == old(self)@.without_member(peer_id@),
    {
        let n = self.sessions.entries.len();
        let ghost old_entries = self.sessions.entries@;
        let mut i: usize = 0;
        while i < n
            invariant
                n == old_entries.len(),
                0 <= i <= n,
                keys_distinct(old_entries),
                self.sessions.entries@.len() == n,
                forall|j: int| 0 <= j < n ==> #[trigger] self.sessions.entries@[j].0@ == old_entries[j].0@,
                forall|j: int| 0 <= j < i ==> #[trigger] self.sessions.entries@[j].1@ == (SessionView {
                    peers: without(old_entries[j].1@.peers, peer_id@),
                    ..old_entries[j].1@
                }),
                forall|j: int| 0 <= j < i ==> no_duplicates(old_entries[j].1@.peers)
                    ==> no_duplicates(#[trigger] self.sessions.entries@[j].1@.peers),
                forall|j: int| i <= j < n ==> #[trigger] self.sessions.entries@[j] == old_entries[j],
                self.peers == old(self).peers,
                self.discovery_devices == old(self).discovery_devices,
                self.peer_sessions == old(self).peer_sessions,
                self.peers_tx == old(self).peers_tx,
            decreases n - i,
        {
            let members = without_str(&self.sessions.entries[i].1.peers, peer_id);
            let key = self.sessions.entries[i].0.clone();
            let session = Session {
                id: self.sessions.entries[i].1.id.clone(),
                peers: members,
                owner: self.sessions.entries[i].1.owner.clone(),
            };
            self.sessions.entries[i] = (key, session);
            i = i + 1;
        }
        proof {
            let t = self.sessions.entries@;
            lemma_entries_same_keys(old_entries, t);
            let f = |s: SessionView| SessionView { peers: without(s.peers, peer_id@), ..s };
            assert forall|k: Seq<char>| #[trigger] self@.sessions.dom().contains(k) implies
                self@.sessions[k] == f(old(self)@.sessions[k]) by {
                lemma_entries_map_dom(t, k);
                let j = choose|j: int| 0 <= j < t.len() && #[trigger] t[j].0@ == k;
                lemma_entries_map_index(old_entries, j);
                assert(old_entries[j].0@ == k);
            }
            assert(self@.sessions =~= old(self)@.sessions.map_values(f));
            assert forall|k: Seq<char>| #[trigger] self@.sessions.dom().contains(k) implies
                self@.sessions[k].id == k && no_duplicates(self@.sessions[k].peers) by {
                assert(old(self)@.sessions.dom().contains(k));
                lemma_entries_map_dom(t, k);
                let j = choose|j: int| 0 <= j < t.len() && #[trigger] t[j].0@ == k;
                lemma_entries_map_index(old_entries, j);
                assert(old_entries[j].0@ == k);
                assert(old(self)@.sessions[k] == old_entries[j].1@);
                assert(no_duplicates(old_entries[j].1@.peers));
                assert(self@.sessions[k] == t[j].1@);
            }
            assert(self@.peers == old(self)@.peers);
            assert(self@.discovery_devices == old(self)@.discovery_devices);
        }
    }

    /// Marks the peer (if known) as last seen at `now`.
    pub fn update_heartbeat_at(&mut self, peer_id: &str, now: u64)
        requires
            old(self).wf(),
        ensures
            final(self).wf(),
            final(self)@ == old(self)@.heartbeat(peer_id@, now),
    {
        match self.peers.find(peer_id) {
            Some(i) => {
                proof {
                    lemma_entries_map_index(self.peers.entries@, i as int);
                }
                assert(old(self)@.peers.dom().contains(peer_id@));
                let mut peer = self.peers.entries[i].1.clone();
                peer.last_seen = now;
                let ghost pv = peer@;
                self.peers.insert(peer_id.to_owned(), peer);
                proof {
                    assert(self@.peers =~= old(self)@.peers.insert(peer_id@, pv));
                    assert forall|k: Seq<char>| #[trigger] self@.peers.dom().contains(k) implies self@.peers[k].id == k by {
                        if k != peer_id@ {
                            assert(old(self)@.peers.dom().contains(k));
                        }
                    }
                }
            },
            None => {},
        }
        assert(self@.sessions == old(self)@.sessions);
        assert(self@.discovery_devices == old(self)@.discovery_devices);
    }

    /// Drops every peer silent for the timeout or longer at `now`, with its
    /// channel.
    pub fn cleanup_peers_at(&mut self, now: u64)
        requires
            old(self).wf(),
            seen_by(old(self)@.peers, now),
        ensures
            final(self).wf(),
            final(self)@ == old(self)@.cleaned_up(now),
    {
        let ghost s = self.peers.entries@;
        let ghost pm = old(self)@.peers;
        let n = self.peers.entries.len();
        let mut kept: Vec<(String, Peer)> = Vec::new();
        let mut i: usize = 0;
        while i < n
            invariant
                n == s.len(),
                0 <= i <= n,
                self.peers.entries@ == s,
                keys_distinct(s),
                pm == view_values(entries_map(s)),
                seen_by(pm, now),
                self.peers_tx.wf(),
                keys_distinct(kept@),
                forall|k: Seq<char>| #[trigger] entries_map(kept@).dom().contains(k) <==>
                    exists|j: int| 0 <= j < i && #[trigger] s[j].0@ == k && !is_stale(s[j].1@, now),
                forall|j: int| 0 <= j < kept@.len() ==> #[trigger] kept@[j].1 == entries_map(s)[kept@[j].0@],
                forall|k: Seq<char>| #[trigger] self.peers_tx@.dom().contains(k) <==>
                    old(self).peers_tx@.dom().contains(k)
                    && !(exists|j: int| 0 <= j < i && #[trigger] s[j].0@ == k && is_stale(s[j].1@, now)),
                self.discovery_devices == old(self).discovery_devices,
                self.sessions == old(self).sessions,
                self.peer_sessions == old(self).peer_sessions,
            decreases n - i,
        {
            proof {
                lemma_entries_map_index(s, i as int);
                assert(pm.dom().contains(s[i as int].0@));
            }
            let stale = now - self.peers.entries[i].1.last_seen >= PEER_TIMEOUT_SECS;
            if !stale {
                let key = self.peers.entries[i].0.clone();
                let peer = self.peers.entries[i].1.clone();
                proof {
                    lemma_entries_map_dom(kept@, key@);
                    if entries_map(kept@).dom().contains(key@) {
                        let j = choose|j: int| 0 <= j < i && #[trigger] s[j].0@ == key@ && !is_stale(s[j].1@, now);
                        assert(s[j].0@ != s[i as int].0@);
                    }
                    lemma_entries_push(kept@, (key, peer));
                }
                let ghost prev = kept@;
                kept.push((key, peer));
                proof {
                    assert forall|k: Seq<char>| #[trigger] entries_map(kept@).dom().contains(k) <==>
                        exists|j: int| 0 <= j < i + 1 && #[trigger] s[j].0@ == k && !is_stale(s[j].1@, now) by {
                        if k == s[i as int].0@ {
                        } else if entries_map(prev).dom().contains(k) {
                            let j = choose|j: int| 0 <= j < i && #[trigger] s[j].0@ == k && !is_stale(s[j].1@, now);
                        } else if exists|j: int| 0 <= j < i + 1 && #[trigger] s[j].0@ == k && !is_stale(s[j].1@, now) {
                            let j = choose|j: int| 0 <= j < i + 1 && #[trigger] s[j].0@ == k && !is_stale(s[j].1@, now);
                            assert(j < i);
                        }
                    }
                    assert forall|j: int| 0 <= j < kept@.len() implies #[trigger] kept@[j].1 == entries_map(s)[kept@[j].0@] by {
                        if j < prev.len() {
                            assert(kept@[j] == prev[j]);
                        }
                    }
                }
            } else {
                let ghost before = self.peers_tx@;
                self.peers_tx.remove(self.peers.entries[i].0.as_str());
                proof {
                    assert forall|k: Seq<char>| #[trigger] self.peers_tx@.dom().contains(k) <==>
                        old(self).peers_tx@.dom().contains(k)
                        && !(exists|j: int| 0 <= j < i + 1 && #[trigger] s[j].0@ == k && is_stale(s[j].1@, now)) by {
                        if exists|j: int| 0 <= j < i + 1 && #[trigger] s[j].0@ == k && is_stale(s[j].1@, now) {
                            let j = choose|j: int| 0 <= j < i + 1 && #[trigger] s[j].0@ == k && is_stale(s[j].1@, now);
                            if j < i {
                            }
                        }
                    }
                }
            }
            i = i + 1;
        }
        self.peers.entries = kept;
        proof {
            let f = |k: Seq<char>| !is_stale(pm[k], now);
            assert forall|k: Seq<char>| #[trigger] self@.peers.dom().contains(k) == pm.filter_keys(f).dom().contains(k) by {
                lemma_entries_map_dom(s, k);
                if exists|j: int| 0 <= j < n && #[trigger] s[j].0@ == k && !is_stale(s[j].1@, now) {
                    let j = choose|j: int| 0 <= j < n && #[trigger] s[j].0@ == k && !is_stale(s[j].1@, now);
                    lemma_entries_map_index(s, j);
                }
                if pm.filter_keys(f).dom().contains(k) {
                    let j = choose|j: int| 0 <= j < s.len() && #[trigger] s[j].0@ == k;
                    lemma_entries_map_index(s, j);
                }
            }
            assert forall|k: Seq<char>| #[trigger] self@.peers.dom().contains(k) implies self@.peers[k] == pm[k] by {
                lemma_entries_map_dom(kept@, k);
                let j = choose|j: int| 0 <= j < kept@.len() && #[trigger] kept@[j].0@ == k;
                lemma_entries_map_index(kept@, j);
            }
            assert(self@.peers =~= pm.filter_keys(f));
            let g = |k: Seq<char>| !(pm.dom().contains(k) && is_stale(pm[k], now));
            assert forall|k: Seq<char>| #[trigger] self@.peers_tx.contains(k) == old(self)@.peers_tx.filter(g).contains(k) by {
                lemma_entries_map_dom(s, k);
                if exists|j: int| 0 <= j < n && #[trigger] s[j].0@ == k && is_stale(s[j].1@, now) {
                    let j = choose|j: int| 0 <= j < n && #[trigger] s[j].0@ == k && is_stale(s[j].1@, now);
                    lemma_entries_map_index(s, j);
                }
                if pm.dom().contains(k) && is_stale(pm[k], now) {
                    let j = choose|j: int| 0 <= j < s.len() && #[trigger] s[j].0@ == k;
                    lemma_entries_map_index(s, j);
                }
            }
            assert(self@.peers_tx =~= old(self)@.peers_tx.filter(g));
            assert forall|k: Seq<char>| #[trigger] self@.peers.dom().contains(k) implies self@.peers[k].id == k by {
                assert(old(self)@.peers.dom().contains(k));
            }
            assert(self@.sessions == old(self)@.sessions);
            assert(self@.discovery_devices == old(self)@.discovery_devices);
        }
    }

    /// The known members of the session, in the session's order (none when
    /// there is no such session).
    pub fn get_session_peers(&self, session_id: &str) -> (r: Vec<Peer>)
        requires
            self.wf(),
        ensures
            r@.map_values(|p: Peer| p@) == (if self@.sessions.dom().contains(session_id@) {
                listed_peers(self@.sessions[session_id@].peers, self@.peers)
            } else {
                Seq::empty()
            }),
    {
        let mut r: Vec<Peer> = Vec::new();
        match self.sessions.get(session_id) {
            Some(session) => {
                let ghost ids = string_views(session.peers@);
                let n = session.peers.len();
                let mut i: usize = 0;
                while i < n
                    invariant
                        n == session.peers@.len(),
                        ids == string_views(session.peers@),
                        0 <= i <= n,
                        self.wf(),
                        r@.map_values(|p: Peer| p@) == listed_peers(ids.take(i as int), self@.peers),
                    decreases n - i,
                {
                    assert(ids.take(i + 1).drop_last() =~= ids.take(i as int));
                    assert(ids.take(i + 1).last() == session.peers@[i as int]@);
                    match self.peers.get(session.peers[i].as_str()) {
                        Some(p) => {
                            let ghost prev = r@;
                            r.push(p.clone());
                            assert(r@.map_values(|p: Peer| p@) =~= prev.map_values(|p: Peer| p@).push(p@));
                        },
                        None => {},
                    }
                    i = i + 1;
                }
                assert(ids.take(n as int) =~= ids);
            },
            None => {
                assert(r@.map_values(|p: Peer| p@) =~= Seq::empty());
            },
        }
        r
    }
    /// Records that the peer has a private channel.
    pub fn register_channel(&mut self, peer_id: String)
        requires
            old(self).wf(),
        ensures
            final(self).wf(),
            final(self)@ == old(self)@.with_channel(peer_id@),
    {
        self.peers_tx.insert(peer_id, ());
        proof {
            assert(self@.peers_tx =~= old(self)@.peers_tx.insert(peer_id@));
            assert(self@.peers == old(self)@.peers);
            assert(self@.sessions == old(self)@.sessions);
            assert(self@.discovery_devices == old(self)@.discovery_devices);
        }
    }

    /// Whether the peer has a private channel.
    pub fn has_channel(&self, peer_id: &str) -> (b: bool)
        requires
            self.wf(),
        ensures
            b == self@.peers_tx.contains(peer_id@),
    {
        self.peers_tx.contains_key(peer_id)
    }

    /// Every peer, in the order they were first filed.
    pub fn peer_list(&self) -> (r: Vec<Peer>)
        ensures
            r@ == self.peers.value_seq(),
    {
        let n = self.peers.entries.len();
        let mut r: Vec<Peer> = Vec::new();
        let mut i: usize = 0;
        while i < n
            invariant
                n == self.peers.entries@.len(),
                0 <= i <= n,
                r@ == self.peers.value_seq().take(i as int),
            decreases n - i,
        {
            r.push(self.peers.entries[i].1.clone());
            assert(r@ =~= self.peers.value_seq().take(i + 1));
            i = i + 1;
        }
        assert(r@ =~= self.peers.value_seq());
        r
    }

    /// Every discovered device, in the order they were first filed.
    pub fn discovery_list(&self) -> (r: Vec<DiscoveryDevice>)
        ensures
            r@ == self.discovery_devices.value_seq(),
    {
        let n = self.discovery_devices.entries.len();
        let mut r: Vec<DiscoveryDevice> = Vec::new();
        let mut i: usize = 0;
        while i < n
            invariant
                n == self.discovery_devices.entries@.len(),
                0 <= i <= n,
                r@ == self.discovery_devices.value_seq().take(i as int),
            decreases n - i,
        {
            r.push(self.discovery_devices.entries[i].1.clone());
            assert(r@ =~= self.discovery_devices.value_seq().take(i + 1));
            i = i + 1;
        }
        assert(r@ =~= self.discovery_devices.value_seq());
        r
    }

    /// The current time in seconds since the Unix epoch; 0 when the clock
    /// reads a time before the epoch.
    pub fn now() -> (t: u64) {
        let t = system_time_now();
        match duration_since_epoch(&t) {
            Ok(d) => duration_as_secs(&d),
            Err(_) => 0,
        }
    }

    /// Opens a session with a fresh random id (a version-4 UUID in lowercase
    /// hyphenated form), whose only member is its owner, and gives back the id.
    pub fn create_session(&mut self, owner_peer_id: String) -> (r: String)
        requires
            old(self).wf(),
        ensures
            final(self).wf(),
            is_hyphenated_uuid_v4(r@),
            final(self)@ == old(self)@.with_session(r@, owner_peer_id@),
    {
        let session_id = crate::ids::new_uuid_string();
        self.create_session_with_id(session_id, owner_peer_id)
    }

    /// Marks the peer (if known) as seen now.
    pub fn update_heartbeat(&mut self, peer_id: &str)
        requires
            old(self).wf(),
        ensures
            final(self).wf(),
            exists|t: u64| final(self)@ == old(self)@.heartbeat(peer_id@, t),
    {
        let now = Self::now();
        self.update_heartbeat_at(peer_id, now);
    }

    /// Drops every peer silent for the timeout or longer, with its channel.
    /// When the clock reads a time before some peer's last sighting (where a
    /// plain subtraction would overflow), nothing is dropped.
    pub fn cleanup_peers(&mut self)
        requires
            old(self).wf(),
        ensures
            final(self).wf(),
            exists|t: u64|
                #![trigger seen_by(old(self)@.peers, t)]
                if seen_by(old(self)@.peers, t) {
                    final(self)@ == old(self)@.cleaned_up(t)
                } else {
                    final(self)@ == old(self)@
                },
    {
        let now = Self::now();
        if self.all_seen_by(now) {
            self.cleanup_peers_at(now);
        }
        assert(if seen_by(old(self)@.peers, now) {
            self@ == old(self)@.cleaned_up(now)
        } else {
            self@ == old(self)@
        });
    }

    /// Whether every peer was last seen no later than `now`.
    pub fn all_seen_by(&self, now: u64) -> (b: bool)
        requires
            self.wf(),
        ensures
            b == seen_by(self@.peers, now),
    {
        let n = self.peers.entries.len();
        let mut i: usize = 0;
        while i < n
            invariant
                n == self.peers.entries@.len(),
                0 <= i <= n,
                self.wf(),
                forall|j: int| 0 <= j < i ==> #[trigger] self.peers.entries@[j].1.last_seen <= now,
            decreases n - i,
        {
            if self.peers.entries[i].1.last_seen > now {
                proof {
                    lemma_entries_map_index(self.peers.entries@, i as int);
                    assert(self@.peers.dom().contains(self.peers.entries@[i as int].0@));
                }
                return false;
            }
            i = i + 1;
        }
        proof {
            assert forall|k: Seq<char>| #[trigger] self@.peers.dom().contains(k) implies self@.peers[k].last_seen <= now by {
                lemma_entries_map_dom(self.peers.entries@, k);
                let j = choose|j: int| 0 <= j < n && #[trigger] self.peers.entries@[j].0@ == k;
                lemma_entries_map_index(self.peers.entries@, j);
            }
        }
        true
    }
}

/// `std::time::SystemTime`, carried opaquely.
#[verifier::external_type_specification]
#[verifier::external_body]
pub struct ExSystemTime(std::time::SystemTime);

/// `std::time::SystemTimeError`, carried opaquely.
#[verifier::external_type_specification]
#[verifier::external_body]
pub struct ExSystemTimeError(std::time::SystemTimeError);

/// `std::time::SystemTime::now`: the clock's reading; nothing is claimed of it.
#[verifier::external_body]
fn system_time_now() -> std::time::SystemTime {
    std::time::SystemTime::now()
}

/// `std::time::SystemTime::duration_since` from `UNIX_EPOCH`: an error when
/// the time is before the epoch; nothing is claimed of the value.
#[verifier::external_body]
fn duration_since_epoch(t: &std::time::SystemTime) -> Result<std::time::Duration, std::time::SystemTimeError> {
    t.duration_since(std::time::UNIX_EPOCH)
}

/// `std::time::Duration::as_secs`: the whole seconds of the duration.
#[verifier::external_body]
fn duration_as_secs(d: &std::time::Duration) -> u64 {
    d.as_secs()
}

} // verus!
