//! Properties that hold across the operations of the library.
use vstd::prelude::*;
use crate::crypto::hex_lower;
use crate::handler::joined;
use crate::state::{AppStateView, PeerView, PEER_TIMEOUT_SECS, is_stale, without};

verus! {

/// A list without a key does not hold the key, and holds every other
/// element it held.
pub proof fn lemma_without(s: Seq<Seq<char>>, k: Seq<char>, q: Seq<char>)
    ensures
        !without(s, k).contains(k),
        q != k ==> (without(s, k).contains(q) <==> s.contains(q)),
    decreases s.len(),
{
    if s.len() > 0 {
        let t = s.drop_last();
        lemma_without(t, k, q);
        let r = without(t, k);
        if s.last() != k {
            assert(without(s, k) == r.push(s.last()));
            if r.push(s.last()).contains(k) {
                let i = choose|i: int| 0 <= i < r.push(s.last()).len() && r.push(s.last())[i] == k;
                assert(i < r.len());
                assert(r[i] == k);
            }
        }
        if q != k {
            let w = without(s, k);
            if s.contains(q) {
                let i = choose|i: int| 0 <= i < s.len() && s[i] == q;
                if i < t.len() {
                    assert(t[i] == q);
                    assert(t.contains(q));
                    let j = choose|j: int| 0 <= j < r.len() && r[j] == q;
                    if s.last() != k {
                        assert(w[j] == q);
                    } else {
                        assert(w[j] == q);
                    }
                } else {
                    assert(s.last() == q);
                    assert(w[w.len() - 1] == q);
                }
            }
            if w.contains(q) {
                let i = choose|i: int| 0 <= i < w.len() && w[i] == q;
                if s.last() != k && i == r.len() {
                    assert(s[s.len() - 1] == q);
                } else {
                    assert(r[i] == q);
                    assert(r.contains(q));
                    let j = choose|j: int| 0 <= j < t.len() && t[j] == q;
                    assert(s[j] == q);
                }
            }
        }
    }
}

/// Forgetting a peer that was just filed under a new id leaves the peers
/// as they were before.
pub proof fn law_remove_peer_undoes_add_peer(s: AppStateView, p: PeerView)
    requires
        !s.peers.dom().contains(p.id),
    ensures
        s.with_peer(p).without_peer(p.id).peers == s.peers,
{
    assert(s.with_peer(p).without_peer(p.id).peers =~= s.peers);
}

/// Joining a session twice is joining it once.
pub proof fn law_join_session_idempotent(s: AppStateView, session_id: Seq<char>, peer_id: Seq<char>)
    ensures
        s.with_member(session_id, peer_id).with_member(session_id, peer_id) == s.with_member(session_id, peer_id),
{
    let once = s.with_member(session_id, peer_id);
    if s.sessions.dom().contains(session_id) {
        assert(once.sessions[session_id].peers.contains(peer_id)) by {
            if !s.sessions[session_id].peers.contains(peer_id) {
                let ps = s.sessions[session_id].peers.push(peer_id);
                assert(ps[ps.len() - 1] == peer_id);
            }
        }
    }
    assert(once.with_member(session_id, peer_id).peer_sessions =~= once.peer_sessions);
    assert(once.with_member(session_id, peer_id).sessions =~= once.sessions);
}

/// After a peer joins an existing session, the session lists it, and the
/// peer's session is that session.
pub proof fn law_join_session_member(s: AppStateView, session_id: Seq<char>, peer_id: Seq<char>)
    requires
        s.sessions.dom().contains(session_id),
    ensures
        s.with_member(session_id, peer_id).sessions[session_id].peers.contains(peer_id),
        s.with_member(session_id, peer_id).peer_sessions[peer_id] == session_id,
{
    if !s.sessions[session_id].peers.contains(peer_id) {
        let ps = s.sessions[session_id].peers.push(peer_id);
        assert(ps[ps.len() - 1] == peer_id);
    }
}

/// After a peer is taken out of every session, no session lists it, every
/// session keeps its other members, and the set of sessions is the same.
pub proof fn law_leave_all_sessions(s: AppStateView, peer_id: Seq<char>, session_id: Seq<char>, other: Seq<char>)
    requires
        s.sessions.dom().contains(session_id),
        other != peer_id,
    ensures
        s.without_member(peer_id).sessions.dom() == s.sessions.dom(),
        !s.without_member(peer_id).sessions[session_id].peers.contains(peer_id),
        s.without_member(peer_id).sessions[session_id].peers.contains(other) <==> s.sessions[session_id].peers.contains(
            other,
        ),
{
    lemma_without(s.sessions[session_id].peers, peer_id, other);
}

/// A heartbeat keeps the set of peers and marks the peer as seen.
pub proof fn law_heartbeat(s: AppStateView, peer_id: Seq<char>, now: u64)
    requires
        s.peers.dom().contains(peer_id),
    ensures
        s.heartbeat(peer_id, now).peers.dom() == s.peers.dom(),
        s.heartbeat(peer_id, now).peers[peer_id].last_seen == now,
{
    assert(s.heartbeat(peer_id, now).peers.dom() =~= s.peers.dom());
}

/// Clean-up keeps exactly the peers that are not stale, unchanged, and
/// drops the channels of the stale ones only.
pub proof fn law_cleanup_keeps_fresh(s: AppStateView, now: u64, k: Seq<char>)
    ensures
        s.cleaned_up(now).peers.dom().contains(k) <==> (s.peers.dom().contains(k) && !is_stale(s.peers[k], now)),
        s.cleaned_up(now).peers.dom().contains(k) ==> s.cleaned_up(now).peers[k] == s.peers[k],
        s.cleaned_up(now).peers_tx.contains(k) <==> (s.peers_tx.contains(k) && !(s.peers.dom().contains(k)
            && is_stale(s.peers[k], now))),
{
}

/// A client that said hello is a known peer under its id, seen at the time
/// of the hello, has a channel, and is a member of the session it named,
/// when that session exists.
pub proof fn law_hello_joins(s: AppStateView, id: Seq<char>, name: Seq<char>, session_id: Seq<char>, now: u64)
    ensures
        ({
            let after = joined(s, id, name, session_id, now);
            &&& after.peers.dom().contains(id)
            &&& after.peers[id].name == name
            &&& after.peers[id].last_seen == now
            &&& after.peers_tx.contains(id)
            &&& after.peer_sessions[id] == session_id
            &&& s.sessions.dom().contains(session_id) ==> after.sessions[session_id].peers.contains(id)
        }),
{
    let mid = s.with_peer(PeerView { id: id, name: name, address: "ws"@, last_seen: now }).with_channel(id);
    if s.sessions.dom().contains(session_id) {
        law_join_session_member(mid, session_id, id);
    }
}

/// A client that said hello at `t` survives, with its channel, every
/// clean-up earlier than `t` plus the timeout, and is dropped, with its
/// channel, by every clean-up at that time or later.
pub proof fn law_hello_then_cleanup(
    s: AppStateView,
    id: Seq<char>,
    name: Seq<char>,
    session_id: Seq<char>,
    t: u64,
    later: u64,
)
    ensures
        ({
            let after = joined(s, id, name, session_id, t).cleaned_up(later);
            &&& after.peers.dom().contains(id) <==> later < t + PEER_TIMEOUT_SECS
            &&& after.peers_tx.contains(id) <==> later < t + PEER_TIMEOUT_SECS
        }),
{
    let j = joined(s, id, name, session_id, t);
    assert(j.peers.dom().contains(id) && j.peers[id].last_seen == t);
    assert(j.peers_tx.contains(id));
}

/// A heartbeat at `t` of a known peer keeps it, with its channel if it has
/// one, through every clean-up earlier than `t` plus the timeout; a clean-up
/// at that time or later drops it with its channel.
pub proof fn law_heartbeat_then_cleanup(s: AppStateView, peer_id: Seq<char>, t: u64, later: u64)
    requires
        s.peers.dom().contains(peer_id),
    ensures
        s.heartbeat(peer_id, t).cleaned_up(later).peers.dom().contains(peer_id) <==> later < t + PEER_TIMEOUT_SECS,
        s.heartbeat(peer_id, t).cleaned_up(later).peers_tx.contains(peer_id) <==> (s.peers_tx.contains(peer_id)
            && later < t + PEER_TIMEOUT_SECS),
{
    assert(s.heartbeat(peer_id, t).peers[peer_id].last_seen == t);
}

/// A client that said hello and then disconnected is forgotten: it is no
/// peer, has no channel and no session record, and no session lists it.
pub proof fn law_hello_then_disconnect(
    s: AppStateView,
    id: Seq<char>,
    name: Seq<char>,
    session_id: Seq<char>,
    now: u64,
    k: Seq<char>,
)
    requires
        s.sessions.dom().contains(k),
    ensures
        ({
            let after = joined(s, id, name, session_id, now).without_peer(id).without_member(id);
            &&& !after.peers.dom().contains(id)
            &&& !after.peers_tx.contains(id)
            &&& !after.peer_sessions.dom().contains(id)
            &&& after.sessions.dom().contains(k)
            &&& !after.sessions[k].peers.contains(id)
        }),
{
    let mid = joined(s, id, name, session_id, now).without_peer(id);
    assert(mid.sessions.dom().contains(k));
    lemma_without(mid.sessions[k].peers, id, id);
}

/// Lowercase hexadecimal takes two characters per byte.
pub proof fn law_hex_length(data: Seq<u8>)
    ensures
        hex_lower(data).len() == 2 * data.len(),
{
    crate::crypto::lemma_hex_lower(data);
}

} // verus!
