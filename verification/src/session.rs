//! Security sessions with peers, one per peer address.

use vstd::prelude::*;
use crate::peer_addr::PeerAddress;

verus! {

/// A session with a peer. Times are milliseconds since the Unix epoch.
#[derive(Debug)]
pub struct Session {
    pub id: String,
    pub peer: PeerAddress,
    pub key: Vec<u8>,
    pub created_at_ms: u64,
    pub last_used_ms: u64,
    pub expires_at_ms: u64,
    pub peer_identity: Option<String>,
}

/// The session as plain values.
pub struct SessionView {
    pub id: Seq<char>,
    pub key: Seq<u8>,
    pub created_at_ms: u64,
    pub last_used_ms: u64,
    pub expires_at_ms: u64,
    pub peer_identity: Option<Seq<char>>,
}

impl View for Session {
    type V = SessionView;

    open spec fn view(&self) -> SessionView {
        SessionView {
            id: self.id@,
            key: self.key@,
            created_at_ms: self.created_at_ms,
            last_used_ms: self.last_used_ms,
            expires_at_ms: self.expires_at_ms,
            peer_identity: match self.peer_identity {
                Some(p) => Some(p@),
                None => None,
            },
        }
    }
}

impl Session {
    /// Whether the session has run out at `now_ms`.
    pub open spec fn expired_at(self, now_ms: u64) -> bool {
        now_ms > self.expires_at_ms
    }
}

impl Clone for Session {
    fn clone(&self) -> (res: Self)
        ensures
            res@ == self@,
            res.peer == self.peer,
    {
        Session {
            id: self.id.clone(),
            peer: self.peer,
            key: self.key.clone(),
            created_at_ms: self.created_at_ms,
            last_used_ms: self.last_used_ms,
            expires_at_ms: self.expires_at_ms,
            peer_identity: match &self.peer_identity {
                Some(p) => Some(p.clone()),
                None => None,
            },
        }
    }
}

/// Same peer and same values.
pub open spec fn same_session(a: Session, b: Session) -> bool {
    a@ == b@ && a.peer == b.peer
}

/// Whether some session in the list is with the peer.
pub open spec fn holds_peer(s: Seq<Session>, peer: PeerAddress) -> bool {
    exists|i: int| 0 <= i < s.len() && (#[trigger] s[i]).peer == peer
}

/// No peer has two sessions in the list.
pub open spec fn peers_distinct(s: Seq<Session>) -> bool {
    forall|i: int, j: int| 0 <= i < s.len() && 0 <= j < s.len() && i != j ==> (#[trigger] s[i]).peer != (#[trigger] s[j]).peer
}

/// The sessions of the list by peer.
pub open spec fn session_map(s: Seq<Session>) -> Map<PeerAddress, SessionView> {
    Map::new(
        |p: PeerAddress| holds_peer(s, p),
        |p: PeerAddress| s[choose|i: int| 0 <= i < s.len() && (#[trigger] s[i]).peer == p]@,
    )
}

proof fn lemma_map_at(s: Seq<Session>, j: int)
    requires
        peers_distinct(s),
        0 <= j < s.len(),
    ensures
        session_map(s).contains_key(s[j].peer),
        session_map(s)[s[j].peer] == s[j]@,
{
    let p = s[j].peer;
    assert(holds_peer(s, p));
    let i = choose|i: int| 0 <= i < s.len() && (#[trigger] s[i]).peer == p;
    assert(i == j);
}

/// The sessions with peers, at most one per peer, seen as a map from peer
/// to session.
pub struct SessionTable {
    sessions: Vec<Session>,
}

impl View for SessionTable {
    type V = Map<PeerAddress, SessionView>;

    closed spec fn view(&self) -> Map<PeerAddress, SessionView> {
        session_map(self.sessions@)
    }
}

impl SessionTable {
    /// The table keeps one session per peer.
    pub closed spec fn wf(&self) -> bool {
        peers_distinct(self.sessions@)
    }

    /// An empty table.
    pub fn new() -> (res: Self)
        ensures
            res.wf(),
            res@ == Map::<PeerAddress, SessionView>::empty(),
    {
        let res = SessionTable { sessions: Vec::new() };
        assert(res@ =~= Map::<PeerAddress, SessionView>::empty());
        res
    }

    /// The number of sessions.
    pub fn len(&self) -> (res: usize)
        requires
            self.wf(),
        ensures
            res == self@.len(),
    {
        proof {
            self.lemma_len();
        }
        self.sessions.len()
    }

    proof fn lemma_len(&self)
        requires
            self.wf(),
        ensures
            self@.dom().finite(),
            self@.len() == self.sessions@.len(),
        decreases self.sessions@.len(),
    {
        let s = self.sessions@;
        let keys = Set::new(|p: PeerAddress| holds_peer(s, p));
        let idx = Set::new(|i: int| 0 <= i < s.len());
        assert(self@.dom() =~= keys);
        let f = |i: int| s[i].peer;
        assert(idx =~= vstd::set_lib::set_int_range(0, s.len() as int));
        vstd::set_lib::lemma_int_range(0, s.len() as int);
        assert(keys =~= idx.map(f)) by {
            assert forall|p: PeerAddress| keys.contains(p) implies idx.map(f).contains(p) by {
                let i = choose|i: int| 0 <= i < s.len() && (#[trigger] s[i]).peer == p;
                assert(idx.contains(i) && f(i) == p);
            }
            assert forall|p: PeerAddress| idx.map(f).contains(p) implies keys.contains(p) by {
                let i = choose|i: int| idx.contains(i) && f(i) == p;
                assert(s[i].peer == p);
            }
        }
        assert forall|a: int, b: int| idx.contains(a) && idx.contains(b) && #[trigger] f(a) == #[trigger] f(b) implies a == b by {
            if a != b {
                assert(s[a].peer != s[b].peer);
            }
        }
        vstd::set_lib::lemma_map_size(idx, keys, f);
    }

    /// The session with the peer, if there is one.
    pub fn get(&self, peer: &PeerAddress) -> (res: Option<&Session>)
        requires
            self.wf(),
        ensures
            match res {
                Some(s) => self@.contains_key(*peer) && self@[*peer] == s@ && s.peer == *peer,
                None => !self@.contains_key(*peer),
            },
    {
        match self.position(peer) {
            Some(i) => {
                proof {
                    lemma_map_at(self.sessions@, i as int);
                }
                Some(&self.sessions[i])
            },
            None => None,
        }
    }

    fn position(&self, peer: &PeerAddress) -> (res: Option<usize>)
        ensures
            match res {
                Some(i) => i < self.sessions@.len() && self.sessions@[i as int].peer == *peer,
                None => !holds_peer(self.sessions@, *peer),
            },
    {
        let mut i: usize = 0;
        while i < self.sessions.len()
            invariant
                i <= self.sessions@.len(),
                forall|j: int| 0 <= j < i ==> (#[trigger] self.sessions@[j]).peer != *peer,
            decreases self.sessions@.len() - i,
        {
            if self.sessions[i].peer == *peer {
                return Some(i);
            }
            i = i + 1;
        }
        None
    }

    /// Puts the session in, in place of any earlier one with its peer.
    pub fn insert(&mut self, session: Session)
        requires
            old(self).wf(),
        ensures
            final(self).wf(),
            final(self)@ == old(self)@.insert(session.peer, session@),
    {
        let ghost old_s = self.sessions@;
        let peer = session.peer;
        let ghost sv = session@;
        match self.position(&peer) {
            Some(i) => {
                self.sessions.set(i, session);
                proof {
                    let s = self.sessions@;
                    assert(peers_distinct(s)) by {
                        assert forall|a: int, b: int| 0 <= a < s.len() && 0 <= b < s.len() && a != b implies
                            (#[trigger] s[a]).peer != (#[trigger] s[b]).peer by {
                            if a != i && b != i {
                                assert(old_s[a].peer != old_s[b].peer);
                            } else if a == i {
                                assert(old_s[a].peer != old_s[b].peer);
                            } else {
                                assert(old_s[a].peer != old_s[b].peer);
                            }
                        }
                    }
                    self.lemma_same_after_set(old_s, i as int, peer, sv);
                }
            },
            None => {
                self.sessions.push(session);
                proof {
                    let s = self.sessions@;
                    assert(peers_distinct(s)) by {
                        assert forall|a: int, b: int| 0 <= a < s.len() && 0 <= b < s.len() && a != b implies
                            (#[trigger] s[a]).peer != (#[trigger] s[b]).peer by {
                            if a < old_s.len() && b < old_s.len() {
                                assert(old_s[a].peer != old_s[b].peer);
                            } else if a < old_s.len() {
                                assert(old_s[a] == s[a]);
                            } else {
                                assert(old_s[b] == s[b]);
                            }
                        }
                    }
                    self.lemma_same_after_set(old_s, old_s.len() as int, peer, sv);
                }
            },
        }
    }

    proof fn lemma_same_after_set(&self, old_s: Seq<Session>, i: int, peer: PeerAddress, sv: SessionView)
        requires
            peers_distinct(old_s),
            peers_distinct(self.sessions@),
            0 <= i < self.sessions@.len(),
            self.sessions@.len() == old_s.len() || (self.sessions@.len() == old_s.len() + 1 && i == old_s.len()
                && !holds_peer(old_s, peer)),
            i < old_s.len() ==> old_s[i].peer == peer,
            self.sessions@[i].peer == peer,
            self.sessions@[i]@ == sv,
            forall|j: int| 0 <= j < old_s.len() && j != i ==> self.sessions@[j] == old_s[j],
        ensures
            self@ == session_map(old_s).insert(peer, sv),
    {
        let s = self.sessions@;
        lemma_map_at(s, i);
        assert forall|p: PeerAddress| #[trigger] self@.contains_key(p) <==> session_map(old_s).insert(peer, sv).contains_key(p) by {
            if p != peer {
                if holds_peer(s, p) {
                    let j = choose|j: int| 0 <= j < s.len() && (#[trigger] s[j]).peer == p;
                    assert(j != i);
                    assert(old_s[j].peer == p);
                }
                if holds_peer(old_s, p) {
                    let j = choose|j: int| 0 <= j < old_s.len() && (#[trigger] old_s[j]).peer == p;
                    assert(j != i);
                    assert(s[j].peer == p);
                }
            }
        }
        assert forall|p: PeerAddress| #[trigger] self@.contains_key(p) implies self@[p] == session_map(old_s).insert(peer, sv)[p] by {
            if p != peer {
                let j = choose|j: int| 0 <= j < s.len() && (#[trigger] s[j]).peer == p;
                assert(j != i);
                lemma_map_at(s, j);
                lemma_map_at(old_s, j);
            }
        }
        assert(self@ =~= session_map(old_s).insert(peer, sv));
    }

    /// Marks the peer's session as used at `now_ms`.
    pub fn touch(&mut self, peer: &PeerAddress, now_ms: u64)
        requires
            old(self).wf(),
            old(self)@.contains_key(*peer),
        ensures
            final(self).wf(),
            final(self)@ == old(self)@.insert(*peer, SessionView { last_used_ms: now_ms, ..old(self)@[*peer] }),
    {
        let ghost old_s = self.sessions@;
        match self.position(peer) {
            Some(i) => {
                proof {
                    lemma_map_at(old_s, i as int);
                }
                let mut s = self.sessions[i].clone();
                s.last_used_ms = now_ms;
                let ghost sv = s@;
                self.sessions.set(i, s);
                proof {
                    let t = self.sessions@;
                    assert(peers_distinct(t)) by {
                        assert forall|a: int, b: int| 0 <= a < t.len() && 0 <= b < t.len() && a != b implies
                            (#[trigger] t[a]).peer != (#[trigger] t[b]).peer by {
                            assert(old_s[a].peer != old_s[b].peer);
                        }
                    }
                    self.lemma_same_after_set(old_s, i as int, *peer, sv);
                    assert(sv == SessionView { last_used_ms: now_ms, ..session_map(old_s)[*peer] });
                }
            },
            None => {
                proof {
                    assert(false);
                }
            },
        }
    }

    /// Drops every session that has run out at `now_ms`.
    pub fn retain_live(&mut self, now_ms: u64)
        requires
            old(self).wf(),
        ensures
            final(self).wf(),
            final(self)@ == old(self)@.restrict(Set::new(|p: PeerAddress| old(self)@.contains_key(p)
                && !(now_ms > old(self)@[p].expires_at_ms))),
    {
        let ghost old_s = self.sessions@;
        let mut kept: Vec<Session> = Vec::new();
        let mut i: usize = 0;
        while i < self.sessions.len()
            invariant
                self.sessions@ == old_s,
                peers_distinct(old_s),
                i <= old_s.len(),
                peers_distinct(kept@),
                forall|a: int| #![trigger kept@[a]] 0 <= a < kept@.len() ==> exists|j: int| 0 <= j < i && same_session(#[trigger] old_s[j], kept@[a])
                    && !(now_ms > old_s[j].expires_at_ms),
                forall|j: int| 0 <= j < i && !(now_ms > old_s[j].expires_at_ms) ==> holds_peer(kept@, #[trigger] old_s[j].peer),
            decreases old_s.len() - i,
        {
            if !(now_ms > self.sessions[i].expires_at_ms) {
                let s = self.sessions[i].clone();
                proof {
                    assert forall|a: int| 0 <= a < kept@.len() implies kept@[a].peer != old_s[i as int].peer by {
                        let j = choose|j: int| 0 <= j < i && same_session(#[trigger] old_s[j], kept@[a])
                            && !(now_ms > old_s[j].expires_at_ms);
                        assert(old_s[j].peer != old_s[i as int].peer);
                    }
                }
                let ghost before = kept@;
                kept.push(s);
                proof {
                    let k = kept@;
                    assert(peers_distinct(k)) by {
                        assert forall|a: int, b: int| 0 <= a < k.len() && 0 <= b < k.len() && a != b implies
                            (#[trigger] k[a]).peer != (#[trigger] k[b]).peer by {
                            if a < before.len() && b < before.len() {
                                assert(before[a].peer != before[b].peer);
                            } else if a < before.len() {
                                assert(k[a] == before[a]);
                            } else {
                                assert(k[b] == before[b]);
                            }
                        }
                    }
                    assert forall|a: int| #![trigger k[a]] 0 <= a < k.len() implies exists|j: int| 0 <= j < i + 1 && same_session(#[trigger] old_s[j], k[a])
                        && !(now_ms > old_s[j].expires_at_ms) by {
                        if a < before.len() {
                            assert(k[a] == before[a]);
                        } else {
                            assert(same_session(old_s[i as int], k[a]));
                        }
                    }
                    assert forall|j: int| 0 <= j < i + 1 && !(now_ms > old_s[j].expires_at_ms) implies
                        holds_peer(k, #[trigger] old_s[j].peer) by {
                        if j < i {
                            let a = choose|a: int| 0 <= a < before.len() && (#[trigger] before[a]).peer == old_s[j].peer;
                            assert(k[a] == before[a]);
                        } else {
                            assert(k[before.len() as int].peer == old_s[j].peer);
                        }
                    }
                }
            }
            i = i + 1;
        }
        self.sessions = kept;
        proof {
            let k = self.sessions@;
            let target = session_map(old_s).restrict(Set::new(|p: PeerAddress| session_map(old_s).contains_key(p)
                && !(now_ms > session_map(old_s)[p].expires_at_ms)));
            assert forall|p: PeerAddress| #[trigger] self@.contains_key(p) <==> target.contains_key(p) by {
                if holds_peer(k, p) {
                    let a = choose|a: int| 0 <= a < k.len() && (#[trigger] k[a]).peer == p;
                    let j = choose|j: int| 0 <= j < old_s.len() && same_session(#[trigger] old_s[j], k[a])
                        && !(now_ms > old_s[j].expires_at_ms);
                    lemma_map_at(old_s, j);
                }
                if target.contains_key(p) {
                    let j = choose|j: int| 0 <= j < old_s.len() && (#[trigger] old_s[j]).peer == p;
                    lemma_map_at(old_s, j);
                }
            }
            assert forall|p: PeerAddress| #[trigger] self@.contains_key(p) implies self@[p] == target[p] by {
                let a = choose|a: int| 0 <= a < k.len() && (#[trigger] k[a]).peer == p;
                let j = choose|j: int| 0 <= j < old_s.len() && same_session(#[trigger] old_s[j], k[a])
                    && !(now_ms > old_s[j].expires_at_ms);
                lemma_map_at(old_s, j);
                lemma_map_at(k, a);
            }
            assert(self@ =~= target);
        }
    }
}

} // verus!
