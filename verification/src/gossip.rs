//! The push-pull gossip protocol's state and decisions: the peer table, the
//! messages of each round, the handling of incoming messages, and the
//! periodic status check. Timers, locks and sockets are the caller's.

use vstd::prelude::*;
use std::time::Duration;
use crate::clock::{duration_from_secs, secs_duration};
use crate::peer_addr::PeerAddress;
use crate::security::{bytes_hash, hash_bytes, le_bytes, u64_le_bytes};

verus! {

/// `fastrand::usize(0..n)`: a random index below `n`. Its value is left
/// open.
#[verifier::external_body]
pub fn random_index(n: usize) -> (res: usize)
    requires
        n > 0,
    ensures
        res < n,
{
    fastrand::usize(0..n)
}

/// Health of a peer as gossip reports it.
#[derive(Debug, Clone, Copy, PartialEq, Eq, Hash, Structural)]
pub enum PeerStatus {
    Healthy,
    Suspected,
    Down,
    Unknown,
}

/// What gossip tells of a peer.
#[derive(Debug)]
pub struct GossipPeerInfo {
    pub peer_id: u128,
    pub addresses: Vec<PeerAddress>,
    pub services: Vec<String>,
    pub protocol_version: u32,
    pub region: Option<String>,
    pub status: PeerStatus,
    pub hop_count: u8,
    pub last_updated: u64,
}

/// Two infos hold the same values.
pub open spec fn info_same(a: GossipPeerInfo, b: GossipPeerInfo) -> bool {
    &&& a.peer_id == b.peer_id
    &&& a.addresses@ == b.addresses@
    &&& a.services@ == b.services@
    &&& a.protocol_version == b.protocol_version
    &&& a.region == b.region
    &&& a.status == b.status
    &&& a.hop_count == b.hop_count
    &&& a.last_updated == b.last_updated
}

/// Two lists of infos hold the same values.
pub open spec fn infos_same(a: Seq<GossipPeerInfo>, b: Seq<GossipPeerInfo>) -> bool {
    a.len() == b.len() && forall|k: int| 0 <= k < a.len() ==> info_same(#[trigger] a[k], b[k])
}

impl Clone for GossipPeerInfo {
    fn clone(&self) -> (res: Self)
        ensures
            info_same(res, *self),
    {
        let res = GossipPeerInfo {
            peer_id: self.peer_id,
            addresses: copy_addresses(&self.addresses),
            services: clone_strings(&self.services),
            protocol_version: self.protocol_version,
            region: match &self.region {
                Some(r) => Some(r.clone()),
                None => None,
            },
            status: self.status,
            hop_count: self.hop_count,
            last_updated: self.last_updated,
        };
        assert(res.addresses@ =~= self.addresses@);
        res
    }
}

/// Our peers, for others to learn.
#[derive(Debug, Clone)]
pub struct GossipPush {
    pub sender_id: u128,
    pub peers: Vec<GossipPeerInfo>,
    pub timestamp: u64,
    pub state_digest: u64,
}

/// A request for peers we do not know, optionally offering some service.
#[derive(Debug, Clone)]
pub struct GossipPull {
    pub requester_id: u128,
    pub service_filter: Option<Vec<String>>,
    pub max_peers: usize,
    pub known_peers: Vec<u128>,
}

/// A push and a pull in one message.
#[derive(Debug, Clone)]
pub struct GossipPushPull {
    pub push: GossipPush,
    pub pull: GossipPull,
}

/// A sign of life.
#[derive(Debug, Clone, Copy)]
pub struct GossipHeartbeat {
    pub node_id: u128,
    pub timestamp: u64,
}

/// A versioned piece of shared state with the hash of its data.
#[derive(Debug, Clone)]
pub struct GossipStateSync {
    pub key: String,
    pub version: u64,
    pub data: Vec<u8>,
    pub hash: [u8; 32],
}

/// The messages of the protocol.
#[derive(Debug, Clone)]
pub enum GossipMessage {
    Push(GossipPush),
    Pull(GossipPull),
    PushPull(GossipPushPull),
    Heartbeat(GossipHeartbeat),
    StateSync(GossipStateSync),
}

/// Tuning of the protocol.
#[derive(Debug, Clone, Copy)]
pub struct GossipConfig {
    pub fanout: usize,
    pub gossip_interval: Duration,
    pub heartbeat_interval: Duration,
    pub max_hops: u8,
    pub suspicion_timeout: Duration,
    pub down_timeout: Duration,
    pub use_push_pull: bool,
    pub max_peers: usize,
}

impl Default for GossipConfig {
    fn default() -> (res: Self)
        ensures
            res.fanout == 3,
            res.gossip_interval == secs_duration(1),
            res.heartbeat_interval == secs_duration(5),
            res.max_hops == 4,
            res.suspicion_timeout == secs_duration(15),
            res.down_timeout == secs_duration(60),
            res.use_push_pull,
            res.max_peers == 1000,
    {
        GossipConfig {
            fanout: 3,
            gossip_interval: duration_from_secs(1),
            heartbeat_interval: duration_from_secs(5),
            max_hops: 4,
            suspicion_timeout: duration_from_secs(15),
            down_timeout: duration_from_secs(60),
            use_push_pull: true,
            max_peers: 1000,
        }
    }
}

/// Counters of the protocol.
#[derive(Debug, Clone, Copy)]
pub struct GossipStats {
    pub messages_sent: u64,
    pub messages_received: u64,
    pub peers_discovered: u64,
    pub peers_marked_down: u64,
    pub rounds_completed: u64,
    pub state_syncs: u64,
}

impl Default for GossipStats {
    fn default() -> (res: Self)
        ensures
            res == zero_stats(),
    {
        GossipStats {
            messages_sent: 0,
            messages_received: 0,
            peers_discovered: 0,
            peers_marked_down: 0,
            rounds_completed: 0,
            state_syncs: 0,
        }
    }
}

/// A tracked peer: what we know of it, when we last heard from it (in
/// milliseconds of the caller's clock), and failed attempts.
#[derive(Debug, Clone)]
pub struct GossipPeerEntry {
    pub info: GossipPeerInfo,
    pub last_received_ms: u64,
    pub failed_attempts: u32,
}

/// All counters at zero.
pub open spec fn zero_stats() -> GossipStats {
    GossipStats {
        messages_sent: 0,
        messages_received: 0,
        peers_discovered: 0,
        peers_marked_down: 0,
        rounds_completed: 0,
        state_syncs: 0,
    }
}

/// The counters with one more peer discovered.
pub open spec fn one_more_discovered(s: GossipStats) -> GossipStats {
    GossipStats { peers_discovered: inc(s.peers_discovered), ..s }
}

/// A newly heard-of entry.
pub open spec fn fresh_entry(info: GossipPeerInfo, now_ms: u64) -> GossipPeerEntry {
    GossipPeerEntry { info, last_received_ms: now_ms, failed_attempts: 0 }
}

/// Whether an entry is live: healthy or suspected.
pub open spec fn live_entry(e: GossipPeerEntry) -> bool {
    e.info.status == PeerStatus::Healthy || e.info.status == PeerStatus::Suspected
}

/// The number of live entries.
pub open spec fn live_count(peers: Seq<GossipPeerEntry>) -> nat
    decreases peers.len(),
{
    if peers.len() == 0 {
        0
    } else {
        live_count(peers.drop_last()) + if live_entry(peers.last()) { 1nat } else { 0nat }
    }
}

/// `picked` draws `min(fanout, live entries)` distinct live entries.
pub open spec fn fair_pick(peers: Seq<GossipPeerEntry>, fanout: usize, picked: Seq<int>) -> bool {
    &&& picked.len() == if fanout < live_count(peers) { fanout as nat } else { live_count(peers) }
    &&& forall|k: int| 0 <= k < picked.len() ==> 0 <= #[trigger] picked[k] < peers.len() && live_entry(peers[picked[k]])
    &&& forall|a: int, b: int| 0 <= a < b < picked.len() ==> picked[a] != picked[b]
}

/// The first address and id of each picked entry that has an address, in
/// the order picked.
pub open spec fn targets_of(peers: Seq<GossipPeerEntry>, picked: Seq<int>) -> Seq<(PeerAddress, u128)>
    decreases picked.len(),
{
    if picked.len() == 0 {
        Seq::empty()
    } else {
        let prev = targets_of(peers, picked.drop_last());
        let e = peers[picked.last()];
        if e.info.addresses@.len() > 0 { prev.push((e.info.addresses@[0], e.info.peer_id)) } else { prev }
    }
}

/// The entry at `i` is live, has an address, and `t` is its first address
/// and its id.
pub open spec fn target_at(peers: Seq<GossipPeerEntry>, i: int, t: (PeerAddress, u128)) -> bool {
    &&& 0 <= i < peers.len()
    &&& peers[i].info.peer_id == t.1
    &&& (peers[i].info.status == PeerStatus::Healthy || peers[i].info.status == PeerStatus::Suspected)
    &&& peers[i].info.addresses@.len() > 0
    &&& peers[i].info.addresses@[0] == t.0
}

/// `t` is the first address and id of some live entry.
pub open spec fn is_target(peers: Seq<GossipPeerEntry>, t: (PeerAddress, u128)) -> bool {
    exists|i: int| #[trigger] target_at(peers, i, t)
}

/// The entry at `i` is live and `a` is its first address.
pub open spec fn address_at(peers: Seq<GossipPeerEntry>, i: int, a: PeerAddress) -> bool {
    &&& 0 <= i < peers.len()
    &&& (peers[i].info.status == PeerStatus::Healthy || peers[i].info.status == PeerStatus::Suspected)
    &&& peers[i].info.addresses@.len() > 0
    &&& peers[i].info.addresses@[0] == a
}

/// `a` is the first address of some live entry.
pub open spec fn is_target_address(peers: Seq<GossipPeerEntry>, a: PeerAddress) -> bool {
    exists|i: int| #[trigger] address_at(peers, i, a)
}

/// A counter one up, staying at the top of its range.
pub open spec fn inc(x: u64) -> u64 {
    if x == u64::MAX { x } else { (x + 1) as u64 }
}

/// A counter up by `n`, staying at the top of its range.
pub open spec fn add_sat(x: u64, n: u64) -> u64 {
    if x + n > u64::MAX { u64::MAX } else { (x + n) as u64 }
}

/// The ids of the entries.
pub open spec fn entry_ids(s: Seq<GossipPeerEntry>) -> Seq<u128> {
    Seq::new(s.len(), |i: int| s[i].info.peer_id)
}

/// No peer is tracked twice.
pub open spec fn ids_distinct(s: Seq<GossipPeerEntry>) -> bool {
    forall|i: int, j: int| 0 <= i < j < s.len() ==> s[i].info.peer_id != s[j].info.peer_id
}

/// The infos of the healthy entries, in table order.
pub open spec fn healthy_infos(s: Seq<GossipPeerEntry>) -> Seq<GossipPeerInfo>
    decreases s.len(),
{
    if s.len() == 0 {
        Seq::empty()
    } else if s.last().info.status == PeerStatus::Healthy {
        healthy_infos(s.drop_last()).push(s.last().info)
    } else {
        healthy_infos(s.drop_last())
    }
}

/// The infos of the entries offering a service, in table order.
pub open spec fn service_infos(s: Seq<GossipPeerEntry>, service: Seq<char>) -> Seq<GossipPeerInfo>
    decreases s.len(),
{
    if s.len() == 0 {
        Seq::empty()
    } else if exists|k: int| 0 <= k < s.last().info.services@.len() && #[trigger] s.last().info.services@[k]@ == service {
        service_infos(s.drop_last(), service).push(s.last().info)
    } else {
        service_infos(s.drop_last(), service)
    }
}

/// The infos that may travel one more hop, their hop count raised.
pub open spec fn forwardable(s: Seq<GossipPeerEntry>, max_hops: u8) -> Seq<GossipPeerInfo>
    decreases s.len(),
{
    if s.len() == 0 {
        Seq::empty()
    } else if s.last().info.hop_count < max_hops {
        forwardable(s.drop_last(), max_hops).push(
            GossipPeerInfo { hop_count: (s.last().info.hop_count + 1) as u8, ..s.last().info })
    } else {
        forwardable(s.drop_last(), max_hops)
    }
}

/// The status a peer gets from the time since we last heard from it.
pub open spec fn status_for(elapsed_ms: u64, suspicion_ms: u64, down_ms: u64) -> PeerStatus {
    if elapsed_ms < suspicion_ms {
        PeerStatus::Healthy
    } else if elapsed_ms < down_ms {
        PeerStatus::Suspected
    } else {
        PeerStatus::Down
    }
}

/// The time since an entry was last heard from, zero where the clock is
/// behind it.
pub open spec fn elapsed(now_ms: u64, last_ms: u64) -> u64 {
    if now_ms >= last_ms { (now_ms - last_ms) as u64 } else { 0 }
}

/// One pushed peer applied to the table and the count of discovered
/// peers: our own id is skipped; a known peer is replaced by newer news of
/// it; an unknown peer is added while the table has room.
pub open spec fn push_step(
    state: (Seq<GossipPeerEntry>, u64),
    info: GossipPeerInfo,
    node_id: u128,
    max_peers: usize,
    now_ms: u64,
) -> (Seq<GossipPeerEntry>, u64) {
    let (p, d) = state;
    if info.peer_id == node_id {
        (p, d)
    } else if entry_ids(p).contains(info.peer_id) {
        let i = entry_ids(p).index_of(info.peer_id);
        if info.last_updated > p[i].info.last_updated {
            (p.update(i, GossipPeerEntry { info, last_received_ms: now_ms, failed_attempts: p[i].failed_attempts }), d)
        } else {
            (p, d)
        }
    } else if p.len() < max_peers {
        (p.push(fresh_entry(info, now_ms)), inc(d))
    } else {
        (p, d)
    }
}

/// The pushed peers applied in order.
pub open spec fn apply_push(
    state: (Seq<GossipPeerEntry>, u64),
    infos: Seq<GossipPeerInfo>,
    node_id: u128,
    max_peers: usize,
    now_ms: u64,
) -> (Seq<GossipPeerEntry>, u64)
    decreases infos.len(),
{
    if infos.len() == 0 {
        state
    } else {
        apply_push(push_step(state, infos[0], node_id, max_peers, now_ms), infos.skip(1), node_id, max_peers, now_ms)
    }
}

/// Whether a peer offers one of the services of a filter.
pub open spec fn shares_service(services: Seq<String>, filter: Seq<String>) -> bool {
    exists|k: int, j: int| 0 <= k < services.len() && 0 <= j < filter.len() && #[trigger] services[k]@ == #[trigger] filter[j]@
}

/// Whether a pull asks for a peer.
pub open spec fn pull_wants(pull: GossipPull, info: GossipPeerInfo) -> bool {
    &&& !pull.known_peers@.contains(info.peer_id)
    &&& match pull.service_filter {
        Some(f) => shares_service(info.services@, f@),
        None => true,
    }
}

/// The peers a pull asks for, in table order, their hop count raised
/// (wrapping at the top of its range).
pub open spec fn pull_candidates(s: Seq<GossipPeerEntry>, pull: GossipPull) -> Seq<GossipPeerInfo>
    decreases s.len(),
{
    if s.len() == 0 {
        Seq::empty()
    } else if pull_wants(pull, s.last().info) {
        pull_candidates(s.drop_last(), pull).push(GossipPeerInfo {
            hop_count: if s.last().info.hop_count == 255 { 0 } else { (s.last().info.hop_count + 1) as u8 },
            ..s.last().info
        })
    } else {
        pull_candidates(s.drop_last(), pull)
    }
}

/// The version recorded for a state key, zero where none is.
pub open spec fn version_of(vs: Seq<(Seq<char>, u64)>, key: Seq<char>) -> u64
    decreases vs.len(),
{
    if vs.len() == 0 {
        0
    } else if vs.last().0 == key {
        vs.last().1
    } else {
        version_of(vs.drop_last(), key)
    }
}

/// An entry just heard from: healthy and stamped with the time.
pub open spec fn heard_from(e: GossipPeerEntry, now_ms: u64) -> GossipPeerEntry {
    GossipPeerEntry {
        info: GossipPeerInfo { status: PeerStatus::Healthy, ..e.info },
        last_received_ms: now_ms,
        ..e
    }
}

/// The answer to a pull: the candidates it asks for, at most its limit,
/// in table order.
pub open spec fn pull_answer(peers: Seq<GossipPeerEntry>, pull: GossipPull, r: GossipPush) -> bool {
    let c = pull_candidates(peers, pull);
    &&& r.state_digest == 0
    &&& r.peers@.len() == if c.len() < pull.max_peers { c.len() } else { pull.max_peers as nat }
    &&& forall|k: int| 0 <= k < r.peers@.len() ==> info_same(#[trigger] r.peers@[k], c[k])
}

/// An entry with the status its silence earns.
pub open spec fn restatus(e: GossipPeerEntry, now_ms: u64, suspicion_ms: u64, down_ms: u64) -> GossipPeerEntry {
    GossipPeerEntry {
        info: GossipPeerInfo { status: status_for(elapsed(now_ms, e.last_received_ms), suspicion_ms, down_ms), ..e.info },
        ..e
    }
}

/// Whether an entry stays in the table: all but those down for three
/// times the down timeout or longer.
pub open spec fn stays(e: GossipPeerEntry, now_ms: u64, down_ms: u64) -> bool {
    !(e.info.status == PeerStatus::Down && elapsed(now_ms, e.last_received_ms) >= 3 * down_ms)
}

/// The table after a status check, in table order.
pub open spec fn checked_table(s: Seq<GossipPeerEntry>, now_ms: u64, suspicion_ms: u64, down_ms: u64) -> Seq<GossipPeerEntry>
    decreases s.len(),
{
    if s.len() == 0 {
        Seq::empty()
    } else {
        let r = restatus(s[0], now_ms, suspicion_ms, down_ms);
        (if stays(r, now_ms, down_ms) { seq![r] } else { Seq::empty() })
            + checked_table(s.skip(1), now_ms, suspicion_ms, down_ms)
    }
}

/// How many entries a status check finds down.
pub open spec fn down_count(s: Seq<GossipPeerEntry>, now_ms: u64, suspicion_ms: u64, down_ms: u64) -> nat
    decreases s.len(),
{
    if s.len() == 0 {
        0
    } else {
        (if status_for(elapsed(now_ms, s[0].last_received_ms), suspicion_ms, down_ms) == PeerStatus::Down { 1nat } else { 0nat })
            + down_count(s.skip(1), now_ms, suspicion_ms, down_ms)
    }
}

/// The first addresses of the entries that have one, in table order.
pub open spec fn first_addresses(s: Seq<GossipPeerEntry>) -> Seq<PeerAddress>
    decreases s.len(),
{
    if s.len() == 0 {
        Seq::empty()
    } else if s.last().info.addresses@.len() > 0 {
        first_addresses(s.drop_last()).push(s.last().info.addresses@[0])
    } else {
        first_addresses(s.drop_last())
    }
}

/// The state of one node's gossip: the peer table, the counters and the
/// versions of the shared state.
pub struct GossipState {
    node_id: u128,
    config: GossipConfig,
    peers: Vec<GossipPeerEntry>,
    stats: GossipStats,
    state_versions: Vec<(String, u64)>,
}

impl GossipState {
    pub closed spec fn spec_node_id(&self) -> u128 {
        self.node_id
    }

    pub closed spec fn spec_config(&self) -> GossipConfig {
        self.config
    }

    /// The tracked peers in table order.
    pub closed spec fn spec_peers(&self) -> Seq<GossipPeerEntry> {
        self.peers@
    }

    pub closed spec fn spec_stats(&self) -> GossipStats {
        self.stats
    }

    /// The version recorded for each state key.
    pub closed spec fn spec_versions(&self) -> Seq<(Seq<char>, u64)> {
        Seq::new(self.state_versions@.len(), |i: int| (self.state_versions@[i].0@, self.state_versions@[i].1))
    }

    /// No peer twice, and no state key twice.
    pub closed spec fn wf(&self) -> bool {
        &&& ids_distinct(self.peers@)
        &&& forall|i: int, j: int| 0 <= i < j < self.state_versions@.len()
                ==> self.state_versions@[i].0@ != self.state_versions@[j].0@
    }

    /// No peers, zeroed counters, no state.
    pub fn new(node_id: u128, config: GossipConfig) -> (res: Self)
        ensures
            res.wf(),
            res.spec_node_id() == node_id,
            res.spec_config() == config,
            res.spec_peers().len() == 0,
            res.spec_stats() == zero_stats(),
            res.spec_versions().len() == 0,
    {
        GossipState { node_id, config, peers: Vec::new(), stats: GossipStats::default(), state_versions: Vec::new() }
    }

    pub fn node_id(&self) -> (res: u128)
        ensures
            res == self.spec_node_id(),
    {
        self.node_id
    }

    pub fn config(&self) -> (res: GossipConfig)
        ensures
            res == self.spec_config(),
    {
        self.config
    }

    /// The counters.
    pub fn get_stats(&self) -> (res: GossipStats)
        ensures
            res == self.spec_stats(),
    {
        self.stats
    }

    /// The number of tracked peers.
    pub fn peer_count(&self) -> (res: usize)
        ensures
            res == self.spec_peers().len(),
    {
        self.peers.len()
    }

    /// The position of a peer in the table.
    fn find_peer(&self, peer_id: u128) -> (res: Option<usize>)
        ensures
            match res {
                Some(i) => i < self.peers@.len() && self.peers@[i as int].info.peer_id == peer_id,
                None => !entry_ids(self.peers@).contains(peer_id),
            },
    {
        let mut i: usize = 0;
        while i < self.peers.len()
            invariant
                i <= self.peers@.len(),
                forall|k: int| 0 <= k < i ==> self.peers@[k].info.peer_id != peer_id,
            decreases self.peers@.len() - i,
        {
            if self.peers[i].info.peer_id == peer_id {
                return Some(i);
            }
            i = i + 1;
        }
        proof {
            if entry_ids(self.peers@).contains(peer_id) {
                let k = choose|k: int| 0 <= k < entry_ids(self.peers@).len() && entry_ids(self.peers@)[k] == peer_id;
                assert(self.peers@[k].info.peer_id == peer_id);
            }
        }
        None
    }

    /// Tracks a peer, replacing what was known of it, unless the table is
    /// full and the peer is new; a tracked peer counts as discovered.
    pub fn add_peer(&mut self, info: GossipPeerInfo, now_ms: u64)
        requires
            old(self).wf(),
        ensures
            final(self).wf(),
            final(self).spec_node_id() == old(self).spec_node_id(),
            final(self).spec_config() == old(self).spec_config(),
            final(self).spec_versions() == old(self).spec_versions(),
            ({
                let before = old(self).spec_peers();
                let full = before.len() >= old(self).spec_config().max_peers && !entry_ids(before).contains(info.peer_id);
                &&& full ==> final(self).spec_peers() == before && final(self).spec_stats() == old(self).spec_stats()
                &&& !full ==> final(self).spec_stats() == one_more_discovered(old(self).spec_stats())
                &&& !full && entry_ids(before).contains(info.peer_id) ==>
                    exists|i: int| 0 <= i < before.len() && before[i].info.peer_id == info.peer_id
                        && final(self).spec_peers() == before.update(i, fresh_entry(info, now_ms))
                &&& !full && !entry_ids(before).contains(info.peer_id) ==>
                    final(self).spec_peers() == before.push(fresh_entry(info, now_ms))
            }),
    {
        let found = self.find_peer(info.peer_id);
        if self.peers.len() >= self.config.max_peers && found.is_none() {
            return;
        }
        let ghost before = self.peers@;
        let ghost info_g = info;
        let id = info.peer_id;
        let entry = GossipPeerEntry { info, last_received_ms: now_ms, failed_attempts: 0 };
        assert(entry == fresh_entry(info_g, now_ms));
        match found {
            Some(i) => {
                self.peers.set(i, entry);
                assert(self.peers@ == before.update(i as int, fresh_entry(info_g, now_ms)));
                assert(before[i as int].info.peer_id == info_g.peer_id);
                assert(entry_ids(before)[i as int] == info_g.peer_id);
                proof {
                    assert forall|a: int, b: int| 0 <= a < b < self.peers@.len()
                        implies self.peers@[a].info.peer_id != self.peers@[b].info.peer_id by {
                        assert(before[a].info.peer_id != before[b].info.peer_id);
                    }
                }
            },
            None => {
                self.peers.push(entry);
                proof {
                    assert forall|a: int, b: int| 0 <= a < b < self.peers@.len()
                        implies self.peers@[a].info.peer_id != self.peers@[b].info.peer_id by {
                        if b == before.len() {
                            assert(entry_ids(before)[a] == before[a].info.peer_id);
                        }
                    }
                }
            },
        }
        self.stats.peers_discovered = self.stats.peers_discovered.saturating_add(1);
    }

    /// Applies the peers of a push to the table, in order.
    pub fn handle_push(&mut self, push: GossipPush, now_ms: u64)
        requires
            old(self).wf(),
        ensures
            final(self).wf(),
            final(self).spec_node_id() == old(self).spec_node_id(),
            final(self).spec_config() == old(self).spec_config(),
            final(self).spec_versions() == old(self).spec_versions(),
            (final(self).spec_peers(), final(self).spec_stats().peers_discovered) == apply_push(
                (old(self).spec_peers(), old(self).spec_stats().peers_discovered),
                push.peers@, old(self).spec_node_id(), old(self).spec_config().max_peers, now_ms),
            final(self).spec_stats() == (GossipStats {
                peers_discovered: final(self).spec_stats().peers_discovered, ..old(self).spec_stats() }),
    {
        let mut infos = push.peers;
        let ghost target = apply_push((self.peers@, self.stats.peers_discovered), infos@, self.node_id,
            self.config.max_peers, now_ms);
        while infos.len() > 0
            invariant
                self.wf(),
                self.node_id == old(self).node_id,
                self.config == old(self).config,
                self.state_versions == old(self).state_versions,
                self.stats == (GossipStats { peers_discovered: self.stats.peers_discovered, ..old(self).stats }),
                apply_push((self.peers@, self.stats.peers_discovered), infos@, self.node_id, self.config.max_peers, now_ms)
                    == target,
            decreases infos@.len(),
        {
            let ghost rest = infos@;
            let info = infos.remove(0);
            assert(infos@ =~= rest.skip(1));
            self.apply_pushed_peer(info, now_ms);
        }
        assert(apply_push((self.peers@, self.stats.peers_discovered), infos@, self.node_id, self.config.max_peers, now_ms)
            == (self.peers@, self.stats.peers_discovered));
    }

    fn apply_pushed_peer(&mut self, info: GossipPeerInfo, now_ms: u64)
        requires
            old(self).wf(),
        ensures
            final(self).wf(),
            final(self).node_id == old(self).node_id,
            final(self).config == old(self).config,
            final(self).state_versions == old(self).state_versions,
            final(self).stats == (GossipStats { peers_discovered: final(self).stats.peers_discovered, ..old(self).stats }),
            (final(self).peers@, final(self).stats.peers_discovered) == push_step(
                (old(self).peers@, old(self).stats.peers_discovered), info, old(self).node_id, old(self).config.max_peers, now_ms),
    {
        let ghost info_g = info;
        if info.peer_id == self.node_id {
            return;
        }
        let ghost before = self.peers@;
        match self.find_peer(info.peer_id) {
            Some(i) => {
                proof {
                    assert(entry_ids(before)[i as int] == info_g.peer_id);
                    assert(entry_ids(before).contains(info_g.peer_id));
                    let j = entry_ids(before).index_of(info_g.peer_id);
                    assert(entry_ids(before)[j] == info_g.peer_id);
                    if j != i as int {
                        assert(before[j].info.peer_id == before[i as int].info.peer_id);
                    }
                }
                if info.last_updated > self.peers[i].info.last_updated {
                    let fa = self.peers[i].failed_attempts;
                    self.peers.set(i, GossipPeerEntry { info, last_received_ms: now_ms, failed_attempts: fa });
                    proof {
                        assert forall|a: int, b: int| 0 <= a < b < self.peers@.len()
                            implies self.peers@[a].info.peer_id != self.peers@[b].info.peer_id by {
                            assert(before[a].info.peer_id != before[b].info.peer_id);
                        }
                    }
                }
            },
            None => {
                if self.peers.len() < self.config.max_peers {
                    self.peers.push(GossipPeerEntry { info, last_received_ms: now_ms, failed_attempts: 0 });
                    self.stats.peers_discovered = self.stats.peers_discovered.saturating_add(1);
                    proof {
                        assert forall|a: int, b: int| 0 <= a < b < self.peers@.len()
                            implies self.peers@[a].info.peer_id != self.peers@[b].info.peer_id by {
                            if b == before.len() {
                                assert(entry_ids(before)[a] == before[a].info.peer_id);
                            }
                        }
                    }
                }
            },
        }
    }

    /// The peers a pull asks for, at most its limit, in table order, with
    /// their hop count raised.
    pub fn handle_pull(&self, pull: &GossipPull, timestamp: u64) -> (res: GossipPush)
        ensures
            res.sender_id == self.spec_node_id(),
            res.timestamp == timestamp,
            res.state_digest == 0,
            ({
                let c = pull_candidates(self.spec_peers(), *pull);
                &&& res.peers@.len() == if c.len() < pull.max_peers { c.len() } else { pull.max_peers as nat }
                &&& forall|k: int| 0 <= k < res.peers@.len() ==> info_same(#[trigger] res.peers@[k], c[k])
            }),
    {
        let mut out: Vec<GossipPeerInfo> = Vec::new();
        let mut i: usize = 0;
        while i < self.peers.len()
            invariant
                i <= self.peers@.len(),
                ({
                    let c = pull_candidates(self.peers@.subrange(0, i as int), *pull);
                    &&& out@.len() == if c.len() < pull.max_peers { c.len() } else { pull.max_peers as nat }
                    &&& forall|k: int| 0 <= k < out@.len() ==> info_same(#[trigger] out@[k], c[k])
                }),
            decreases self.peers@.len() - i,
        {
            assert(self.peers@.subrange(0, i + 1).drop_last() =~= self.peers@.subrange(0, i as int));
            let info = &self.peers[i].info;
            if wanted_by(pull, info) && out.len() < pull.max_peers {
                let mut copy = info.clone();
                copy.hop_count = copy.hop_count.wrapping_add(1);
                out.push(copy);
            }
            i = i + 1;
        }
        assert(self.peers@.subrange(0, self.peers@.len() as int) =~= self.peers@);
        GossipPush { sender_id: self.node_id, peers: out, timestamp, state_digest: 0 }
    }

    /// Marks a known peer healthy and heard from now; tells whether the
    /// peer is known.
    pub fn handle_heartbeat(&mut self, node_id: u128, now_ms: u64) -> (res: bool)
        requires
            old(self).wf(),
        ensures
            final(self).wf(),
            final(self).spec_node_id() == old(self).spec_node_id(),
            final(self).spec_config() == old(self).spec_config(),
            final(self).spec_stats() == old(self).spec_stats(),
            final(self).spec_versions() == old(self).spec_versions(),
            res == entry_ids(old(self).spec_peers()).contains(node_id),
            !res ==> final(self).spec_peers() == old(self).spec_peers(),
            res ==> exists|i: int| 0 <= i < old(self).spec_peers().len()
                && old(self).spec_peers()[i].info.peer_id == node_id
                && final(self).spec_peers() == old(self).spec_peers().update(i, #[trigger] heard_from(old(self).spec_peers()[i], now_ms)),
    {
        match self.find_peer(node_id) {
            Some(i) => {
                let ghost before = self.peers@;
                let mut entry = self.peers.remove(i);
                entry.last_received_ms = now_ms;
                entry.info.status = PeerStatus::Healthy;
                self.peers.insert(i, entry);
                proof {
                    assert(self.peers@ =~= before.update(i as int, heard_from(before[i as int], now_ms)));
                    assert(entry_ids(before)[i as int] == node_id);
                    assert forall|a: int, b: int| 0 <= a < b < self.peers@.len()
                        implies self.peers@[a].info.peer_id != self.peers@[b].info.peer_id by {
                        assert(before[a].info.peer_id != before[b].info.peer_id);
                    }
                }
                true
            },
            None => false,
        }
    }

    /// The position of a state key among the versions.
    fn find_key(&self, key: &str) -> (res: Option<usize>)
        ensures
            match res {
                Some(i) => i < self.state_versions@.len() && self.state_versions@[i as int].0@ == key@,
                None => forall|k: int| 0 <= k < self.state_versions@.len() ==> self.state_versions@[k].0@ != key@,
            },
    {
        let mut i: usize = 0;
        while i < self.state_versions.len()
            invariant
                i <= self.state_versions@.len(),
                forall|k: int| 0 <= k < i ==> self.state_versions@[k].0@ != key@,
            decreases self.state_versions@.len() - i,
        {
            if crate::text::same_str(self.state_versions[i].0.as_str(), key) {
                return Some(i);
            }
            i = i + 1;
        }
        None
    }

    /// The version recorded for a state key, zero where none is.
    pub fn state_version(&self, key: &str) -> (res: u64)
        requires
            self.wf(),
        ensures
            res == version_of(self.spec_versions(), key@),
    {
        match self.find_key(key) {
            Some(i) => {
                proof {
                    lemma_version_at(self.spec_versions(), i as int, key@);
                }
                self.state_versions[i].1
            },
            None => {
                proof {
                    lemma_version_absent(self.spec_versions(), key@);
                }
                0
            },
        }
    }

    /// Records `version` for `key`.
    fn set_version(&mut self, key: &str, version: u64)
        requires
            old(self).wf(),
        ensures
            final(self).wf(),
            final(self).node_id == old(self).node_id,
            final(self).config == old(self).config,
            final(self).peers == old(self).peers,
            final(self).stats == old(self).stats,
            forall|k: Seq<char>| #[trigger] version_of(final(self).spec_versions(), k)
                == if k == key@ { version } else { version_of(old(self).spec_versions(), k) },
    {
        let ghost before = self.spec_versions();
        match self.find_key(key) {
            Some(i) => {
                let (name, _) = self.state_versions.remove(i);
                self.state_versions.insert(i, (name, version));
                proof {
                    assert(self.spec_versions() =~= before.update(i as int, (key@, version)));
                    assert forall|a: int, b: int| 0 <= a < b < before.len() implies before[a].0 != before[b].0 by {
                        assert(before[a].0 == old(self).state_versions@[a].0@);
                        assert(before[b].0 == old(self).state_versions@[b].0@);
                    }
                    lemma_version_update(before, i as int, key@, version);
                }
            },
            None => {
                self.state_versions.push((key.to_owned(), version));
                proof {
                    assert(self.spec_versions() =~= before.push((key@, version)));
                    assert forall|k: Seq<char>| #[trigger] version_of(self.spec_versions(), k)
                        == if k == key@ { version } else { version_of(before, k) } by {
                        assert(self.spec_versions().drop_last() =~= before);
                    }
                    assert forall|a: int, b: int| 0 <= a < b < self.state_versions@.len()
                        implies self.state_versions@[a].0@ != self.state_versions@[b].0@ by {
                    }
                }
            },
        }
    }

    /// Takes a piece of state whose hash checks out against its data and
    /// whose version is newer than the one recorded.
    pub fn handle_state_sync(&mut self, sync: &GossipStateSync)
        requires
            old(self).wf(),
        ensures
            final(self).wf(),
            final(self).spec_node_id() == old(self).spec_node_id(),
            final(self).spec_config() == old(self).spec_config(),
            final(self).spec_peers() == old(self).spec_peers(),
            final(self).spec_stats() == old(self).spec_stats(),
            forall|k: Seq<char>| #[trigger] version_of(final(self).spec_versions(), k)
                == if is_state_hash(sync.hash, sync.data@) && k == sync.key@
                    && sync.version > version_of(old(self).spec_versions(), k) {
                    sync.version
                } else {
                    version_of(old(self).spec_versions(), k)
                },
    {
        let data_hash = compute_hash(sync.data.as_slice());
        proof {
            lemma_state_hash_unique(data_hash, sync.hash, sync.data@);
        }
        if !same_hash(&data_hash, &sync.hash) {
            return;
        }
        let current = self.state_version(sync.key.as_str());
        if sync.version > current {
            self.set_version(sync.key.as_str(), sync.version);
        }
    }

    /// Starts a new version of a piece of state and addresses it, with the
    /// hash of its data, to the first address of every peer that has one.
    pub fn broadcast_state(&mut self, key: String, data: Vec<u8>) -> (res: Vec<(PeerAddress, GossipStateSync)>)
        requires
            old(self).wf(),
        ensures
            final(self).wf(),
            final(self).spec_node_id() == old(self).spec_node_id(),
            final(self).spec_config() == old(self).spec_config(),
            final(self).spec_peers() == old(self).spec_peers(),
            final(self).spec_stats() == (GossipStats {
                state_syncs: inc(old(self).spec_stats().state_syncs), ..old(self).spec_stats() }),
            forall|k: Seq<char>| #[trigger] version_of(final(self).spec_versions(), k)
                == if k == key@ { inc(version_of(old(self).spec_versions(), k)) } else { version_of(old(self).spec_versions(), k) },
            res@.len() == first_addresses(old(self).spec_peers()).len(),
            forall|i: int| 0 <= i < res@.len() ==> {
                &&& (#[trigger] res@[i]).0 == first_addresses(old(self).spec_peers())[i]
                &&& res@[i].1.key@ == key@
                &&& res@[i].1.version == inc(version_of(old(self).spec_versions(), key@))
                &&& res@[i].1.data@ == data@
                &&& is_state_hash(res@[i].1.hash, data@)
            },
    {
        let data_hash = compute_hash(data.as_slice());
        let current = self.state_version(key.as_str());
        let version = current.saturating_add(1);
        self.set_version(key.as_str(), version);
        assert(version == inc(version_of(old(self).spec_versions(), key@)));
        let ghost after = *self;
        let mut out: Vec<(PeerAddress, GossipStateSync)> = Vec::new();
        let mut i: usize = 0;
        while i < self.peers.len()
            invariant
                i <= self.peers@.len(),
                *self == after,
                self.peers@ == old(self).peers@,
                is_state_hash(data_hash, data@),
                out@.len() == first_addresses(self.peers@.subrange(0, i as int)).len(),
                forall|j: int| 0 <= j < out@.len() ==> {
                    &&& (#[trigger] out@[j]).0 == first_addresses(self.peers@.subrange(0, i as int))[j]
                    &&& out@[j].1.key@ == key@
                    &&& out@[j].1.version == version
                    &&& out@[j].1.data@ == data@
                    &&& is_state_hash(out@[j].1.hash, data@)
                },
            decreases self.peers@.len() - i,
        {
            assert(self.peers@.subrange(0, i + 1).drop_last() =~= self.peers@.subrange(0, i as int));
            if self.peers[i].info.addresses.len() > 0 {
                let sync = GossipStateSync {
                    key: key.clone(),
                    version,
                    data: crate::program_types::bytes_to_vec(data.as_slice()),
                    hash: data_hash,
                };
                out.push((self.peers[i].info.addresses[0], sync));
            }
            i = i + 1;
        }
        assert(self.peers@.subrange(0, self.peers@.len() as int) =~= self.peers@);
        self.stats.state_syncs = self.stats.state_syncs.saturating_add(1);
        assert(self.spec_versions() == after.spec_versions());
        assert forall|k: Seq<char>| #[trigger] version_of(self.spec_versions(), k)
            == if k == key@ { inc(version_of(old(self).spec_versions(), k)) } else { version_of(old(self).spec_versions(), k) } by {
            assert(version_of(after.spec_versions(), k) == if k == key@ { version } else { version_of(old(self).spec_versions(), k) });
        }
        out
    }

    /// The messages of one gossip round: to each selected target, our
    /// forwardable peers as a push (with a pull of up to 10 peers we do not
    /// know, where push-pull is on). An empty selection sends nothing and
    /// completes no round.
    pub fn plan_gossip_round(&mut self, timestamp: u64) -> (res: Vec<(PeerAddress, GossipMessage)>)
        requires
            old(self).wf(),
        ensures
            final(self).wf(),
            final(self).spec_node_id() == old(self).spec_node_id(),
            final(self).spec_config() == old(self).spec_config(),
            final(self).spec_peers() == old(self).spec_peers(),
            final(self).spec_versions() == old(self).spec_versions(),
            exists|picked: Seq<int>| fair_pick(old(self).spec_peers(), old(self).spec_config().fanout, picked)
                && res@.len() == (#[trigger] targets_of(old(self).spec_peers(), picked)).len()
                && forall|k: int| 0 <= k < res@.len() ==> (#[trigger] res@[k]).0 == targets_of(old(self).spec_peers(), picked)[k].0,
            res@.len() <= old(self).spec_config().fanout,
            forall|k: int| 0 <= k < res@.len() ==> is_target_address(old(self).spec_peers(), #[trigger] res@[k].0),
            forall|k: int| 0 <= k < res@.len() ==> round_message(*old(self), #[trigger] res@[k].1, timestamp),
            res@.len() == 0 ==> final(self).spec_stats() == old(self).spec_stats(),
            res@.len() > 0 ==> final(self).spec_stats() == (GossipStats {
                rounds_completed: inc(old(self).spec_stats().rounds_completed),
                messages_sent: add_sat(old(self).spec_stats().messages_sent, res@.len() as u64),
                ..old(self).spec_stats()
            }),
    {
        let targets = self.select_gossip_targets(self.config.fanout);
        let ghost picked = choose|picked: Seq<int>| fair_pick(self.spec_peers(), self.config.fanout, picked)
            && targets@ == #[trigger] targets_of(self.spec_peers(), picked);
        let mut out: Vec<(PeerAddress, GossipMessage)> = Vec::new();
        if targets.len() == 0 {
            proof {
                assert(targets_of(self.spec_peers(), picked).len() == 0);
            }
            return out;
        }
        let our_peers = self.build_peer_list(self.config.max_hops);
        let mut known: Vec<u128> = Vec::new();
        let mut j: usize = 0;
        while j < self.peers.len()
            invariant
                j <= self.peers@.len(),
                known@ == entry_ids(self.peers@).subrange(0, j as int),
            decreases self.peers@.len() - j,
        {
            known.push(self.peers[j].info.peer_id);
            j = j + 1;
        }
        assert(entry_ids(self.peers@).subrange(0, self.peers@.len() as int) =~= entry_ids(self.peers@));
        let mut t: usize = 0;
        while t < targets.len()
            invariant
                t <= targets@.len(),
                targets@.len() <= self.config.fanout,
                forall|k: int| 0 <= k < targets@.len() ==> is_target(self.peers@, #[trigger] targets@[k]),
                infos_same(our_peers@, forwardable(self.peers@, self.config.max_hops)),
                known@ == entry_ids(self.peers@),
                out@.len() == t,
                forall|k: int| 0 <= k < out@.len() ==> out@[k].0 == targets@[k].0,
                forall|k: int| 0 <= k < out@.len() ==> round_message(*self, #[trigger] out@[k].1, timestamp),
            decreases targets@.len() - t,
        {
            let push = GossipPush {
                sender_id: self.node_id,
                peers: clone_infos(&our_peers),
                timestamp,
                state_digest: 0,
            };
            let message = if self.config.use_push_pull {
                GossipMessage::PushPull(GossipPushPull {
                    push,
                    pull: GossipPull {
                        requester_id: self.node_id,
                        service_filter: None,
                        max_peers: 10,
                        known_peers: clone_ids(&known),
                    },
                })
            } else {
                GossipMessage::Push(push)
            };
            out.push((targets[t].0, message));
            proof {
                assert(is_target(self.peers@, targets@[t as int]));
            }
            t = t + 1;
        }
        proof {
            assert forall|k: int| 0 <= k < out@.len() implies is_target_address(old(self).spec_peers(), #[trigger] out@[k].0) by {
                assert(is_target(self.peers@, targets@[k]));
                let i = choose|i: int| #[trigger] target_at(self.peers@, i, targets@[k]);
                assert(target_at(self.peers@, i, targets@[k]));
                assert(address_at(old(self).spec_peers(), i, out@[k].0));
            }
        }
        self.stats.rounds_completed = self.stats.rounds_completed.saturating_add(1);
        self.stats.messages_sent = self.stats.messages_sent.saturating_add(targets.len() as u64);
        proof {
            assert(targets@ == targets_of(old(self).spec_peers(), picked));
            assert forall|k: int| 0 <= k < out@.len() implies (#[trigger] out@[k]).0 == targets_of(old(self).spec_peers(), picked)[k].0 by {
                assert(out@[k].0 == targets@[k].0);
            }
        }
        out
    }

    /// A heartbeat to the first address of every peer that has one.
    pub fn plan_heartbeats(&self, timestamp: u64) -> (res: Vec<(PeerAddress, GossipMessage)>)
        ensures
            res@.len() == first_addresses(self.spec_peers()).len(),
            forall|i: int| 0 <= i < res@.len() ==> (#[trigger] res@[i]).0 == first_addresses(self.spec_peers())[i]
                && (res@[i].1 matches GossipMessage::Heartbeat(h) && h.node_id == self.spec_node_id() && h.timestamp == timestamp),
    {
        let mut out: Vec<(PeerAddress, GossipMessage)> = Vec::new();
        let mut i: usize = 0;
        while i < self.peers.len()
            invariant
                i <= self.peers@.len(),
                out@.len() == first_addresses(self.peers@.subrange(0, i as int)).len(),
                forall|j: int| 0 <= j < out@.len() ==> (#[trigger] out@[j]).0 == first_addresses(self.peers@.subrange(0, i as int))[j]
                    && (out@[j].1 matches GossipMessage::Heartbeat(h) && h.node_id == self.node_id && h.timestamp == timestamp),
            decreases self.peers@.len() - i,
        {
            assert(self.peers@.subrange(0, i + 1).drop_last() =~= self.peers@.subrange(0, i as int));
            if self.peers[i].info.addresses.len() > 0 {
                out.push((self.peers[i].info.addresses[0], GossipMessage::Heartbeat(GossipHeartbeat { node_id: self.node_id, timestamp })));
            }
            i = i + 1;
        }
        assert(self.peers@.subrange(0, self.peers@.len() as int) =~= self.peers@);
        out
    }

    /// The periodic status check: each peer gets the status its silence
    /// earns (healthy below the suspicion timeout, suspected below the down
    /// timeout, down after); peers found down are counted; peers down for
    /// three times the down timeout leave the table. Gives the number found
    /// down and the number removed.
    pub fn check_peer_statuses(&mut self, now_ms: u64, suspicion_ms: u64, down_ms: u64) -> (res: (u64, usize))
        requires
            old(self).wf(),
        ensures
            final(self).wf(),
            final(self).spec_node_id() == old(self).spec_node_id(),
            final(self).spec_config() == old(self).spec_config(),
            final(self).spec_versions() == old(self).spec_versions(),
            final(self).spec_peers() == checked_table(old(self).spec_peers(), now_ms, suspicion_ms, down_ms),
            res.0 == down_count(old(self).spec_peers(), now_ms, suspicion_ms, down_ms),
            res.1 == old(self).spec_peers().len() - final(self).spec_peers().len(),
            final(self).spec_stats() == (GossipStats {
                peers_marked_down: add_sat(old(self).spec_stats().peers_marked_down, res.0), ..old(self).spec_stats() }),
    {
        let mut rest: Vec<GossipPeerEntry> = Vec::new();
        std::mem::swap(&mut rest, &mut self.peers);
        let ghost orig = rest@;
        assert(orig.len() == rest.len());
        let mut marked: u64 = 0;
        let mut removed: usize = 0;
        assert(self.peers@ + checked_table(rest@, now_ms, suspicion_ms, down_ms) =~= checked_table(orig, now_ms, suspicion_ms, down_ms));
        while rest.len() > 0
            invariant
                self.node_id == old(self).node_id,
                self.config == old(self).config,
                self.stats == old(self).stats,
                self.state_versions == old(self).state_versions,
                ids_distinct(orig),
                orig.len() <= usize::MAX,
                self.peers@ + checked_table(rest@, now_ms, suspicion_ms, down_ms) == checked_table(orig, now_ms, suspicion_ms, down_ms),
                marked + down_count(rest@, now_ms, suspicion_ms, down_ms) == down_count(orig, now_ms, suspicion_ms, down_ms),
                removed + self.peers@.len() + rest@.len() == orig.len(),
                ids_distinct(self.peers@ + rest@),
            decreases rest@.len(),
        {
            let ghost before_rest = rest@;
            let ghost before_out = self.peers@;
            let mut e = rest.remove(0);
            assert(rest@ =~= before_rest.skip(1));
            let el: u64 = if now_ms >= e.last_received_ms { now_ms - e.last_received_ms } else { 0 };
            let status = if el < suspicion_ms {
                PeerStatus::Healthy
            } else if el < down_ms {
                PeerStatus::Suspected
            } else {
                PeerStatus::Down
            };
            if status == PeerStatus::Down {
                proof {
                    lemma_down_count_bound(orig, now_ms, suspicion_ms, down_ms);
                    assert(down_count(before_rest, now_ms, suspicion_ms, down_ms)
                        == 1 + down_count(before_rest.skip(1), now_ms, suspicion_ms, down_ms));
                }
                marked = marked + 1;
            }
            e.info.status = status;
            proof {
                assert(e == restatus(before_rest[0], now_ms, suspicion_ms, down_ms));
            }
            if status == PeerStatus::Down && (el as u128) >= 3 * (down_ms as u128) {
                removed = removed + 1;
                proof {
                    assert(before_out + rest@ =~= (before_out + before_rest).remove(before_out.len() as int));
                    lemma_remove_keeps_distinct(before_out + before_rest, before_out.len() as int);
                }
            } else {
                self.peers.push(e);
                proof {
                    assert(self.peers@ + checked_table(rest@, now_ms, suspicion_ms, down_ms)
                        =~= before_out + checked_table(before_rest, now_ms, suspicion_ms, down_ms));
                    assert forall|a: int, b: int| 0 <= a < b < (self.peers@ + rest@).len()
                        implies (self.peers@ + rest@)[a].info.peer_id != (self.peers@ + rest@)[b].info.peer_id by {
                        assert((self.peers@ + rest@)[a].info.peer_id == (before_out + before_rest)[a].info.peer_id);
                        assert((self.peers@ + rest@)[b].info.peer_id == (before_out + before_rest)[b].info.peer_id);
                    }
                }
            }
        }
        assert(self.peers@ + rest@ =~= self.peers@);
        if marked > 0 {
            self.stats.peers_marked_down = self.stats.peers_marked_down.saturating_add(marked);
        }
        (marked, removed)
    }

    /// Handles an incoming message and gives the reply, if any: a push
    /// updates the table; a pull is answered with a push; a push-pull does
    /// both; a heartbeat refreshes its sender; a state sync is taken where
    /// its hash checks out against its data and it is newer.
    pub fn handle_message(&mut self, message: GossipMessage, now_ms: u64, timestamp: u64)
        -> (res: Option<GossipMessage>)
        requires
            old(self).wf(),
        ensures
            final(self).wf(),
            final(self).spec_node_id() == old(self).spec_node_id(),
            final(self).spec_config() == old(self).spec_config(),
            final(self).spec_stats().messages_received == inc(old(self).spec_stats().messages_received),
            final(self).spec_stats().messages_sent == old(self).spec_stats().messages_sent,
            final(self).spec_stats().rounds_completed == old(self).spec_stats().rounds_completed,
            final(self).spec_stats().peers_marked_down == old(self).spec_stats().peers_marked_down,
            final(self).spec_stats().state_syncs == old(self).spec_stats().state_syncs,
            match message {
                GossipMessage::Push(p) => res is None
                    && (final(self).spec_peers(), final(self).spec_stats().peers_discovered) == apply_push(
                        (old(self).spec_peers(), old(self).spec_stats().peers_discovered),
                        p.peers@, old(self).spec_node_id(), old(self).spec_config().max_peers, now_ms),
                GossipMessage::Pull(p) => final(self).spec_peers() == old(self).spec_peers()
                    && final(self).spec_stats().peers_discovered == old(self).spec_stats().peers_discovered
                    && (res matches Some(GossipMessage::Push(r)) && pull_answer(old(self).spec_peers(), p, r)
                        && r.sender_id == old(self).spec_node_id() && r.timestamp == timestamp),
                GossipMessage::PushPull(pp) => {
                    let after = apply_push((old(self).spec_peers(), old(self).spec_stats().peers_discovered),
                        pp.push.peers@, old(self).spec_node_id(), old(self).spec_config().max_peers, now_ms);
                    &&& (final(self).spec_peers(), final(self).spec_stats().peers_discovered) == after
                    &&& res matches Some(GossipMessage::Push(r)) && pull_answer(after.0, pp.pull, r)
                        && r.sender_id == old(self).spec_node_id() && r.timestamp == timestamp
                },
                GossipMessage::Heartbeat(hb) => res is None
                    && final(self).spec_stats().peers_discovered == old(self).spec_stats().peers_discovered
                    && (entry_ids(old(self).spec_peers()).contains(hb.node_id) ==> exists|i: int|
                        0 <= i < old(self).spec_peers().len() && old(self).spec_peers()[i].info.peer_id == hb.node_id
                        && final(self).spec_peers() == old(self).spec_peers().update(i, #[trigger] heard_from(old(self).spec_peers()[i], now_ms)))
                    && (!entry_ids(old(self).spec_peers()).contains(hb.node_id) ==> final(self).spec_peers() == old(self).spec_peers()),
                GossipMessage::StateSync(sync) => res is None
                    && final(self).spec_peers() == old(self).spec_peers()
                    && final(self).spec_stats().peers_discovered == old(self).spec_stats().peers_discovered
                    && forall|k: Seq<char>| #[trigger] version_of(final(self).spec_versions(), k)
                        == if is_state_hash(sync.hash, sync.data@) && k == sync.key@ && sync.version > version_of(old(self).spec_versions(), k) {
                            sync.version
                        } else {
                            version_of(old(self).spec_versions(), k)
                        },
            },
    {
        self.stats.messages_received = self.stats.messages_received.saturating_add(1);
        match message {
            GossipMessage::Push(push) => {
                self.handle_push(push, now_ms);
                None
            },
            GossipMessage::Pull(pull) => {
                Some(GossipMessage::Push(self.handle_pull(&pull, timestamp)))
            },
            GossipMessage::PushPull(pp) => {
                self.handle_push(pp.push, now_ms);
                Some(GossipMessage::Push(self.handle_pull(&pp.pull, timestamp)))
            },
            GossipMessage::Heartbeat(hb) => {
                self.handle_heartbeat(hb.node_id, now_ms);
                None
            },
            GossipMessage::StateSync(sync) => {
                self.handle_state_sync(&sync);
                None
            },
        }
    }

    /// The healthy peers, in table order.
    pub fn get_healthy_peers(&self) -> (res: Vec<GossipPeerInfo>)
        ensures
            infos_same(res@, healthy_infos(self.spec_peers())),
    {
        let mut out: Vec<GossipPeerInfo> = Vec::new();
        let mut i: usize = 0;
        while i < self.peers.len()
            invariant
                i <= self.peers@.len(),
                infos_same(out@, healthy_infos(self.peers@.subrange(0, i as int))),
            decreases self.peers@.len() - i,
        {
            assert(self.peers@.subrange(0, i + 1).drop_last() =~= self.peers@.subrange(0, i as int));
            if self.peers[i].info.status == PeerStatus::Healthy {
                out.push(self.peers[i].info.clone());
            }
            i = i + 1;
        }
        assert(self.peers@.subrange(0, self.peers@.len() as int) =~= self.peers@);
        out
    }

    /// The peers that offer a service, in table order.
    pub fn get_peers_by_service(&self, service: &str) -> (res: Vec<GossipPeerInfo>)
        ensures
            infos_same(res@, service_infos(self.spec_peers(), service@)),
    {
        let mut out: Vec<GossipPeerInfo> = Vec::new();
        let mut i: usize = 0;
        while i < self.peers.len()
            invariant
                i <= self.peers@.len(),
                infos_same(out@, service_infos(self.peers@.subrange(0, i as int), service@)),
            decreases self.peers@.len() - i,
        {
            assert(self.peers@.subrange(0, i + 1).drop_last() =~= self.peers@.subrange(0, i as int));
            if offers(&self.peers[i].info.services, service) {
                out.push(self.peers[i].info.clone());
            }
            i = i + 1;
        }
        assert(self.peers@.subrange(0, self.peers@.len() as int) =~= self.peers@);
        out
    }

    /// The peers that may travel one more hop, with their hop count raised.
    pub fn build_peer_list(&self, max_hops: u8) -> (res: Vec<GossipPeerInfo>)
        ensures
            infos_same(res@, forwardable(self.spec_peers(), max_hops)),
    {
        let mut out: Vec<GossipPeerInfo> = Vec::new();
        let mut i: usize = 0;
        while i < self.peers.len()
            invariant
                i <= self.peers@.len(),
                infos_same(out@, forwardable(self.peers@.subrange(0, i as int), max_hops)),
            decreases self.peers@.len() - i,
        {
            assert(self.peers@.subrange(0, i + 1).drop_last() =~= self.peers@.subrange(0, i as int));
            if self.peers[i].info.hop_count < max_hops {
                let mut info = self.peers[i].info.clone();
                info.hop_count = info.hop_count + 1;
                out.push(info);
            }
            i = i + 1;
        }
        assert(self.peers@.subrange(0, self.peers@.len() as int) =~= self.peers@);
        out
    }

    /// Picks up to `fanout` distinct live (healthy or suspected) peers at
    /// random, and gives the first address and id of those that have an
    /// address.
    pub fn select_gossip_targets(&self, fanout: usize) -> (res: Vec<(PeerAddress, u128)>)
        requires
            self.wf(),
        ensures
            exists|picked: Seq<int>| fair_pick(self.spec_peers(), fanout, picked) && res@ == #[trigger] targets_of(self.spec_peers(), picked),
            res@.len() <= fanout,
            forall|k: int| 0 <= k < res@.len() ==> is_target(self.spec_peers(), #[trigger] res@[k]),
            forall|a: int, b: int| 0 <= a < b < res@.len() ==> res@[a].1 != res@[b].1,
    {
        let mut live: Vec<usize> = Vec::new();
        let mut i: usize = 0;
        while i < self.peers.len()
            invariant
                i <= self.peers@.len(),
                live@.len() == live_count(self.peers@.subrange(0, i as int)),
                forall|k: int| 0 <= k < live@.len() ==> live@[k] < i,
                forall|k: int| 0 <= k < live@.len() ==> (self.peers@[live@[k] as int].info.status == PeerStatus::Healthy
                    || self.peers@[live@[k] as int].info.status == PeerStatus::Suspected),
                forall|a: int, b: int| 0 <= a < b < live@.len() ==> live@[a] < live@[b],
            decreases self.peers@.len() - i,
        {
            proof {
                assert(self.peers@.subrange(0, i + 1).drop_last() =~= self.peers@.subrange(0, i as int));
            }
            let st = self.peers[i].info.status;
            if st == PeerStatus::Healthy || st == PeerStatus::Suspected {
                live.push(i);
            }
            i = i + 1;
        }
        proof {
            assert(self.peers@.subrange(0, self.peers@.len() as int) =~= self.peers@);
        }
        let mut selected: Vec<(PeerAddress, u128)> = Vec::new();
        if live.len() == 0 {
            proof {
                let picked = Seq::<int>::empty();
                assert(fair_pick(self.peers@, fanout, picked));
                assert(selected@ =~= targets_of(self.peers@, picked));
                assert(fair_pick(self.spec_peers(), fanout, picked) && selected@ == targets_of(self.spec_peers(), picked));
            }
            return selected;
        }
        let rounds = if fanout < live.len() { fanout } else { live.len() };
        let mut r: usize = 0;
        let ghost picked: Seq<usize> = Seq::empty();
        let ghost chosen: Seq<int> = Seq::empty();
        while r < rounds
            invariant
                self.wf(),
                r <= rounds,
                rounds <= fanout,
                rounds == if fanout < live_count(self.peers@) { fanout as nat } else { live_count(self.peers@) },
                live@.len() + r == live_count(self.peers@),
                chosen.len() == r,
                forall|k: int| 0 <= k < chosen.len() ==> 0 <= #[trigger] chosen[k] < self.peers@.len()
                    && live_entry(self.peers@[chosen[k]]) && !live@.contains(chosen[k] as usize),
                forall|a: int, b: int| 0 <= a < b < chosen.len() ==> chosen[a] != chosen[b],
                selected@ == targets_of(self.peers@, chosen),
                selected@.len() <= r,
                forall|k: int| 0 <= k < live@.len() ==> live@[k] < self.peers@.len(),
                forall|k: int| 0 <= k < live@.len() ==> (self.peers@[live@[k] as int].info.status == PeerStatus::Healthy
                    || self.peers@[live@[k] as int].info.status == PeerStatus::Suspected),
                forall|a: int, b: int| 0 <= a < b < live@.len() ==> live@[a] != live@[b],
                forall|k: int| 0 <= k < selected@.len() ==> picked[k] < self.peers@.len()
                    && !live@.contains(picked[k])
                    && self.peers@[picked[k] as int].info.peer_id == selected@[k].1
                    && (self.peers@[picked[k] as int].info.status == PeerStatus::Healthy
                        || self.peers@[picked[k] as int].info.status == PeerStatus::Suspected)
                    && self.peers@[picked[k] as int].info.addresses@.len() > 0
                    && self.peers@[picked[k] as int].info.addresses@[0] == selected@[k].0,
                picked.len() == selected@.len(),
                forall|a: int, b: int| 0 <= a < b < picked.len() ==> picked[a] != picked[b],
            decreases rounds - r,
        {
            let idx = random_index(live.len());
            let ghost before = live@;
            let peer_idx = live.swap_remove(idx);
            proof {
                assert(before[idx as int] == peer_idx);
                assert forall|k: int| 0 <= k < live@.len() implies live@[k] != peer_idx by {
                    if k == idx as int {
                        assert(live@[k] == before[before.len() - 1]);
                    } else {
                        assert(live@[k] == before[k]);
                    }
                }
                assert forall|k: int| 0 <= k < live@.len() implies before.contains(#[trigger] live@[k]) by {
                    if k == idx as int {
                        assert(live@[k] == before[before.len() - 1]);
                    } else {
                        assert(live@[k] == before[k]);
                    }
                }
                assert forall|a: int, b: int| 0 <= a < b < live@.len() implies live@[a] != live@[b] by {
                    let ia = if a == idx as int { before.len() - 1 } else { a };
                    let ib = if b == idx as int { before.len() - 1 } else { b };
                    assert(live@[a] == before[ia]);
                    assert(live@[b] == before[ib]);
                }
            }
            let entry = &self.peers[peer_idx];
            let ghost before_sel = selected@;
            let ghost before_chosen = chosen;
            proof {
                chosen = chosen.push(peer_idx as int);
                assert(chosen.drop_last() =~= before_chosen);
            }
            if entry.info.addresses.len() > 0 {
                selected.push((entry.info.addresses[0], entry.info.peer_id));
                proof {
                    picked = picked.push(peer_idx);
                }
            }
            proof {
                assert forall|k: int| 0 <= k < chosen.len() implies 0 <= #[trigger] chosen[k] < self.peers@.len()
                    && live_entry(self.peers@[chosen[k]]) && !live@.contains(chosen[k] as usize) by {
                    if k < before_chosen.len() {
                        assert(chosen[k] == before_chosen[k]);
                        if live@.contains(chosen[k] as usize) {
                            let m = choose|m: int| 0 <= m < live@.len() && live@[m] == chosen[k] as usize;
                            assert(before.contains(live@[m]));
                        }
                    } else {
                        assert(before.contains(peer_idx));
                    }
                }
                assert forall|a: int, b: int| 0 <= a < b < chosen.len() implies chosen[a] != chosen[b] by {
                    if b == before_chosen.len() {
                        assert(!before.contains(chosen[a] as usize));
                        assert(before.contains(peer_idx));
                    }
                }
            }
            proof {
                assert forall|k: int| 0 <= k < selected@.len() implies !live@.contains(picked[k]) by {
                    if live@.contains(picked[k]) {
                        let m = choose|m: int| 0 <= m < live@.len() && live@[m] == picked[k];
                        assert(before.contains(live@[m]));
                    }
                }
            }
            r = r + 1;
        }
        proof {
            assert forall|a: int, b: int| 0 <= a < b < selected@.len() implies selected@[a].1 != selected@[b].1 by {
                assert(picked[a] != picked[b]);
                assert(self.peers@[picked[a] as int].info.peer_id != self.peers@[picked[b] as int].info.peer_id);
            }
            assert forall|k: int| 0 <= k < selected@.len() implies is_target(self.peers@, #[trigger] selected@[k]) by {
                let i = picked[k] as int;
                assert(target_at(self.peers@, i, selected@[k]));
            }
            assert(fair_pick(self.peers@, fanout, chosen));
            assert(fair_pick(self.spec_peers(), fanout, chosen) && selected@ == targets_of(self.spec_peers(), chosen));
        }
        selected
    }
}

/// A copy of a list of addresses.
pub fn copy_addresses(v: &Vec<PeerAddress>) -> (res: Vec<PeerAddress>)
    ensures
        res@ == v@,
{
    let mut out: Vec<PeerAddress> = Vec::new();
    let mut i: usize = 0;
    while i < v.len()
        invariant
            i <= v@.len(),
            out@ == v@.subrange(0, i as int),
        decreases v@.len() - i,
    {
        out.push(v[i]);
        i = i + 1;
    }
    assert(v@.subrange(0, v@.len() as int) =~= v@);
    out
}

/// A copy of a list of strings.
pub fn clone_strings(v: &Vec<String>) -> (res: Vec<String>)
    ensures
        res@ == v@,
{
    let mut out: Vec<String> = Vec::new();
    let mut i: usize = 0;
    while i < v.len()
        invariant
            i <= v@.len(),
            out@ == v@.subrange(0, i as int),
        decreases v@.len() - i,
    {
        out.push(v[i].clone());
        i = i + 1;
    }
    assert(v@.subrange(0, v@.len() as int) =~= v@);
    out
}

/// A message of a gossip round: our forwardable peers as a push from us
/// at the round's time, inside a push-pull asking for up to 10 peers we do
/// not know where push-pull is on.
pub open spec fn round_message(st: GossipState, m: GossipMessage, timestamp: u64) -> bool {
    let push_ok = |p: GossipPush| p.sender_id == st.spec_node_id() && p.timestamp == timestamp && p.state_digest == 0
        && infos_same(p.peers@, forwardable(st.spec_peers(), st.spec_config().max_hops));
    if st.spec_config().use_push_pull {
        m matches GossipMessage::PushPull(pp) && push_ok(pp.push)
            && pp.pull.requester_id == st.spec_node_id() && pp.pull.service_filter is None
            && pp.pull.max_peers == 10 && pp.pull.known_peers@ == entry_ids(st.spec_peers())
    } else {
        m matches GossipMessage::Push(p) && push_ok(p)
    }
}

/// Whether two hashes are equal.
/// `h` is the state hash of `data`: the eight little-endian bytes of its
/// default hash, then zeros.
pub open spec fn is_state_hash(h: [u8; 32], data: Seq<u8>) -> bool {
    forall|i: int| 0 <= i < 32 ==> #[trigger] h@[i] == if i < 8 { le_bytes(bytes_hash(data))[i] } else { 0u8 }
}

proof fn lemma_state_hash_unique(a: [u8; 32], b: [u8; 32], data: Seq<u8>)
    requires
        is_state_hash(a, data),
    ensures
        is_state_hash(b, data) <==> a == b,
{
    if is_state_hash(b, data) {
        assert(a@ =~= b@);
        broadcast use vstd::array::axiom_array_ext_equal;
        assert(a =~= b);
    }
}

/// The hash of a piece of state's data: the eight little-endian bytes of
/// its default hash, padded with zeros to thirty-two.
pub fn compute_hash(data: &[u8]) -> (res: [u8; 32])
    ensures
        is_state_hash(res, data@),
{
    let b = u64_le_bytes(hash_bytes(data));
    let res: [u8; 32] = [b[0], b[1], b[2], b[3], b[4], b[5], b[6], b[7],
        0, 0, 0, 0, 0, 0, 0, 0, 0, 0, 0, 0, 0, 0, 0, 0, 0, 0, 0, 0, 0, 0, 0, 0];
    assert(is_state_hash(res, data@));
    res
}

fn same_hash(a: &[u8; 32], b: &[u8; 32]) -> (res: bool)
    ensures
        res <==> *a == *b,
{
    let mut i: usize = 0;
    while i < 32
        invariant
            i <= 32,
            forall|j: int| 0 <= j < i ==> a[j] == b[j],
        decreases 32 - i,
    {
        if a[i] != b[i] {
            return false;
        }
        i = i + 1;
    }
    proof {
        broadcast use vstd::array::axiom_array_ext_equal;
        assert(*a =~= *b);
    }
    true
}

/// A copy of a list of infos.
fn clone_infos(v: &Vec<GossipPeerInfo>) -> (res: Vec<GossipPeerInfo>)
    ensures
        infos_same(res@, v@),
{
    let mut out: Vec<GossipPeerInfo> = Vec::new();
    let mut i: usize = 0;
    while i < v.len()
        invariant
            i <= v@.len(),
            out@.len() == i,
            forall|k: int| 0 <= k < i ==> info_same(#[trigger] out@[k], v@[k]),
        decreases v@.len() - i,
    {
        out.push(v[i].clone());
        i = i + 1;
    }
    out
}

/// A copy of a list of ids.
fn clone_ids(v: &Vec<u128>) -> (res: Vec<u128>)
    ensures
        res@ == v@,
{
    let mut out: Vec<u128> = Vec::new();
    let mut i: usize = 0;
    while i < v.len()
        invariant
            i <= v@.len(),
            out@ == v@.subrange(0, i as int),
        decreases v@.len() - i,
    {
        out.push(v[i]);
        i = i + 1;
    }
    assert(v@.subrange(0, v@.len() as int) =~= v@);
    out
}

proof fn lemma_down_count_bound(s: Seq<GossipPeerEntry>, now_ms: u64, suspicion_ms: u64, down_ms: u64)
    ensures
        down_count(s, now_ms, suspicion_ms, down_ms) <= s.len(),
    decreases s.len(),
{
    if s.len() > 0 {
        lemma_down_count_bound(s.skip(1), now_ms, suspicion_ms, down_ms);
    }
}

proof fn lemma_remove_keeps_distinct(s: Seq<GossipPeerEntry>, i: int)
    requires
        ids_distinct(s),
        0 <= i < s.len(),
    ensures
        ids_distinct(s.remove(i)),
{
    let r = s.remove(i);
    assert forall|a: int, b: int| 0 <= a < b < r.len() implies r[a].info.peer_id != r[b].info.peer_id by {
        let sa = if a < i { a } else { a + 1 };
        let sb = if b < i { b } else { b + 1 };
        assert(r[a] == s[sa]);
        assert(r[b] == s[sb]);
    }
}

proof fn lemma_version_at(vs: Seq<(Seq<char>, u64)>, i: int, key: Seq<char>)
    requires
        0 <= i < vs.len(),
        vs[i].0 == key,
        forall|a: int, b: int| 0 <= a < b < vs.len() ==> vs[a].0 != vs[b].0,
    ensures
        version_of(vs, key) == vs[i].1,
    decreases vs.len(),
{
    if i < vs.len() - 1 {
        assert(vs.last().0 != key);
        lemma_version_at(vs.drop_last(), i, key);
    }
}

proof fn lemma_version_absent(vs: Seq<(Seq<char>, u64)>, key: Seq<char>)
    requires
        forall|k: int| 0 <= k < vs.len() ==> vs[k].0 != key,
    ensures
        version_of(vs, key) == 0,
    decreases vs.len(),
{
    if vs.len() > 0 {
        lemma_version_absent(vs.drop_last(), key);
    }
}

proof fn lemma_version_update(vs: Seq<(Seq<char>, u64)>, i: int, key: Seq<char>, v: u64)
    requires
        0 <= i < vs.len(),
        vs[i].0 == key,
        forall|a: int, b: int| 0 <= a < b < vs.len() ==> vs[a].0 != vs[b].0,
    ensures
        forall|k: Seq<char>| #[trigger] version_of(vs.update(i, (key, v)), k)
            == if k == key { v } else { version_of(vs, k) },
    decreases vs.len(),
{
    let u = vs.update(i, (key, v));
    if i == vs.len() - 1 {
        assert(u.drop_last() =~= vs.drop_last());
        assert forall|k: Seq<char>| #[trigger] version_of(u, k) == if k == key { v } else { version_of(vs, k) } by {
            assert(u.last() == (key, v));
            assert(vs.last().0 == key);
        }
    } else {
        assert(u.drop_last() =~= vs.drop_last().update(i, (key, v)));
        lemma_version_update(vs.drop_last(), i, key, v);
        assert(vs[vs.len() - 1].0 != vs[i].0);
        assert(vs.last().0 != key);
        assert(u.last() == vs.last());
        assert forall|k: Seq<char>| #[trigger] version_of(u, k) == if k == key { v } else { version_of(vs, k) } by {
            assert(version_of(u.drop_last(), k) == if k == key { v } else { version_of(vs.drop_last(), k) });
        }
    }
}

/// Whether a pull asks for a peer.
fn wanted_by(pull: &GossipPull, info: &GossipPeerInfo) -> (res: bool)
    ensures
        res == pull_wants(*pull, *info),
{
    let mut k: usize = 0;
    while k < pull.known_peers.len()
        invariant
            k <= pull.known_peers@.len(),
            forall|j: int| 0 <= j < k ==> pull.known_peers@[j] != info.peer_id,
        decreases pull.known_peers@.len() - k,
    {
        if pull.known_peers[k] == info.peer_id {
            assert(pull.known_peers@[k as int] == info.peer_id);
            return false;
        }
        k = k + 1;
    }
    assert(!pull.known_peers@.contains(info.peer_id));
    match &pull.service_filter {
        None => true,
        Some(filter) => {
            let mut a: usize = 0;
            while a < info.services.len()
                invariant
                    a <= info.services@.len(),
                    !pull.known_peers@.contains(info.peer_id),
                    pull.service_filter == Some(*filter),
                    forall|x: int, y: int| 0 <= x < a && 0 <= y < filter@.len() ==> info.services@[x]@ != filter@[y]@,
                decreases info.services@.len() - a,
            {
                if offers(filter, info.services[a].as_str()) {
                    proof {
                        let y = choose|y: int| 0 <= y < filter@.len() && #[trigger] filter@[y]@ == info.services@[a as int]@;
                        assert(info.services@[a as int]@ == filter@[y]@);
                    }
                    return true;
                }
                a = a + 1;
            }
            false
        },
    }
}

/// Whether a list of services holds one.
fn offers(services: &Vec<String>, service: &str) -> (res: bool)
    ensures
        res <==> exists|k: int| 0 <= k < services@.len() && #[trigger] services@[k]@ == service@,
{
    let mut k: usize = 0;
    while k < services.len()
        invariant
            k <= services@.len(),
            forall|j: int| 0 <= j < k ==> services@[j]@ != service@,
        decreases services@.len() - k,
    {
        if crate::text::same_str(services[k].as_str(), service) {
            return true;
        }
        k = k + 1;
    }
    false
}

} // verus!
