//! Peer discovery: what is known of discovered peers, and which peers to
//! connect to under each network topology.

use vstd::prelude::*;
use std::time::Duration;
use crate::clock::{duration_from_secs, secs_duration};
use crate::gossip::{random_index, GossipConfig, GossipPeerInfo, PeerStatus as GossipStatus};
use crate::text::same_str;
use crate::net_error::NetworkError;
use crate::peer_addr::{PeerAddress, PeerIp};
use crate::program_types::{clone_opt_text, clone_text_pairs, clone_texts, opt_text, text_pairs, texts};

verus! {

/// What a peer tells of itself.
#[derive(Debug, Clone)]
pub struct PeerMetadata {
    pub node_type: String,
    pub protocol_version: u32,
    pub services: Vec<String>,
    pub region: Option<String>,
    pub extra: Vec<(String, String)>,
}

/// How the network is laid out.
#[derive(Debug, Clone)]
pub enum NetworkTopology {
    FullMesh,
    Ring { redundancy: usize },
    Star { hubs: Vec<u128> },
    Hierarchical { levels: usize, branching_factor: usize },
    SmallWorld { local_connections: usize, random_connections: usize },
}

/// Timing and limits of discovery.
#[derive(Debug, Clone, Copy)]
pub struct DiscoveryConfig {
    pub discovery_interval: Duration,
    pub gossip_interval: Duration,
    pub max_peers: usize,
    pub min_peers_for_formation: usize,
    pub peer_timeout: Duration,
    pub bootstrap_timeout: Duration,
    pub auto_form_network: bool,
}

impl Default for DiscoveryConfig {
    fn default() -> (res: Self)
        ensures
            res.discovery_interval == secs_duration(30),
            res.gossip_interval == secs_duration(10),
            res.max_peers == 100,
            res.min_peers_for_formation == 3,
            res.peer_timeout == secs_duration(300),
            res.bootstrap_timeout == secs_duration(30),
            res.auto_form_network,
    {
        DiscoveryConfig {
            discovery_interval: duration_from_secs(30),
            gossip_interval: duration_from_secs(10),
            max_peers: 100,
            min_peers_for_formation: 3,
            peer_timeout: duration_from_secs(300),
            bootstrap_timeout: duration_from_secs(30),
            auto_form_network: true,
        }
    }
}

/// Counters of discovery; the time of the last run is in milliseconds of
/// the caller's clock.
#[derive(Debug, Clone, Copy)]
pub struct DiscoveryStats {
    pub total_peers_discovered: u64,
    pub active_peers: usize,
    pub failed_discovery_attempts: u64,
    pub network_formation_time: Option<Duration>,
    pub last_discovery_run: Option<u64>,
    pub discovery_methods_active: usize,
}

impl DiscoveryStats {
    /// Zeroed counters for the given number of discovery methods.
    pub fn new(discovery_methods_active: usize) -> (res: Self)
        ensures
            res.total_peers_discovered == 0,
            res.active_peers == 0,
            res.failed_discovery_attempts == 0,
            res.network_formation_time is None,
            res.last_discovery_run is None,
            res.discovery_methods_active == discovery_methods_active,
    {
        DiscoveryStats {
            total_peers_discovered: 0,
            active_peers: 0,
            failed_discovery_attempts: 0,
            network_formation_time: None,
            last_discovery_run: None,
            discovery_methods_active,
        }
    }
}

/// A discovered peer as the topologies see it: its id, its region and its
/// node type.
#[derive(Debug, Clone)]
pub struct PeerPlacement {
    pub peer_id: u128,
    pub region: Option<String>,
    pub node_type: String,
}

/// The ids of the peers, in order.
pub open spec fn placement_ids(peers: Seq<PeerPlacement>) -> Seq<u128> {
    Seq::new(peers.len(), |i: int| peers[i].peer_id)
}

/// Strictly increasing ids.
pub open spec fn increasing(s: Seq<u128>) -> bool {
    forall|i: int, j: int| 0 <= i < j < s.len() ==> s[i] < s[j]
}

/// No id twice.
pub open spec fn distinct_ids(s: Seq<u128>) -> bool {
    forall|i: int, j: int| 0 <= i < j < s.len() ==> s[i] != s[j]
}

/// The next `redundancy` ids after `pos` around the ring of `sorted`.
pub open spec fn ring_successors(sorted: Seq<u128>, pos: int, redundancy: nat) -> Seq<u128> {
    Seq::new(redundancy, |i: int| sorted[(pos + i + 1) % (sorted.len() as int)])
}

/// The peers of the given node type, in order.
pub open spec fn of_type(peers: Seq<PeerPlacement>, node_type: Seq<char>) -> Seq<u128>
    decreases peers.len(),
{
    if peers.len() == 0 {
        Seq::empty()
    } else if peers.last().node_type@ == node_type {
        of_type(peers.drop_last(), node_type).push(peers.last().peer_id)
    } else {
        of_type(peers.drop_last(), node_type)
    }
}

/// The peers in a region, in order.
pub open spec fn in_region(peers: Seq<PeerPlacement>, region: Seq<char>) -> Seq<u128>
    decreases peers.len(),
{
    if peers.len() == 0 {
        Seq::empty()
    } else if peers.last().region matches Some(r) && r@ == region {
        in_region(peers.drop_last(), region).push(peers.last().peer_id)
    } else {
        in_region(peers.drop_last(), region)
    }
}

/// The region of the first peer with the node's own id.
pub open spec fn own_region(peers: Seq<PeerPlacement>, node_id: u128) -> Option<Seq<char>>
    decreases peers.len(),
{
    if peers.len() == 0 {
        None
    } else if peers[0].peer_id == node_id {
        match peers[0].region { Some(r) => Some(r@), None => None }
    } else {
        own_region(peers.skip(1), node_id)
    }
}

/// The first `n` of a sequence, or all of it.
pub open spec fn first_n(s: Seq<u128>, n: usize) -> Seq<u128> {
    if s.len() <= n { s } else { s.subrange(0, n as int) }
}

/// Whether discovery has found enough peers to call the network formed.
pub fn is_network_formed(peer_count: usize, config: &DiscoveryConfig) -> (res: bool)
    ensures
        res == (peer_count >= config.min_peers_for_formation),
{
    peer_count >= config.min_peers_for_formation
}

/// Whether a peer last seen at `last_seen_ms` has been silent longer than
/// the timeout at `now_ms`; a peer never seen has not.
pub fn peer_timed_out(last_seen_ms: Option<u64>, now_ms: u64, timeout_ms: u64) -> (res: bool)
    ensures
        res == match last_seen_ms {
            Some(l) => (if now_ms >= l { now_ms - l } else { 0 }) > timeout_ms,
            None => false,
        },
{
    match last_seen_ms {
        Some(l) => {
            let elapsed: u64 = if now_ms >= l { now_ms - l } else { 0 };
            elapsed > timeout_ms
        },
        None => false,
    }
}

/// The ids of the peers in increasing order.
pub fn sorted_ids(peers: &Vec<PeerPlacement>) -> (res: Vec<u128>)
    requires
        distinct_ids(placement_ids(peers@)),
    ensures
        increasing(res@),
        res@.len() == peers@.len(),
        forall|x: u128| res@.contains(x) <==> placement_ids(peers@).contains(x),
{
    let mut out: Vec<u128> = Vec::new();
    let mut i: usize = 0;
    while i < peers.len()
        invariant
            i <= peers@.len(),
            distinct_ids(placement_ids(peers@)),
            increasing(out@),
            out@.len() == i,
            forall|x: u128| out@.contains(x) <==> placement_ids(peers@).subrange(0, i as int).contains(x),
        decreases peers@.len() - i,
    {
        let id = peers[i].peer_id;
        let ghost before = out@;
        let mut k: usize = 0;
        while k < out.len() && out[k] < id
            invariant
                out@ == before,
                k <= before.len(),
                forall|m: int| 0 <= m < k ==> before[m] < id,
            decreases before.len() - k,
        {
            k = k + 1;
        }
        proof {
            let ids = placement_ids(peers@);
            assert(ids[i as int] == id);
            assert(!ids.subrange(0, i as int).contains(id)) by {
                if ids.subrange(0, i as int).contains(id) {
                    let m = choose|m: int| 0 <= m < i && ids.subrange(0, i as int)[m] == id;
                    assert(ids[m] == ids[i as int]);
                }
            }
            assert(!before.contains(id));
            if k < before.len() {
                assert(before[k as int] != id);
            }
        }
        out.insert(k, id);
        proof {
            let nv = out@;
            let ids = placement_ids(peers@);
            assert(nv == before.insert(k as int, id));
            assert forall|a: int, b: int| 0 <= a < b < nv.len() implies nv[a] < nv[b] by {
                if b < k {
                } else if a < k && b == k {
                } else if a < k {
                    assert(nv[b] == before[b - 1]);
                } else if a == k {
                    assert(nv[b] == before[b - 1]);
                    if k < before.len() {
                        assert(before[k as int] >= id);
                        assert(before[k as int] > id);
                        if b - 1 > k {
                            assert(before[k as int] < before[b - 1]);
                        }
                    }
                } else {
                    assert(nv[a] == before[a - 1]);
                    assert(nv[b] == before[b - 1]);
                }
            }
            assert(ids.subrange(0, i + 1) =~= ids.subrange(0, i as int).push(id));
            assert forall|x: u128| nv.contains(x) <==> ids.subrange(0, i + 1).contains(x) by {
                if nv.contains(x) {
                    let m = choose|m: int| 0 <= m < nv.len() && nv[m] == x;
                    if m < k {
                        assert(before[m] == x);
                        assert(before.contains(x));
                    } else if m > k {
                        assert(before[m - 1] == x);
                        assert(before.contains(x));
                    }
                    if x != id {
                        assert(ids.subrange(0, i as int).contains(x));
                        let q = choose|q: int| 0 <= q < i && ids.subrange(0, i as int)[q] == x;
                        assert(ids.subrange(0, i + 1)[q] == x);
                    } else {
                        assert(ids.subrange(0, i + 1)[i as int] == x);
                    }
                }
                if ids.subrange(0, i + 1).contains(x) {
                    let sub = ids.subrange(0, i + 1);
                    let q = choose|q: int| 0 <= q < sub.len() && #[trigger] sub[q] == x;
                    if q == i {
                        assert(nv[k as int] == x);
                    } else {
                        assert(ids.subrange(0, i as int)[q] == sub[q]);
                        assert(before.contains(x));
                        let m = choose|m: int| 0 <= m < before.len() && before[m] == x;
                        if m < k {
                            assert(nv[m] == x);
                        } else {
                            assert(nv[m + 1] == x);
                        }
                    }
                }
            }
        }
        i = i + 1;
    }
    assert(placement_ids(peers@).subrange(0, peers@.len() as int) =~= placement_ids(peers@));
    out
}

/// The ring: where the node itself is among the peers, the next
/// `redundancy` peers after it in id order, wrapping around; otherwise none.
pub fn ring_connections(node_id: u128, peers: &Vec<PeerPlacement>, redundancy: usize) -> (res: Vec<u128>)
    requires
        distinct_ids(placement_ids(peers@)),
    ensures
        !placement_ids(peers@).contains(node_id) ==> res@.len() == 0,
        placement_ids(peers@).contains(node_id) ==> exists|sorted: Seq<u128>, pos: int| {
            &&& increasing(sorted)
            &&& sorted.len() == peers@.len()
            &&& (forall|x: u128| sorted.contains(x) <==> placement_ids(peers@).contains(x))
            &&& 0 <= pos < sorted.len() && sorted[pos] == node_id
            &&& #[trigger] ring_successors(sorted, pos, redundancy as nat) == res@
        },
{
    let sorted = sorted_ids(peers);
    let mut pos: usize = 0;
    while pos < sorted.len() && sorted[pos] != node_id
        invariant
            pos <= sorted@.len(),
            forall|m: int| 0 <= m < pos ==> sorted@[m] != node_id,
        decreases sorted@.len() - pos,
    {
        pos = pos + 1;
    }
    let mut out: Vec<u128> = Vec::new();
    if pos == sorted.len() {
        proof {
            if placement_ids(peers@).contains(node_id) {
                assert(sorted@.contains(node_id));
                let m = choose|m: int| 0 <= m < sorted@.len() && sorted@[m] == node_id;
            }
        }
        return out;
    }
    let n = sorted.len();
    let mut i: usize = 0;
    while i < redundancy
        invariant
            0 < n == sorted@.len(),
            pos < n,
            i <= redundancy,
            out@ == ring_successors(sorted@, pos as int, i as nat),
        decreases redundancy - i,
    {
        let a = pos % n;
        let b = (i + 1) % n;
        let next = if a >= n - b { a - (n - b) } else { a + b };
        proof {
            let p = pos as int;
            let q = (i + 1) as int;
            let m = n as int;
            vstd::arithmetic::div_mod::lemma_add_mod_noop(p, q, m);
            assert((p % m + q % m) % m == (p + q) % m);
            if a >= n - b {
                vstd::arithmetic::div_mod::lemma_fundamental_div_mod_converse(a + b, m, 1, next as int);
            } else {
                vstd::arithmetic::div_mod::lemma_fundamental_div_mod_converse(a + b, m, 0, next as int);
            }
            assert(next == (p + q) % m);
        }
        out.push(sorted[next]);
        assert(out@ =~= ring_successors(sorted@, pos as int, (i + 1) as nat));
        i = i + 1;
    }
    proof {
        assert(sorted@[pos as int] == node_id);
        assert(sorted@.contains(node_id));
        assert(ring_successors(sorted@, pos as int, redundancy as nat) == out@);
    }
    out
}

/// The ids of the peers in order.
fn all_ids(peers: &Vec<PeerPlacement>) -> (res: Vec<u128>)
    ensures
        res@ == placement_ids(peers@),
{
    let mut out: Vec<u128> = Vec::new();
    let mut i: usize = 0;
    while i < peers.len()
        invariant
            i <= peers@.len(),
            out@ == placement_ids(peers@).subrange(0, i as int),
        decreases peers@.len() - i,
    {
        out.push(peers[i].peer_id);
        i = i + 1;
    }
    assert(placement_ids(peers@).subrange(0, peers@.len() as int) =~= placement_ids(peers@));
    out
}

/// Hierarchical: up to three peers whose node type is "primary", in order.
pub fn hierarchical_connections(peers: &Vec<PeerPlacement>) -> (res: Vec<u128>)
    ensures
        res@ == first_n(of_type(peers@, "primary"@), 3),
{
    let mut out: Vec<u128> = Vec::new();
    let mut i: usize = 0;
    while i < peers.len()
        invariant
            i <= peers@.len(),
            out@ == first_n(of_type(peers@.subrange(0, i as int), "primary"@), 3),
        decreases peers@.len() - i,
    {
        assert(peers@.subrange(0, i + 1).drop_last() =~= peers@.subrange(0, i as int));
        if same_str(peers[i].node_type.as_str(), "primary") && out.len() < 3 {
            out.push(peers[i].peer_id);
        }
        proof {
            let before = of_type(peers@.subrange(0, i as int), "primary"@);
            let after = of_type(peers@.subrange(0, i + 1), "primary"@);
            if after.len() > before.len() && before.len() >= 3 {
                assert(after.subrange(0, 3) =~= before.subrange(0, 3));
            }
            if after.len() > before.len() && before.len() < 3 {
                assert(first_n(after, 3) =~= after);
            }
        }
        i = i + 1;
    }
    assert(peers@.subrange(0, peers@.len() as int) =~= peers@);
    out
}

/// The region of the first peer with the node's own id.
fn find_own_region(peers: &Vec<PeerPlacement>, node_id: u128) -> (res: Option<String>)
    ensures
        match own_region(peers@, node_id) {
            Some(r) => res matches Some(t) && t@ == r,
            None => res is None,
        },
{
    let mut i: usize = 0;
    assert(peers@.skip(0) =~= peers@);
    while i < peers.len()
        invariant
            i <= peers@.len(),
            own_region(peers@, node_id) == own_region(peers@.skip(i as int), node_id),
        decreases peers@.len() - i,
    {
        assert(peers@.skip(i as int).skip(1) =~= peers@.skip(i + 1));
        assert(peers@.skip(i as int)[0] == peers@[i as int]);
        if peers[i].peer_id == node_id {
            return match &peers[i].region {
                Some(r) => Some(r.clone()),
                None => None,
            };
        }
        i = i + 1;
    }
    None
}

/// Small world: up to `local_connections` peers in the node's own region
/// (the region of the first peer with its id), in order; then
/// `random_connections` picks (or as many as there are other peers) made
/// at random, with repetition, among the peers not picked as local.
pub fn small_world_connections(
    node_id: u128,
    peers: &Vec<PeerPlacement>,
    local_connections: usize,
    random_connections: usize,
) -> (res: Vec<u128>)
    ensures
        ({
            let local = match own_region(peers@, node_id) {
                Some(r) => first_n(in_region(peers@, r), local_connections),
                None => Seq::<u128>::empty(),
            };
            let others = placement_ids(peers@).filter(|x: u128| !local.contains(x));
            &&& res@.len() == local.len() + if random_connections < others.len() { random_connections as nat } else { others.len() }
            &&& res@.subrange(0, local.len() as int) == local
            &&& forall|k: int| local.len() <= k < res@.len() ==> others.contains(#[trigger] res@[k])
        }),
{
    let own = find_own_region(peers, node_id);
    let mut local: Vec<u128> = Vec::new();
    match &own {
        Some(region) => {
            let mut i: usize = 0;
            while i < peers.len()
                invariant
                    i <= peers@.len(),
                    local@ == first_n(in_region(peers@.subrange(0, i as int), region@), local_connections),
                decreases peers@.len() - i,
            {
                assert(peers@.subrange(0, i + 1).drop_last() =~= peers@.subrange(0, i as int));
                let matches_region = match &peers[i].region {
                    Some(r) => same_str(r.as_str(), region.as_str()),
                    None => false,
                };
                if matches_region && local.len() < local_connections {
                    local.push(peers[i].peer_id);
                }
                proof {
                    let before = in_region(peers@.subrange(0, i as int), region@);
                    let after = in_region(peers@.subrange(0, i + 1), region@);
                    if after.len() > before.len() && before.len() >= local_connections {
                        assert(after.subrange(0, local_connections as int) =~= before.subrange(0, local_connections as int));
                    }
                    if after.len() > before.len() && before.len() < local_connections {
                        assert(first_n(after, local_connections) =~= after);
                    }
                }
                i = i + 1;
            }
            assert(peers@.subrange(0, peers@.len() as int) =~= peers@);
        },
        None => {},
    }
    let ghost local_s = local@;
    let mut others: Vec<u128> = Vec::new();
    let mut j: usize = 0;
    while j < peers.len()
        invariant
            j <= peers@.len(),
            local@ == local_s,
            others@ == placement_ids(peers@).subrange(0, j as int).filter(|x: u128| !local_s.contains(x)),
        decreases peers@.len() - j,
    {
        let id = peers[j].peer_id;
        proof {
            let ids = placement_ids(peers@);
            assert(ids.subrange(0, j + 1) =~= ids.subrange(0, j as int).push(id));
            reveal(Seq::filter);
            assert(ids.subrange(0, j as int).push(id).drop_last() =~= ids.subrange(0, j as int));
        }
        if !contains_id(&local, id) {
            others.push(id);
        }
        j = j + 1;
    }
    assert(placement_ids(peers@).subrange(0, peers@.len() as int) =~= placement_ids(peers@));
    let mut out: Vec<u128> = local;
    let picks = if random_connections < others.len() { random_connections } else { others.len() };
    let mut r: usize = 0;
    while r < picks
        invariant
            r <= picks,
            picks <= others@.len(),
            out@.len() == local_s.len() + r,
            out@.subrange(0, local_s.len() as int) == local_s,
            forall|k: int| local_s.len() <= k < out@.len() ==> others@.contains(#[trigger] out@[k]),
        decreases picks - r,
    {
        let idx = random_index(others.len());
        let ghost before = out@;
        out.push(others[idx]);
        proof {
            assert(out@.subrange(0, local_s.len() as int) =~= before.subrange(0, local_s.len() as int));
            assert(others@.contains(others@[idx as int]));
        }
        r = r + 1;
    }
    out
}

/// Whether a list of ids holds one.
fn contains_id(v: &Vec<u128>, id: u128) -> (res: bool)
    ensures
        res == v@.contains(id),
{
    let mut i: usize = 0;
    while i < v.len()
        invariant
            i <= v@.len(),
            forall|k: int| 0 <= k < i ==> v@[k] != id,
        decreases v@.len() - i,
    {
        if v[i] == id {
            return true;
        }
        i = i + 1;
    }
    false
}

/// What the peers to connect to under a topology are: every peer for a
/// full mesh; the ring successors for a ring; for a star, every peer at a
/// hub and the hubs elsewhere; the small-world and hierarchical choices
/// otherwise.
pub open spec fn recommended_holds(node_id: u128, topology: NetworkTopology, peers: Seq<PeerPlacement>, res: Seq<u128>) -> bool {
    match topology {
        NetworkTopology::FullMesh => res == placement_ids(peers),
        NetworkTopology::Ring { redundancy } => {
            &&& !placement_ids(peers).contains(node_id) ==> res.len() == 0
            &&& placement_ids(peers).contains(node_id) ==> exists|sorted: Seq<u128>, pos: int| {
                &&& increasing(sorted)
                &&& sorted.len() == peers.len()
                &&& (forall|x: u128| sorted.contains(x) <==> placement_ids(peers).contains(x))
                &&& 0 <= pos < sorted.len() && sorted[pos] == node_id
                &&& #[trigger] ring_successors(sorted, pos, redundancy as nat) == res
            }
        },
        NetworkTopology::Star { hubs } => if hubs@.contains(node_id) { res == placement_ids(peers) } else { res == hubs@ },
        NetworkTopology::Hierarchical { .. } => res == first_n(of_type(peers, "primary"@), 3),
        NetworkTopology::SmallWorld { local_connections, random_connections } => {
            let local = match own_region(peers, node_id) {
                Some(r) => first_n(in_region(peers, r), local_connections),
                None => Seq::<u128>::empty(),
            };
            let others = placement_ids(peers).filter(|x: u128| !local.contains(x));
            &&& res.len() == local.len() + if random_connections < others.len() { random_connections as nat } else { others.len() }
            &&& res.subrange(0, local.len() as int) == local
            &&& forall|k: int| local.len() <= k < res.len() ==> others.contains(#[trigger] res[k])
        },
    }
}

/// The peers to connect to under a topology: every peer for a full mesh;
/// the ring successors for a ring; for a star, every peer at a hub and the
/// hubs elsewhere; the small-world and hierarchical choices otherwise.
pub fn recommended_connections(node_id: u128, topology: &NetworkTopology, peers: &Vec<PeerPlacement>) -> (res: Vec<u128>)
    requires
        distinct_ids(placement_ids(peers@)),
    ensures
        recommended_holds(node_id, *topology, peers@, res@),
{
    match topology {
        NetworkTopology::FullMesh => all_ids(peers),
        NetworkTopology::Ring { redundancy } => ring_connections(node_id, peers, *redundancy),
        NetworkTopology::Star { hubs } => {
            if contains_id(hubs, node_id) {
                all_ids(peers)
            } else {
                clone_u128s(hubs)
            }
        },
        NetworkTopology::SmallWorld { local_connections, random_connections } =>
            small_world_connections(node_id, peers, *local_connections, *random_connections),
        NetworkTopology::Hierarchical { .. } => hierarchical_connections(peers),
    }
}

fn clone_u128s(v: &Vec<u128>) -> (res: Vec<u128>)
    ensures
        res@ == v@,
{
    let mut out: Vec<u128> = Vec::new();
    let mut i: usize = 0;
    while i < v.len()
        invariant
            i <= v@.len(),
            out@ == v@.subrange(0, i as int),
        decreases v@.len() - i,
    {
        out.push(v[i]);
        i = i + 1;
    }
    assert(v@.subrange(0, v@.len() as int) =~= v@);
    out
}

/// The settings of the gossip round that discovery runs: fanout three,
/// heartbeats every five seconds, four hops, suspicion after fifteen
/// seconds, down after a minute, push-pull, and discovery's own interval
/// and peer limit.
pub fn gossip_config_for(config: &DiscoveryConfig) -> (res: GossipConfig)
    ensures
        res.fanout == 3,
        res.gossip_interval == config.gossip_interval,
        res.heartbeat_interval == secs_duration(5),
        res.max_hops == 4,
        res.suspicion_timeout == secs_duration(15),
        res.down_timeout == secs_duration(60),
        res.use_push_pull,
        res.max_peers == config.max_peers,
{
    GossipConfig {
        fanout: 3,
        gossip_interval: config.gossip_interval,
        heartbeat_interval: duration_from_secs(5),
        max_hops: 4,
        suspicion_timeout: duration_from_secs(15),
        down_timeout: duration_from_secs(60),
        use_push_pull: true,
        max_peers: config.max_peers,
    }
}

/// The ids of `ids`, in order, that are neither in `known` nor earlier in
/// `ids`: the peers a gossip round adds.
pub open spec fn newly_seen(known: Seq<u128>, ids: Seq<u128>) -> Seq<u128>
    decreases ids.len(),
{
    if ids.len() == 0 {
        Seq::empty()
    } else {
        let prev = newly_seen(known, ids.drop_last());
        if known.contains(ids.last()) || prev.contains(ids.last()) {
            prev
        } else {
            prev.push(ids.last())
        }
    }
}

/// The peers that gossip reported and discovery did not know yet.
pub fn peers_new_from_gossip(known: &Vec<u128>, reported: &Vec<u128>) -> (res: Vec<u128>)
    ensures
        res@ == newly_seen(known@, reported@),
{
    let mut out: Vec<u128> = Vec::new();
    let mut i: usize = 0;
    while i < reported.len()
        invariant
            i <= reported@.len(),
            out@ == newly_seen(known@, reported@.subrange(0, i as int)),
        decreases reported@.len() - i,
    {
        let id = reported[i];
        let ghost before = reported@.subrange(0, i as int);
        assert(reported@.subrange(0, i + 1).drop_last() =~= before);
        let mut seen = false;
        let mut j: usize = 0;
        while j < known.len()
            invariant
                j <= known@.len(),
                seen <==> exists|k: int| 0 <= k < j && known@[k] == id,
            decreases known@.len() - j,
        {
            if known[j] == id {
                seen = true;
            }
            j = j + 1;
        }
        let mut j: usize = 0;
        while j < out.len()
            invariant
                j <= out@.len(),
                seen <==> (known@.contains(id) || exists|k: int| 0 <= k < j && out@[k] == id),
            decreases out@.len() - j,
        {
            if out[j] == id {
                seen = true;
            }
            j = j + 1;
        }
        if !seen {
            out.push(id);
        }
        i = i + 1;
    }
    assert(reported@.subrange(0, reported@.len() as int) =~= reported@);
    out
}

/// Up to `fanout` distinct positions below `n`, drawn at random: the
/// targets of a gossip exchange. How many is fixed; which is left to chance.
pub fn pick_gossip_targets(n: usize, fanout: usize) -> (res: Vec<usize>)
    ensures
        res@.len() == if fanout < n { fanout } else { n },
        forall|a: int| 0 <= a < res@.len() ==> res@[a] < n,
        forall|a: int, b: int| 0 <= a < b < res@.len() ==> res@[a] != res@[b],
{
    let mut pool: Vec<usize> = Vec::new();
    let mut i: usize = 0;
    while i < n
        invariant
            i <= n,
            pool@.len() == i,
            forall|a: int| 0 <= a < i ==> pool@[a] == a,
        decreases n - i,
    {
        pool.push(i);
        i = i + 1;
    }
    let count = if fanout < n { fanout } else { n };
    let mut picked: Vec<usize> = Vec::new();
    while picked.len() < count
        invariant
            count <= n,
            picked@.len() <= count,
            pool@.len() + picked@.len() == n,
            forall|a: int| 0 <= a < pool@.len() ==> pool@[a] < n,
            forall|a: int| 0 <= a < picked@.len() ==> picked@[a] < n,
            forall|a: int, b: int| 0 <= a < b < pool@.len() ==> pool@[a] != pool@[b],
            forall|a: int, b: int| 0 <= a < b < picked@.len() ==> picked@[a] != picked@[b],
            forall|a: int, b: int| 0 <= a < pool@.len() && 0 <= b < picked@.len() ==> pool@[a] != picked@[b],
        decreases count - picked@.len(),
    {
        let ghost old_pool = pool@;
        let k = random_index(pool.len());
        let chosen = pool.swap_remove(k);
        proof {
            assert forall|a: int| 0 <= a < pool@.len() implies pool@[a] != chosen && exists|b: int| 0 <= b < old_pool.len() && b != k && old_pool[b] == pool@[a] by {
                if a == k {
                    assert(pool@[a] == old_pool[old_pool.len() - 1]);
                } else {
                    assert(pool@[a] == old_pool[a]);
                }
            }
        }
        picked.push(chosen);
    }
    picked
}

/// Whether a peer last seen at `last_seen` is silent longer than the
/// timeout at `now_ms`.
pub open spec fn silent_too_long(last_seen: Option<u64>, now_ms: u64, timeout_ms: u64) -> bool {
    match last_seen {
        Some(l) => (if now_ms >= l { now_ms - l } else { 0 }) > timeout_ms,
        None => false,
    }
}

/// The ids, in order, of the `(id, last seen)` pairs silent too long.
pub open spec fn silent_ids(peers: Seq<(u128, Option<u64>)>, now_ms: u64, timeout_ms: u64) -> Seq<u128>
    decreases peers.len(),
{
    if peers.len() == 0 {
        Seq::empty()
    } else {
        let prev = silent_ids(peers.drop_last(), now_ms, timeout_ms);
        if silent_too_long(peers.last().1, now_ms, timeout_ms) { prev.push(peers.last().0) } else { prev }
    }
}

/// The peers, among `(id, last seen)` pairs, silent longer than the
/// timeout at `now_ms`: those peer maintenance removes.
pub fn timed_out_peers(peers: &Vec<(u128, Option<u64>)>, now_ms: u64, timeout_ms: u64) -> (res: Vec<u128>)
    ensures
        res@ == silent_ids(peers@, now_ms, timeout_ms),
{
    let mut out: Vec<u128> = Vec::new();
    let mut i: usize = 0;
    while i < peers.len()
        invariant
            i <= peers@.len(),
            out@ == silent_ids(peers@.subrange(0, i as int), now_ms, timeout_ms),
        decreases peers@.len() - i,
    {
        assert(peers@.subrange(0, i + 1).drop_last() =~= peers@.subrange(0, i as int));
        let (id, seen) = peers[i];
        if peer_timed_out(seen, now_ms, timeout_ms) {
            out.push(id);
        }
        i = i + 1;
    }
    assert(peers@.subrange(0, peers@.len() as int) =~= peers@);
    out
}

/// A way of finding peers.
#[derive(Debug, Clone)]
pub enum DiscoveryMethod {
    Bootstrap(Vec<PeerAddress>),
    Mdns { service_name: String },
    Dht { bootstrap_nodes: Vec<PeerAddress> },
    Gossip { fanout: usize },
    Dns { domain: String, srv_record: String },
}

/// What a peer tells of itself, as values.
pub struct PeerMetadataView {
    pub node_type: Seq<char>,
    pub protocol_version: u32,
    pub services: Seq<Seq<char>>,
    pub region: Option<Seq<char>>,
    pub extra: Seq<(Seq<char>, Seq<char>)>,
}

impl View for PeerMetadata {
    type V = PeerMetadataView;

    open spec fn view(&self) -> PeerMetadataView {
        PeerMetadataView {
            node_type: self.node_type@,
            protocol_version: self.protocol_version,
            services: texts(self.services@),
            region: opt_text(self.region),
            extra: text_pairs(self.extra@),
        }
    }
}

/// A copy of a peer's metadata.
pub fn clone_metadata(m: &PeerMetadata) -> (res: PeerMetadata)
    ensures
        res@ == m@,
{
    PeerMetadata {
        node_type: m.node_type.clone(),
        protocol_version: m.protocol_version,
        services: clone_texts(&m.services),
        region: clone_opt_text(&m.region),
        extra: clone_text_pairs(&m.extra),
    }
}

/// A discovered peer: where it listens, what it tells of itself, when it
/// was found and last heard from (milliseconds of the caller's clock), and
/// its reputation in thousandths.
#[derive(Debug)]
pub struct DiscoveredPeer {
    pub peer_id: u128,
    pub addresses: Vec<PeerAddress>,
    pub metadata: PeerMetadata,
    pub discovered_at_ms: u64,
    pub last_seen_ms: Option<u64>,
    pub reputation_permille: u32,
}

/// A discovered peer as values.
pub struct DiscoveredPeerView {
    pub peer_id: u128,
    pub addresses: Seq<PeerAddress>,
    pub metadata: PeerMetadataView,
    pub discovered_at_ms: u64,
    pub last_seen_ms: Option<u64>,
    pub reputation_permille: u32,
}

impl View for DiscoveredPeer {
    type V = DiscoveredPeerView;

    open spec fn view(&self) -> DiscoveredPeerView {
        DiscoveredPeerView {
            peer_id: self.peer_id,
            addresses: self.addresses@,
            metadata: self.metadata@,
            discovered_at_ms: self.discovered_at_ms,
            last_seen_ms: self.last_seen_ms,
            reputation_permille: self.reputation_permille,
        }
    }
}

impl Clone for DiscoveredPeer {
    fn clone(&self) -> (res: Self)
        ensures
            res@ == self@,
    {
        DiscoveredPeer {
            peer_id: self.peer_id,
            addresses: self.addresses.clone(),
            metadata: clone_metadata(&self.metadata),
            discovered_at_ms: self.discovered_at_ms,
            last_seen_ms: self.last_seen_ms,
            reputation_permille: self.reputation_permille,
        }
    }
}

/// The views of a list of peers.
pub open spec fn peer_views(v: Seq<DiscoveredPeer>) -> Seq<DiscoveredPeerView> {
    Seq::new(v.len(), |i: int| v[i]@)
}

/// No peer id twice.
pub open spec fn distinct_peers(s: Seq<DiscoveredPeerView>) -> bool {
    forall|i: int, j: int| 0 <= i < j < s.len() ==> s[i].peer_id != s[j].peer_id
}

/// The peers after adding `p`: a peer with its id is replaced in place,
/// otherwise `p` comes last.
pub open spec fn with_peer(s: Seq<DiscoveredPeerView>, p: DiscoveredPeerView) -> Seq<DiscoveredPeerView> {
    if exists|i: int| 0 <= i < s.len() && s[i].peer_id == p.peer_id {
        s.update(choose|i: int| 0 <= i < s.len() && s[i].peer_id == p.peer_id, p)
    } else {
        s.push(p)
    }
}

/// The peers that offer a service, in order.
pub open spec fn offering(s: Seq<DiscoveredPeerView>, service: Seq<char>) -> Seq<DiscoveredPeerView>
    decreases s.len(),
{
    if s.len() == 0 {
        Seq::empty()
    } else if s.last().metadata.services.contains(service) {
        offering(s.drop_last(), service).push(s.last())
    } else {
        offering(s.drop_last(), service)
    }
}

/// `pl` places the peers `s`: the same ids, node types and regions, in order.
pub open spec fn places(pl: Seq<PeerPlacement>, s: Seq<DiscoveredPeerView>) -> bool {
    &&& pl.len() == s.len()
    &&& forall|i: int| 0 <= i < s.len() ==> {
        &&& (#[trigger] pl[i]).peer_id == s[i].peer_id
        &&& pl[i].node_type@ == s[i].metadata.node_type
        &&& opt_text(pl[i].region) == s[i].metadata.region
    }
}

/// Whether a peer with this id is known.
pub open spec fn has_peer(s: Seq<DiscoveredPeerView>, id: u128) -> bool {
    exists|i: int| 0 <= i < s.len() && s[i].peer_id == id
}

/// The peers with `p` added last where its id is not known yet.
pub open spec fn insert_new(s: Seq<DiscoveredPeerView>, p: DiscoveredPeerView) -> Seq<DiscoveredPeerView> {
    if has_peer(s, p.peer_id) { s } else { s.push(p) }
}

/// A peer that gossip reports healthy, as discovery enters it: a
/// secondary node with what gossip tells of it, seen now, full reputation.
pub open spec fn from_gossip(info: GossipPeerInfo, now_ms: u64) -> DiscoveredPeerView {
    DiscoveredPeerView {
        peer_id: info.peer_id,
        addresses: info.addresses@,
        metadata: PeerMetadataView {
            node_type: "secondary"@,
            protocol_version: info.protocol_version,
            services: texts(info.services@),
            region: opt_text(info.region),
            extra: Seq::empty(),
        },
        discovered_at_ms: now_ms,
        last_seen_ms: Some(now_ms),
        reputation_permille: 1000,
    }
}

/// The peers after entering, in order, each reported peer not known yet.
pub open spec fn learned(s: Seq<DiscoveredPeerView>, infos: Seq<GossipPeerInfo>, now_ms: u64) -> Seq<DiscoveredPeerView>
    decreases infos.len(),
{
    if infos.len() == 0 {
        s
    } else {
        insert_new(learned(s, infos.drop_last(), now_ms), from_gossip(infos.last(), now_ms))
    }
}

/// The peer a gossip target is taken to report: the drawn id, the local
/// address at port 9000 plus the drawn offset, a secondary node offering
/// query and storage in the target's region, seen now, reputation 800.
pub open spec fn reported_peer(region: Option<Seq<char>>, id: u128, port_offset: u16, now_ms: u64) -> DiscoveredPeerView {
    DiscoveredPeerView {
        peer_id: id,
        addresses: seq![PeerAddress { ip: PeerIp::V4(127, 0, 0, 1), port: (9000 + port_offset) as u16 }],
        metadata: PeerMetadataView {
            node_type: "secondary"@,
            protocol_version: 1,
            services: seq!["query"@, "storage"@],
            region,
            extra: Seq::empty(),
        },
        discovered_at_ms: now_ms,
        last_seen_ms: Some(now_ms),
        reputation_permille: 800,
    }
}

/// The peers after the first `n` exchanges of a gossip round: exchange `k`
/// with the peer at `targets[k]` of `s0` reports a peer, entered where it
/// was accepted and its id is not known.
pub open spec fn gossip_learned(
    s0: Seq<DiscoveredPeerView>,
    targets: Seq<usize>,
    new_ids: Seq<u128>,
    port_offsets: Seq<u16>,
    accepted: Seq<bool>,
    now_ms: u64,
    n: nat,
) -> Seq<DiscoveredPeerView>
    decreases n,
{
    if n == 0 {
        s0
    } else {
        let k = n - 1;
        let prev = gossip_learned(s0, targets, new_ids, port_offsets, accepted, now_ms, (n - 1) as nat);
        if accepted[k] {
            insert_new(prev, reported_peer(s0[targets[k] as int].metadata.region, new_ids[k], port_offsets[k], now_ms))
        } else {
            prev
        }
    }
}

/// The peer found at a bootstrap address, as bootstrap discovery enters
/// it: the drawn id, a secondary node offering consensus and storage in
/// us-west-1, seen now, full reputation.
pub open spec fn bootstrap_peer(address: PeerAddress, id: u128, now_ms: u64) -> DiscoveredPeerView {
    DiscoveredPeerView {
        peer_id: id,
        addresses: seq![address],
        metadata: PeerMetadataView {
            node_type: "secondary"@,
            protocol_version: 1,
            services: seq!["consensus"@, "storage"@],
            region: Some("us-west-1"@),
            extra: Seq::empty(),
        },
        discovered_at_ms: now_ms,
        last_seen_ms: Some(now_ms),
        reputation_permille: 1000,
    }
}

/// The peers after the first `n` bootstrap addresses are entered, each
/// under the id drawn for it.
pub open spec fn bootstrap_learned(s0: Seq<DiscoveredPeerView>, addresses: Seq<PeerAddress>, ids: Seq<u128>, now_ms: u64, n: nat)
    -> Seq<DiscoveredPeerView>
    decreases n,
{
    if n == 0 {
        s0
    } else {
        with_peer(bootstrap_learned(s0, addresses, ids, now_ms, (n - 1) as nat),
            bootstrap_peer(addresses[n - 1], ids[n - 1], now_ms))
    }
}

/// Entering a peer of a new id keeps the ids distinct and the peers
/// before it in place.
proof fn lemma_insert_new(s: Seq<DiscoveredPeerView>, p: DiscoveredPeerView)
    requires
        distinct_peers(s),
    ensures
        distinct_peers(insert_new(s, p)),
        insert_new(s, p).len() >= s.len(),
        insert_new(s, p).subrange(0, s.len() as int) == s,
{
    assert(insert_new(s, p).subrange(0, s.len() as int) =~= s);
}

/// The known peers of a node, the way it finds them and the topology it
/// forms. Each peer is held once, under its id.
pub struct DiscoveryManager {
    node_id: u128,
    config: DiscoveryConfig,
    peers: Vec<DiscoveredPeer>,
    methods: Vec<DiscoveryMethod>,
    topology: NetworkTopology,
    running: bool,
    stats: DiscoveryStats,
}

impl DiscoveryManager {
    pub closed spec fn spec_node_id(&self) -> u128 {
        self.node_id
    }

    pub closed spec fn spec_config(&self) -> DiscoveryConfig {
        self.config
    }

    pub closed spec fn spec_topology(&self) -> NetworkTopology {
        self.topology
    }

    pub closed spec fn spec_running(&self) -> bool {
        self.running
    }

    pub closed spec fn spec_stats(&self) -> DiscoveryStats {
        self.stats
    }

    /// The known peers.
    pub closed spec fn spec_peers(&self) -> Seq<DiscoveredPeerView> {
        peer_views(self.peers@)
    }

    /// Each peer once.
    pub closed spec fn wf(&self) -> bool {
        distinct_peers(peer_views(self.peers@))
    }

    /// No peers yet, not running, zeroed counters for the given methods.
    pub fn new(node_id: u128, config: DiscoveryConfig, methods: Vec<DiscoveryMethod>, topology: NetworkTopology)
        -> (res: Result<Self, NetworkError>)
        ensures
            res matches Ok(m) && m.wf() && m.spec_node_id() == node_id && m.spec_config() == config
                && m.spec_topology() == topology && !m.spec_running() && m.spec_peers().len() == 0
                && m.spec_stats().total_peers_discovered == 0 && m.spec_stats().active_peers == 0
                && m.spec_stats().failed_discovery_attempts == 0 && m.spec_stats().network_formation_time is None
                && m.spec_stats().last_discovery_run is None
                && m.spec_stats().discovery_methods_active == methods@.len(),
    {
        let stats = DiscoveryStats::new(methods.len());
        let m = DiscoveryManager { node_id, config, peers: Vec::new(), methods, topology, running: false, stats };
        assert(peer_views(m.peers@) =~= Seq::<DiscoveredPeerView>::empty());
        Ok(m)
    }

    /// Marks the manager running; refused when it already runs. The loops
    /// of discovery are run by the service that holds the manager.
    pub fn start(&mut self) -> (res: Result<(), NetworkError>)
        ensures
            old(self).spec_running() ==> res == Err::<(), NetworkError>(NetworkError::AlreadyRunning)
                && *final(self) == *old(self),
            !old(self).spec_running() ==> res is Ok && final(self).spec_running()
                && final(self).spec_peers() == old(self).spec_peers()
                && final(self).spec_stats() == old(self).spec_stats()
                && final(self).wf() == old(self).wf(),
    {
        if self.running {
            return Err(NetworkError::AlreadyRunning);
        }
        self.running = true;
        Ok(())
    }

    /// Marks the manager stopped.
    pub fn stop(&mut self) -> (res: Result<(), NetworkError>)
        ensures
            res is Ok,
            !final(self).spec_running(),
            final(self).spec_peers() == old(self).spec_peers(),
            final(self).spec_stats() == old(self).spec_stats(),
            final(self).wf() == old(self).wf(),
    {
        self.running = false;
        Ok(())
    }

    /// Holds a peer under its id: one of its id is replaced in place,
    /// otherwise it comes last.
    fn put_peer(&mut self, peer: DiscoveredPeer)
        requires
            old(self).wf(),
        ensures
            final(self).wf(),
            final(self).spec_peers() == with_peer(old(self).spec_peers(), peer@),
            final(self).spec_stats() == old(self).spec_stats(),
            final(self).spec_node_id() == old(self).spec_node_id(),
            final(self).spec_config() == old(self).spec_config(),
            final(self).spec_topology() == old(self).spec_topology(),
            final(self).spec_running() == old(self).spec_running(),
    {
        let ghost s0 = peer_views(self.peers@);
        let ghost pv = peer@;
        let mut i: usize = 0;
        while i < self.peers.len() && self.peers[i].peer_id != peer.peer_id
            invariant
                peer_views(self.peers@) == s0,
                i <= s0.len(),
                forall|k: int| 0 <= k < i ==> s0[k].peer_id != pv.peer_id,
                pv == peer@,
            decreases s0.len() - i,
        {
            i = i + 1;
        }
        if i < self.peers.len() {
            proof {
                assert(s0[i as int].peer_id == pv.peer_id);
                let c = choose|k: int| 0 <= k < s0.len() && s0[k].peer_id == pv.peer_id;
                assert(c == i);
            }
            self.peers.set(i, peer);
            assert(peer_views(self.peers@) =~= s0.update(i as int, pv));
        } else {
            self.peers.push(peer);
            assert(peer_views(self.peers@) =~= s0.push(pv));
        }
    }

    /// One round of bootstrap discovery with drawn ids: the peer at each
    /// bootstrap address is held under the id drawn for it, as a secondary
    /// node offering consensus and storage in us-west-1, seen at `now_ms`.
    /// The counters are left as they are.
    pub fn bootstrap_round(&mut self, addresses: &Vec<PeerAddress>, new_ids: &Vec<u128>, now_ms: u64)
        requires
            old(self).wf(),
            new_ids@.len() == addresses@.len(),
        ensures
            final(self).wf(),
            final(self).spec_peers() == bootstrap_learned(old(self).spec_peers(), addresses@, new_ids@, now_ms,
                addresses@.len()),
            final(self).spec_stats() == old(self).spec_stats(),
            final(self).spec_node_id() == old(self).spec_node_id(),
            final(self).spec_config() == old(self).spec_config(),
            final(self).spec_topology() == old(self).spec_topology(),
            final(self).spec_running() == old(self).spec_running(),
    {
        let ghost s0 = self.spec_peers();
        let mut k: usize = 0;
        while k < addresses.len()
            invariant
                self.wf(),
                k <= addresses@.len(),
                new_ids@.len() == addresses@.len(),
                self.spec_peers() == bootstrap_learned(s0, addresses@, new_ids@, now_ms, k as nat),
                self.spec_stats() == old(self).spec_stats(),
                self.spec_node_id() == old(self).spec_node_id(),
                self.spec_config() == old(self).spec_config(),
                self.spec_topology() == old(self).spec_topology(),
                self.spec_running() == old(self).spec_running(),
            decreases addresses@.len() - k,
        {
            let mut addrs: Vec<PeerAddress> = Vec::new();
            addrs.push(addresses[k]);
            let mut services: Vec<String> = Vec::new();
            services.push("consensus".to_owned());
            services.push("storage".to_owned());
            let peer = DiscoveredPeer {
                peer_id: new_ids[k],
                addresses: addrs,
                metadata: PeerMetadata {
                    node_type: "secondary".to_owned(),
                    protocol_version: 1,
                    services,
                    region: Some("us-west-1".to_owned()),
                    extra: Vec::new(),
                },
                discovered_at_ms: now_ms,
                last_seen_ms: Some(now_ms),
                reputation_permille: 1000,
            };
            proof {
                assert(peer@.metadata.extra =~= Seq::<(Seq<char>, Seq<char>)>::empty());
                assert(peer@.metadata.services =~= seq!["consensus"@, "storage"@]);
                assert(peer@.addresses =~= seq![addresses@[k as int]]);
                assert(peer@ == bootstrap_peer(addresses@[k as int], new_ids@[k as int], now_ms));
            }
            self.put_peer(peer);
            k = k + 1;
        }
    }

    /// Records when a discovery cycle ran.
    pub fn record_discovery_run(&mut self, now_ms: u64)
        ensures
            final(self).spec_stats() == (DiscoveryStats { last_discovery_run: Some(now_ms), ..old(self).spec_stats() }),
            final(self).spec_peers() == old(self).spec_peers(),
            final(self).wf() == old(self).wf(),
            final(self).spec_node_id() == old(self).spec_node_id(),
            final(self).spec_config() == old(self).spec_config(),
            final(self).spec_topology() == old(self).spec_topology(),
            final(self).spec_running() == old(self).spec_running(),
    {
        self.stats.last_discovery_run = Some(now_ms);
    }

    /// Adds a peer, or replaces the one with its id, and counts it as
    /// discovered.
    pub fn add_peer(&mut self, peer: DiscoveredPeer) -> (res: Result<(), NetworkError>)
        requires
            old(self).wf(),
            old(self).spec_stats().total_peers_discovered < u64::MAX,
        ensures
            res is Ok,
            final(self).wf(),
            final(self).spec_peers() == with_peer(old(self).spec_peers(), peer@),
            final(self).spec_stats().total_peers_discovered == old(self).spec_stats().total_peers_discovered + 1,
            final(self).spec_stats().active_peers == final(self).spec_peers().len(),
            final(self).spec_stats().failed_discovery_attempts == old(self).spec_stats().failed_discovery_attempts,
            final(self).spec_stats().network_formation_time == old(self).spec_stats().network_formation_time,
            final(self).spec_stats().last_discovery_run == old(self).spec_stats().last_discovery_run,
            final(self).spec_stats().discovery_methods_active == old(self).spec_stats().discovery_methods_active,
            final(self).spec_node_id() == old(self).spec_node_id(),
            final(self).spec_config() == old(self).spec_config(),
            final(self).spec_topology() == old(self).spec_topology(),
            final(self).spec_running() == old(self).spec_running(),
    {
        self.put_peer(peer);
        self.stats.total_peers_discovered = self.stats.total_peers_discovered + 1;
        self.stats.active_peers = self.peers.len();
        Ok(())
    }

    /// The known peers.
    pub fn get_peers(&self) -> (res: Vec<DiscoveredPeer>)
        ensures
            peer_views(res@) == self.spec_peers(),
    {
        let mut out: Vec<DiscoveredPeer> = Vec::new();
        let mut i: usize = 0;
        while i < self.peers.len()
            invariant
                i <= self.peers@.len(),
                out@.len() == i,
                peer_views(out@) == peer_views(self.peers@).take(i as int),
            decreases self.peers@.len() - i,
        {
            let c = self.peers[i].clone();
            let ghost before = out@;
            out.push(c);
            proof {
                assert forall|k: int| 0 <= k < i + 1 implies #[trigger] peer_views(out@)[k] == peer_views(self.peers@)[k] by {
                    if k < i {
                        assert(out@[k] == before[k]);
                        assert(peer_views(before)[k] == peer_views(self.peers@).take(i as int)[k]);
                    }
                }
            }
            i = i + 1;
            assert(peer_views(out@) =~= peer_views(self.peers@).take(i as int));
        }
        assert(peer_views(self.peers@).take(i as int) =~= peer_views(self.peers@));
        out
    }

    /// The known peers that offer a service.
    pub fn get_peers_by_service(&self, service: &str) -> (res: Vec<DiscoveredPeer>)
        ensures
            peer_views(res@) == offering(self.spec_peers(), service@),
    {
        let ghost s = peer_views(self.peers@);
        let mut out: Vec<DiscoveredPeer> = Vec::new();
        let mut i: usize = 0;
        while i < self.peers.len()
            invariant
                s == peer_views(self.peers@),
                i <= s.len(),
                peer_views(out@) == offering(s.take(i as int), service@),
            decreases s.len() - i,
        {
            assert(s.take(i + 1).drop_last() =~= s.take(i as int));
            if offers(&self.peers[i].metadata.services, service) {
                out.push(self.peers[i].clone());
                assert(peer_views(out@) =~= offering(s.take(i as int), service@).push(s[i as int]));
            }
            i = i + 1;
        }
        assert(s.take(i as int) =~= s);
        out
    }

    /// What gossip is told of the known peers: each as healthy, at no hop,
    /// updated at `now_secs`.
    pub fn gossip_infos(&self, now_secs: u64) -> (res: Vec<GossipPeerInfo>)
        ensures
            res@.len() == self.spec_peers().len(),
            forall|i: int| 0 <= i < res@.len() ==> {
                let p = self.spec_peers()[i];
                &&& (#[trigger] res@[i]).peer_id == p.peer_id
                &&& res@[i].addresses@ == p.addresses
                &&& texts(res@[i].services@) == p.metadata.services
                &&& res@[i].protocol_version == p.metadata.protocol_version
                &&& opt_text(res@[i].region) == p.metadata.region
                &&& res@[i].status == GossipStatus::Healthy
                &&& res@[i].hop_count == 0
                &&& res@[i].last_updated == now_secs
            },
    {
        let mut out: Vec<GossipPeerInfo> = Vec::new();
        let mut i: usize = 0;
        while i < self.peers.len()
            invariant
                i <= self.peers@.len(),
                out@.len() == i,
                forall|k: int| 0 <= k < i ==> {
                    let p = self.peers@[k]@;
                    &&& (#[trigger] out@[k]).peer_id == p.peer_id
                    &&& out@[k].addresses@ == p.addresses
                    &&& texts(out@[k].services@) == p.metadata.services
                    &&& out@[k].protocol_version == p.metadata.protocol_version
                    &&& opt_text(out@[k].region) == p.metadata.region
                    &&& out@[k].status == GossipStatus::Healthy
                    &&& out@[k].hop_count == 0
                    &&& out@[k].last_updated == now_secs
                },
            decreases self.peers@.len() - i,
        {
            let p = &self.peers[i];
            out.push(GossipPeerInfo {
                peer_id: p.peer_id,
                addresses: p.addresses.clone(),
                services: clone_texts(&p.metadata.services),
                protocol_version: p.metadata.protocol_version,
                region: clone_opt_text(&p.metadata.region),
                status: GossipStatus::Healthy,
                hop_count: 0,
                last_updated: now_secs,
            });
            i = i + 1;
        }
        out
    }

    /// Whether a peer with this id is known.
    fn knows(&self, id: u128) -> (res: bool)
        ensures
            res == has_peer(self.spec_peers(), id),
    {
        let mut i: usize = 0;
        while i < self.peers.len()
            invariant
                i <= self.peers@.len(),
                forall|k: int| 0 <= k < i ==> self.peers@[k].peer_id != id,
            decreases self.peers@.len() - i,
        {
            if self.peers[i].peer_id == id {
                assert(self.spec_peers()[i as int].peer_id == id);
                return true;
            }
            i = i + 1;
        }
        proof {
            if has_peer(self.spec_peers(), id) {
                let k = choose|k: int| 0 <= k < self.spec_peers().len() && self.spec_peers()[k].peer_id == id;
                assert(self.peers@[k].peer_id == id);
            }
        }
        false
    }

    /// Enters a peer last where its id is not known yet.
    fn enter_new(&mut self, peer: DiscoveredPeer)
        requires
            old(self).wf(),
        ensures
            final(self).wf(),
            final(self).spec_peers() == insert_new(old(self).spec_peers(), peer@),
            final(self).spec_stats() == old(self).spec_stats(),
            final(self).spec_node_id() == old(self).spec_node_id(),
            final(self).spec_config() == old(self).spec_config(),
            final(self).spec_topology() == old(self).spec_topology(),
            final(self).spec_running() == old(self).spec_running(),
    {
        let ghost s0 = peer_views(self.peers@);
        proof { lemma_insert_new(s0, peer@); }
        if !self.knows(peer.peer_id) {
            let ghost pv = peer@;
            self.peers.push(peer);
            assert(peer_views(self.peers@) =~= s0.push(pv));
        }
    }

    /// Enters each healthy peer that gossip reports and that is not known
    /// yet, in order, as a secondary node seen at `now_ms`. The counters
    /// are left as they are.
    pub fn learn_from_gossip(&mut self, healthy: &Vec<GossipPeerInfo>, now_ms: u64)
        requires
            old(self).wf(),
        ensures
            final(self).wf(),
            final(self).spec_peers() == learned(old(self).spec_peers(), healthy@, now_ms),
            final(self).spec_stats() == old(self).spec_stats(),
            final(self).spec_node_id() == old(self).spec_node_id(),
            final(self).spec_config() == old(self).spec_config(),
            final(self).spec_topology() == old(self).spec_topology(),
            final(self).spec_running() == old(self).spec_running(),
    {
        let ghost s0 = self.spec_peers();
        let mut i: usize = 0;
        while i < healthy.len()
            invariant
                self.wf(),
                i <= healthy@.len(),
                self.spec_peers() == learned(s0, healthy@.take(i as int), now_ms),
                self.spec_stats() == old(self).spec_stats(),
                self.spec_node_id() == old(self).spec_node_id(),
                self.spec_config() == old(self).spec_config(),
                self.spec_topology() == old(self).spec_topology(),
                self.spec_running() == old(self).spec_running(),
            decreases healthy@.len() - i,
        {
            let g = &healthy[i];
            let peer = DiscoveredPeer {
                peer_id: g.peer_id,
                addresses: g.addresses.clone(),
                metadata: PeerMetadata {
                    node_type: "secondary".to_owned(),
                    protocol_version: g.protocol_version,
                    services: clone_texts(&g.services),
                    region: clone_opt_text(&g.region),
                    extra: Vec::new(),
                },
                discovered_at_ms: now_ms,
                last_seen_ms: Some(now_ms),
                reputation_permille: 1000,
            };
            proof {
                reveal_strlit("secondary");
                assert(peer@.metadata.extra =~= Seq::<(Seq<char>, Seq<char>)>::empty());
                assert(peer@ == from_gossip(healthy@[i as int], now_ms));
                assert(healthy@.take(i + 1).drop_last() =~= healthy@.take(i as int));
            }
            self.enter_new(peer);
            i = i + 1;
        }
        assert(healthy@.take(i as int) =~= healthy@);
    }

    /// One round of gossip discovery with drawn values: exchange `k` is with
    /// the known peer at `targets[k]`, which reports a peer of id
    /// `new_ids[k]` at port 9000 plus `port_offsets[k]`; it is entered where
    /// `accepted[k]` holds and its id is not known. The counters are left
    /// as they are.
    pub fn gossip_round(
        &mut self,
        targets: &Vec<usize>,
        new_ids: &Vec<u128>,
        port_offsets: &Vec<u16>,
        accepted: &Vec<bool>,
        now_ms: u64,
    )
        requires
            old(self).wf(),
            new_ids@.len() == targets@.len(),
            port_offsets@.len() == targets@.len(),
            accepted@.len() == targets@.len(),
            forall|k: int| 0 <= k < targets@.len() ==> #[trigger] targets@[k] < old(self).spec_peers().len(),
            forall|k: int| 0 <= k < port_offsets@.len() ==> #[trigger] port_offsets@[k] < 1000,
        ensures
            final(self).wf(),
            final(self).spec_peers() == gossip_learned(old(self).spec_peers(), targets@, new_ids@, port_offsets@,
                accepted@, now_ms, targets@.len()),
            final(self).spec_stats() == old(self).spec_stats(),
            final(self).spec_node_id() == old(self).spec_node_id(),
            final(self).spec_config() == old(self).spec_config(),
            final(self).spec_topology() == old(self).spec_topology(),
            final(self).spec_running() == old(self).spec_running(),
    {
        let ghost s0 = self.spec_peers();
        let mut k: usize = 0;
        while k < targets.len()
            invariant
                self.wf(),
                k <= targets@.len(),
                new_ids@.len() == targets@.len(),
                port_offsets@.len() == targets@.len(),
                accepted@.len() == targets@.len(),
                forall|j: int| 0 <= j < targets@.len() ==> #[trigger] targets@[j] < s0.len(),
                forall|j: int| 0 <= j < port_offsets@.len() ==> #[trigger] port_offsets@[j] < 1000,
                s0.len() <= self.spec_peers().len(),
                self.spec_peers().subrange(0, s0.len() as int) == s0,
                self.spec_peers() == gossip_learned(s0, targets@, new_ids@, port_offsets@, accepted@, now_ms, k as nat),
                self.spec_stats() == old(self).spec_stats(),
                self.spec_node_id() == old(self).spec_node_id(),
                self.spec_config() == old(self).spec_config(),
                self.spec_topology() == old(self).spec_topology(),
                self.spec_running() == old(self).spec_running(),
            decreases targets@.len() - k,
        {
            if accepted[k] {
                let t = targets[k];
                assert(t < s0.len());
                assert(self.spec_peers()[t as int] == s0[t as int]);
                let offset = port_offsets[k];
                let mut addresses: Vec<PeerAddress> = Vec::new();
                addresses.push(PeerAddress::v4(127, 0, 0, 1, 9000 + offset));
                let mut services: Vec<String> = Vec::new();
                services.push("query".to_owned());
                services.push("storage".to_owned());
                let peer = DiscoveredPeer {
                    peer_id: new_ids[k],
                    addresses,
                    metadata: PeerMetadata {
                        node_type: "secondary".to_owned(),
                        protocol_version: 1,
                        services,
                        region: clone_opt_text(&self.peers[t].metadata.region),
                        extra: Vec::new(),
                    },
                    discovered_at_ms: now_ms,
                    last_seen_ms: Some(now_ms),
                    reputation_permille: 800,
                };
                proof {
                    reveal_strlit("secondary");
                    assert(peer@.metadata.extra =~= Seq::<(Seq<char>, Seq<char>)>::empty());
                    assert(peer@.metadata.services =~= seq!["query"@, "storage"@]);
                    assert(peer@.addresses =~= seq![PeerAddress { ip: PeerIp::V4(127, 0, 0, 1), port: (9000 + offset) as u16 }]);
                    assert(peer@ == reported_peer(s0[t as int].metadata.region, new_ids@[k as int], offset, now_ms));
                    lemma_insert_new(self.spec_peers(), peer@);
                }
                self.enter_new(peer);
                proof {
                    assert(self.spec_peers().subrange(0, s0.len() as int) =~= s0);
                }
            }
            k = k + 1;
        }
    }

    pub fn get_stats(&self) -> (res: DiscoveryStats)
        ensures
            res == self.spec_stats(),
    {
        self.stats
    }

    /// Whether enough peers are known to form the network.
    pub fn is_network_formed(&self) -> (res: bool)
        ensures
            res == (self.spec_peers().len() >= self.spec_config().min_peers_for_formation),
    {
        is_network_formed(self.peers.len(), &self.config)
    }

    /// The peers to connect to under the manager's topology.
    pub fn get_recommended_connections(&self) -> (res: Result<Vec<u128>, NetworkError>)
        requires
            self.wf(),
        ensures
            res matches Ok(v) && exists|pl: Seq<PeerPlacement>|
                places(pl, self.spec_peers())
                && recommended_holds(self.spec_node_id(), self.spec_topology(), pl, v@),
    {
        let ghost s = peer_views(self.peers@);
        let mut pl: Vec<PeerPlacement> = Vec::new();
        let mut i: usize = 0;
        while i < self.peers.len()
            invariant
                s == peer_views(self.peers@),
                i <= s.len(),
                places(pl@, s.take(i as int)),
            decreases s.len() - i,
        {
            let p = &self.peers[i];
            pl.push(PeerPlacement {
                peer_id: p.peer_id,
                region: clone_opt_text(&p.metadata.region),
                node_type: p.metadata.node_type.clone(),
            });
            i = i + 1;
        }
        assert(s.take(i as int) =~= s);
        assert(places(pl@, s));
        assert(placement_ids(pl@) =~= Seq::new(s.len(), |k: int| s[k].peer_id));
        let v = recommended_connections(self.node_id, &self.topology, &pl);
        assert(places(pl@, self.spec_peers()) && recommended_holds(self.node_id, self.topology, pl@, v@));
        Ok(v)
    }
}

/// Whether a list of services holds `service`.
fn offers(services: &Vec<String>, service: &str) -> (res: bool)
    ensures
        res == texts(services@).contains(service@),
{
    let mut i: usize = 0;
    while i < services.len()
        invariant
            i <= services@.len(),
            forall|k: int| 0 <= k < i ==> services@[k]@ != service@,
        decreases services@.len() - i,
    {
        if same_str(services[i].as_str(), service) {
            assert(texts(services@)[i as int] == service@);
            return true;
        }
        i = i + 1;
    }
    proof {
        if texts(services@).contains(service@) {
            let k = choose|k: int| 0 <= k < texts(services@).len() && texts(services@)[k] == service@;
            assert(services@[k]@ == service@);
        }
    }
    false
}

} // verus!
