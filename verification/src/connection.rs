//! Connection bookkeeping: the connections to peers, what is known of each
//! peer, and the counters. Clocks are the caller's, in milliseconds.

use vstd::prelude::*;
use std::time::{Duration, SystemTime};
use crate::clock::{duration_from_secs, secs_duration};
use crate::ids::{random_uuid, uuid_text, uuid_to_string};
use crate::net_error::NetworkError;
use crate::peer_addr::PeerAddress;
use crate::text::concat_str;

verus! {

/// The life of a connection.
#[derive(Debug, Clone, PartialEq, Eq)]
pub enum ConnectionState {
    Connecting,
    Connected,
    Closing,
    Closed,
    Failed(String),
}

/// Health of a peer as the connections show it; a ban lasts until a time.
#[derive(Debug, Clone, Copy, PartialEq, Eq)]
pub enum PeerStatus {
    Healthy,
    Unhealthy,
    Unknown,
    Banned { until: SystemTime },
}

/// What a connection's peer tells of itself.
#[derive(Debug, Clone)]
pub struct ConnectionMetadata {
    pub protocol_version: Option<String>,
    pub user_agent: Option<String>,
    pub custom: Vec<(String, String)>,
}

impl Default for ConnectionMetadata {
    fn default() -> (res: Self)
        ensures
            res.protocol_version is None,
            res.user_agent is None,
            res.custom@.len() == 0,
    {
        ConnectionMetadata { protocol_version: None, user_agent: None, custom: Vec::new() }
    }
}

/// One connection and its traffic; times are in milliseconds of the
/// caller's clock.
#[derive(Debug, Clone)]
pub struct Connection {
    pub id: u128,
    pub peer_address: PeerAddress,
    pub state: ConnectionState,
    pub established_ms: u64,
    pub last_activity_ms: u64,
    pub messages_sent: u64,
    pub messages_received: u64,
    pub bytes_sent: u64,
    pub bytes_received: u64,
    pub metadata: ConnectionMetadata,
}

/// What is known of a peer address across its connections.
#[derive(Debug, Clone)]
pub struct PeerInfo {
    pub address: PeerAddress,
    pub peer_id: Option<String>,
    pub first_seen_ms: u64,
    pub last_connected_ms: Option<u64>,
    pub connection_count: u64,
    pub failed_attempts: u64,
    pub status: PeerStatus,
    pub capabilities: Vec<String>,
}

/// Whether a connection has been idle too long at `now_ms`: connected and
/// silent longer than `max_idle_ms`.
pub open spec fn goes_idle(c: Connection, now_ms: u64, max_idle_ms: u64) -> bool {
    c.state == ConnectionState::Connected
        && (if now_ms >= c.last_activity_ms { now_ms - c.last_activity_ms } else { 0 }) > max_idle_ms
}

/// The number of connections idle too long.
pub open spec fn idle_count(cs: Seq<Connection>, now_ms: u64, max_idle_ms: u64) -> nat
    decreases cs.len(),
{
    if cs.len() == 0 {
        0
    } else {
        idle_count(cs.drop_last(), now_ms, max_idle_ms) + if goes_idle(cs.last(), now_ms, max_idle_ms) { 1nat } else { 0nat }
    }
}

/// Whether some connection to the address has been idle too long.
pub open spec fn closed_peer(cs: Seq<Connection>, now_ms: u64, max_idle_ms: u64, a: PeerAddress) -> bool {
    exists|k: int| 0 <= k < cs.len() && #[trigger] goes_idle(cs[k], now_ms, max_idle_ms) && cs[k].peer_address == a
}

/// Counters of the connections.
#[derive(Debug, Clone, Copy)]
pub struct ConnectionStats {
    pub total_connections: u64,
    pub active_connections: u64,
    pub failed_connections: u64,
    pub total_bytes_sent: u64,
    pub total_bytes_received: u64,
    pub average_connection_duration_ms: u64,
}

/// Limits and health checking of connections.
#[derive(Debug, Clone, Copy)]
pub struct ConnectionConfig {
    pub max_connections: usize,
    pub connection_timeout: Duration,
    pub keep_alive_interval: Duration,
    pub max_idle_time: Duration,
    pub health_check_enabled: bool,
    pub health_check_interval: Duration,
    pub health_check_failure_threshold: usize,
    pub auto_reconnect: bool,
    pub max_reconnect_attempts: usize,
    pub reconnect_delay: Duration,
    pub max_reconnect_delay: Duration,
}

impl Default for ConnectionConfig {
    fn default() -> (res: Self)
        ensures
            res.max_connections == 1000,
            res.connection_timeout == secs_duration(30),
            res.keep_alive_interval == secs_duration(60),
            res.max_idle_time == secs_duration(300),
            res.health_check_enabled,
            res.health_check_interval == secs_duration(30),
            res.health_check_failure_threshold == 3,
            res.auto_reconnect,
            res.max_reconnect_attempts == 5,
            res.reconnect_delay == secs_duration(1),
            res.max_reconnect_delay == secs_duration(30),
    {
        ConnectionConfig {
            max_connections: 1000,
            connection_timeout: duration_from_secs(30),
            keep_alive_interval: duration_from_secs(60),
            max_idle_time: duration_from_secs(300),
            health_check_enabled: true,
            health_check_interval: duration_from_secs(30),
            health_check_failure_threshold: 3,
            auto_reconnect: true,
            max_reconnect_attempts: 5,
            reconnect_delay: duration_from_secs(1),
            max_reconnect_delay: duration_from_secs(30),
        }
    }
}

/// The error for an unknown connection id.
pub open spec fn unknown_connection(res: NetworkError, id: u128) -> bool {
    res matches NetworkError::InvalidPeerAddress { address } && address@ == "connection_id:"@ + uuid_text(id)
}

/// The position of a connection id.
pub open spec fn conn_index(s: Seq<Connection>, id: u128) -> Option<int> {
    if exists|i: int| 0 <= i < s.len() && s[i].id == id {
        Some(choose|i: int| 0 <= i < s.len() && s[i].id == id)
    } else {
        None
    }
}

/// A counter up by `n`, staying at the top of its range.
pub open spec fn sat_add(x: u64, n: u64) -> u64 {
    if x + n > u64::MAX { u64::MAX } else { (x + n) as u64 }
}

/// A peer first seen now through a connection.
pub open spec fn new_peer(p: PeerInfo, address: PeerAddress, now_ms: u64) -> bool {
    &&& p.address == address
    &&& p.peer_id is None
    &&& p.first_seen_ms == now_ms
    &&& p.last_connected_ms is None
    &&& p.connection_count == 0
    &&& p.failed_attempts == 0
    &&& p.status == PeerStatus::Unknown
    &&& p.capabilities@.len() == 0
}

/// A peer after one of its connections closed: a success where it was
/// connected, a failed attempt otherwise; peers of other addresses stay.
pub open spec fn peer_after_close(o: PeerInfo, c: Connection, n: PeerInfo) -> bool {
    if o.address == c.peer_address {
        &&& n.address == o.address
        &&& n.status == o.status
        &&& if c.state == ConnectionState::Connected {
            &&& n.connection_count == sat_add(o.connection_count, 1)
            &&& n.last_connected_ms == Some(c.established_ms)
            &&& n.failed_attempts == o.failed_attempts
        } else {
            &&& n.failed_attempts == sat_add(o.failed_attempts, 1)
            &&& n.connection_count == o.connection_count
            &&& n.last_connected_ms == o.last_connected_ms
        }
    } else {
        n == o
    }
}

/// A connection as its traffic shows it: all but its metadata.
pub open spec fn same_traffic(a: Connection, b: Connection) -> bool {
    &&& a.id == b.id
    &&& a.peer_address == b.peer_address
    &&& a.state == b.state
    &&& a.established_ms == b.established_ms
    &&& a.last_activity_ms == b.last_activity_ms
    &&& a.messages_sent == b.messages_sent
    &&& a.messages_received == b.messages_received
    &&& a.bytes_sent == b.bytes_sent
    &&& a.bytes_received == b.bytes_received
}

/// A peer as its record shows it: all but its id text and capabilities.
pub open spec fn same_record(a: PeerInfo, b: PeerInfo) -> bool {
    &&& a.address == b.address
    &&& a.first_seen_ms == b.first_seen_ms
    &&& a.last_connected_ms == b.last_connected_ms
    &&& a.connection_count == b.connection_count
    &&& a.failed_attempts == b.failed_attempts
    &&& a.status == b.status
}

fn copy_state(s: &ConnectionState) -> (res: ConnectionState)
    ensures
        res == *s,
{
    match s {
        ConnectionState::Connecting => ConnectionState::Connecting,
        ConnectionState::Connected => ConnectionState::Connected,
        ConnectionState::Closing => ConnectionState::Closing,
        ConnectionState::Closed => ConnectionState::Closed,
        ConnectionState::Failed(m) => ConnectionState::Failed(m.clone()),
    }
}

fn copy_connection(c: &Connection) -> (res: Connection)
    ensures
        same_traffic(res, *c),
{
    Connection {
        id: c.id,
        peer_address: c.peer_address,
        state: copy_state(&c.state),
        established_ms: c.established_ms,
        last_activity_ms: c.last_activity_ms,
        messages_sent: c.messages_sent,
        messages_received: c.messages_received,
        bytes_sent: c.bytes_sent,
        bytes_received: c.bytes_received,
        metadata: c.metadata.clone(),
    }
}

fn copy_peer(p: &PeerInfo) -> (res: PeerInfo)
    ensures
        same_record(res, *p),
{
    PeerInfo {
        address: p.address,
        peer_id: p.peer_id.clone(),
        first_seen_ms: p.first_seen_ms,
        last_connected_ms: p.last_connected_ms,
        connection_count: p.connection_count,
        failed_attempts: p.failed_attempts,
        status: p.status,
        capabilities: p.capabilities.clone(),
    }
}

/// The connections in a state, in order.
pub open spec fn connected_ones(s: Seq<Connection>) -> Seq<Connection>
    decreases s.len(),
{
    if s.len() == 0 {
        Seq::empty()
    } else if s.last().state == ConnectionState::Connected {
        connected_ones(s.drop_last()).push(s.last())
    } else {
        connected_ones(s.drop_last())
    }
}

/// The healthy peers, in order.
pub open spec fn healthy_ones(s: Seq<PeerInfo>) -> Seq<PeerInfo>
    decreases s.len(),
{
    if s.len() == 0 {
        Seq::empty()
    } else if s.last().status == PeerStatus::Healthy {
        healthy_ones(s.drop_last()).push(s.last())
    } else {
        healthy_ones(s.drop_last())
    }
}

/// A peer's status after its connection changed state: connected makes it
/// healthy; failing or closing makes a healthy peer unhealthy.
pub open spec fn status_after(old_status: PeerStatus, state: ConnectionState) -> PeerStatus {
    match state {
        ConnectionState::Connected => PeerStatus::Healthy,
        ConnectionState::Failed(_) | ConnectionState::Closed =>
            if old_status == PeerStatus::Healthy { PeerStatus::Unhealthy } else { old_status },
        _ => old_status,
    }
}

/// Tracks connections and peers.
pub struct ConnectionManager {
    connections: Vec<Connection>,
    peers: Vec<PeerInfo>,
    stats: ConnectionStats,
    config: ConnectionConfig,
}

impl ConnectionManager {
    pub closed spec fn spec_connections(&self) -> Seq<Connection> {
        self.connections@
    }

    pub closed spec fn spec_peers(&self) -> Seq<PeerInfo> {
        self.peers@
    }

    pub closed spec fn spec_stats(&self) -> ConnectionStats {
        self.stats
    }

    pub closed spec fn spec_config(&self) -> ConnectionConfig {
        self.config
    }

    /// Connection ids and peer addresses each occur once.
    pub closed spec fn wf(&self) -> bool {
        &&& forall|i: int, j: int| 0 <= i < j < self.connections@.len() ==> self.connections@[i].id != self.connections@[j].id
        &&& forall|i: int, j: int| 0 <= i < j < self.peers@.len() ==> self.peers@[i].address != self.peers@[j].address
    }

    /// No connections, no peers, zeroed counters.
    pub fn new(config: ConnectionConfig) -> (res: Self)
        ensures
            res.wf(),
            res.spec_config() == config,
            res.spec_connections().len() == 0,
            res.spec_peers().len() == 0,
            res.spec_stats() == (ConnectionStats {
                total_connections: 0,
                active_connections: 0,
                failed_connections: 0,
                total_bytes_sent: 0,
                total_bytes_received: 0,
                average_connection_duration_ms: 0,
            }),
    {
        ConnectionManager {
            connections: Vec::new(),
            peers: Vec::new(),
            stats: ConnectionStats {
                total_connections: 0,
                active_connections: 0,
                failed_connections: 0,
                total_bytes_sent: 0,
                total_bytes_received: 0,
                average_connection_duration_ms: 0,
            },
            config,
        }
    }

    fn find_connection(&self, id: u128) -> (res: Option<usize>)
        ensures
            match res {
                Some(i) => i < self.connections@.len() && self.connections@[i as int].id == id,
                None => forall|k: int| 0 <= k < self.connections@.len() ==> self.connections@[k].id != id,
            },
    {
        let mut i: usize = 0;
        while i < self.connections.len()
            invariant
                i <= self.connections@.len(),
                forall|k: int| 0 <= k < i ==> self.connections@[k].id != id,
            decreases self.connections@.len() - i,
        {
            if self.connections[i].id == id {
                return Some(i);
            }
            i = i + 1;
        }
        None
    }

    fn find_peer(&self, address: PeerAddress) -> (res: Option<usize>)
        ensures
            match res {
                Some(i) => i < self.peers@.len() && self.peers@[i as int].address == address,
                None => forall|k: int| 0 <= k < self.peers@.len() ==> self.peers@[k].address != address,
            },
    {
        let mut i: usize = 0;
        while i < self.peers.len()
            invariant
                i <= self.peers@.len(),
                forall|k: int| 0 <= k < i ==> self.peers@[k].address != address,
            decreases self.peers@.len() - i,
        {
            if self.peers[i].address == address {
                return Some(i);
            }
            i = i + 1;
        }
        None
    }

    /// Opens a connection to a peer, connecting, under a fresh random id;
    /// the peer is recorded the first time. Refused at the connection
    /// limit.
    pub fn add_connection(&mut self, peer_address: PeerAddress, now_ms: u64) -> (res: Result<u128, NetworkError>)
        requires
            old(self).wf(),
        ensures
            final(self).wf(),
            final(self).spec_config() == old(self).spec_config(),
            old(self).spec_stats().active_connections >= old(self).spec_config().max_connections ==> {
                &&& res == Err::<u128, NetworkError>(NetworkError::ConnectionLimitExceeded {
                    current: old(self).spec_stats().active_connections as usize,
                    max: old(self).spec_config().max_connections,
                })
                &&& final(self).spec_connections() == old(self).spec_connections()
                &&& final(self).spec_peers() == old(self).spec_peers()
                &&& final(self).spec_stats() == old(self).spec_stats()
            },
            old(self).spec_stats().active_connections < old(self).spec_config().max_connections ==> {
                &&& res is Ok
                &&& exists|i: int| 0 <= i < final(self).spec_connections().len()
                    && #[trigger] final(self).spec_connections()[i].id == res->Ok_0
                    && final(self).spec_connections()[i].peer_address == peer_address
                    && final(self).spec_connections()[i].state == ConnectionState::Connecting
                    && final(self).spec_connections()[i].established_ms == now_ms
                    && final(self).spec_connections()[i].bytes_sent == 0
                    && final(self).spec_connections()[i].bytes_received == 0
                    && final(self).spec_connections()[i].messages_sent == 0
                    && final(self).spec_connections()[i].messages_received == 0
                &&& (exists|i: int| 0 <= i < old(self).spec_peers().len() && #[trigger] old(self).spec_peers()[i].address == peer_address)
                    ==> final(self).spec_peers() == old(self).spec_peers()
                &&& (forall|i: int| 0 <= i < old(self).spec_peers().len() ==> #[trigger] old(self).spec_peers()[i].address != peer_address)
                    ==> final(self).spec_peers().drop_last() == old(self).spec_peers()
                        && final(self).spec_peers().len() == old(self).spec_peers().len() + 1
                        && new_peer(final(self).spec_peers().last(), peer_address, now_ms)
                &&& final(self).spec_stats() == (ConnectionStats {
                    total_connections: sat_add(old(self).spec_stats().total_connections, 1),
                    active_connections: sat_add(old(self).spec_stats().active_connections, 1),
                    ..old(self).spec_stats()
                })
            },
    {
        let active = self.stats.active_connections;
        if active >= self.config.max_connections as u64 {
            return Err(NetworkError::ConnectionLimitExceeded {
                current: active as usize,
                max: self.config.max_connections,
            });
        }
        let id = random_uuid();
        let connection = Connection {
            id,
            peer_address,
            state: ConnectionState::Connecting,
            established_ms: now_ms,
            last_activity_ms: now_ms,
            messages_sent: 0,
            messages_received: 0,
            bytes_sent: 0,
            bytes_received: 0,
            metadata: ConnectionMetadata::default(),
        };
        let ghost before = self.connections@;
        let ghost ci: int;
        match self.find_connection(id) {
            Some(i) => {
                proof { ci = i as int; }
                self.connections.set(i, connection);
                proof {
                    assert forall|a: int, b: int| 0 <= a < b < self.connections@.len()
                        implies self.connections@[a].id != self.connections@[b].id by {
                        assert(before[a].id != before[b].id);
                    }
                    assert(self.connections@[i as int].id == id);
                }
            },
            None => {
                proof { ci = before.len() as int; }
                self.connections.push(connection);
                proof {
                    assert(self.connections@[before.len() as int].id == id);
                }
            },
        }
        let ghost peers_before = self.peers@;
        match self.find_peer(peer_address) {
            Some(i) => {
                assert(self.peers@[i as int].address == peer_address);
            },
            None => {
                self.peers.push(PeerInfo {
                    address: peer_address,
                    peer_id: None,
                    first_seen_ms: now_ms,
                    last_connected_ms: None,
                    connection_count: 0,
                    failed_attempts: 0,
                    status: PeerStatus::Unknown,
                    capabilities: Vec::new(),
                });
                proof {
                    assert(self.peers@[peers_before.len() as int].address == peer_address);
                    assert(self.peers@.drop_last() =~= peers_before);
                    assert forall|a: int, b: int| 0 <= a < b < self.peers@.len()
                        implies self.peers@[a].address != self.peers@[b].address by {
                        if b == peers_before.len() {
                            assert(peers_before[a].address != peer_address);
                        }
                    }
                }
            },
        }
        self.stats.total_connections = self.stats.total_connections.saturating_add(1);
        self.stats.active_connections = self.stats.active_connections.saturating_add(1);
        proof {
            assert(self.connections@[ci].id == id);
            assert(self.connections@[ci].peer_address == peer_address);
            assert(self.connections@[ci].state == ConnectionState::Connecting);
            assert(self.connections@[ci].established_ms == now_ms);
            assert(self.connections@[ci].bytes_sent == 0 && self.connections@[ci].bytes_received == 0);
            assert(self.connections@[ci].messages_sent == 0 && self.connections@[ci].messages_received == 0);
            assert(0 <= ci < self.spec_connections().len());
            assert(self.spec_connections()[ci].id == id);
            if exists|k: int| 0 <= k < peers_before.len() && #[trigger] peers_before[k].address == peer_address {
                let k = choose|k: int| 0 <= k < peers_before.len() && #[trigger] peers_before[k].address == peer_address;
                assert(peers_before[k].address == peer_address);
            }
        }
        Ok(id)
    }

    /// A connection by id.
    pub fn get_connection(&self, connection_id: u128) -> (res: Option<Connection>)
        ensures
            match res {
                Some(c) => exists|i: int| 0 <= i < self.spec_connections().len()
                    && #[trigger] self.spec_connections()[i].id == connection_id && same_traffic(c, self.spec_connections()[i]),
                None => forall|i: int| 0 <= i < self.spec_connections().len() ==> #[trigger] self.spec_connections()[i].id != connection_id,
            },
    {
        match self.find_connection(connection_id) {
            Some(i) => Some(copy_connection(&self.connections[i])),
            None => None,
        }
    }

    /// The connected connections, in order.
    pub fn get_active_connections(&self) -> (res: Vec<Connection>)
        ensures
            res@.len() == connected_ones(self.spec_connections()).len(),
            forall|k: int| 0 <= k < res@.len() ==> same_traffic(#[trigger] res@[k], connected_ones(self.spec_connections())[k]),
    {
        let mut out: Vec<Connection> = Vec::new();
        let mut i: usize = 0;
        while i < self.connections.len()
            invariant
                i <= self.connections@.len(),
                out@.len() == connected_ones(self.connections@.subrange(0, i as int)).len(),
                forall|k: int| 0 <= k < out@.len() ==> same_traffic(#[trigger] out@[k], connected_ones(self.connections@.subrange(0, i as int))[k]),
            decreases self.connections@.len() - i,
        {
            assert(self.connections@.subrange(0, i + 1).drop_last() =~= self.connections@.subrange(0, i as int));
            let connected = match &self.connections[i].state {
                ConnectionState::Connected => true,
                _ => false,
            };
            if connected {
                out.push(copy_connection(&self.connections[i]));
            }
            i = i + 1;
        }
        assert(self.connections@.subrange(0, self.connections@.len() as int) =~= self.connections@);
        out
    }

    /// A peer by address.
    pub fn get_peer(&self, address: PeerAddress) -> (res: Option<PeerInfo>)
        ensures
            match res {
                Some(p) => exists|i: int| 0 <= i < self.spec_peers().len()
                    && #[trigger] self.spec_peers()[i].address == address && same_record(p, self.spec_peers()[i]),
                None => forall|i: int| 0 <= i < self.spec_peers().len() ==> #[trigger] self.spec_peers()[i].address != address,
            },
    {
        match self.find_peer(address) {
            Some(i) => Some(copy_peer(&self.peers[i])),
            None => None,
        }
    }

    /// All peers, in order.
    pub fn get_all_peers(&self) -> (res: Vec<PeerInfo>)
        ensures
            res@.len() == self.spec_peers().len(),
            forall|k: int| 0 <= k < res@.len() ==> same_record(#[trigger] res@[k], self.spec_peers()[k]),
    {
        let mut out: Vec<PeerInfo> = Vec::new();
        let mut i: usize = 0;
        while i < self.peers.len()
            invariant
                i <= self.peers@.len(),
                out@.len() == i,
                forall|k: int| 0 <= k < i ==> same_record(#[trigger] out@[k], self.peers@[k]),
            decreases self.peers@.len() - i,
        {
            out.push(copy_peer(&self.peers[i]));
            i = i + 1;
        }
        out
    }

    /// The healthy peers, in order.
    pub fn get_healthy_peers(&self) -> (res: Vec<PeerInfo>)
        ensures
            res@.len() == healthy_ones(self.spec_peers()).len(),
            forall|k: int| 0 <= k < res@.len() ==> same_record(#[trigger] res@[k], healthy_ones(self.spec_peers())[k]),
    {
        let mut out: Vec<PeerInfo> = Vec::new();
        let mut i: usize = 0;
        while i < self.peers.len()
            invariant
                i <= self.peers@.len(),
                out@.len() == healthy_ones(self.peers@.subrange(0, i as int)).len(),
                forall|k: int| 0 <= k < out@.len() ==> same_record(#[trigger] out@[k], healthy_ones(self.peers@.subrange(0, i as int))[k]),
            decreases self.peers@.len() - i,
        {
            assert(self.peers@.subrange(0, i + 1).drop_last() =~= self.peers@.subrange(0, i as int));
            let healthy = match self.peers[i].status {
                PeerStatus::Healthy => true,
                _ => false,
            };
            if healthy {
                out.push(copy_peer(&self.peers[i]));
            }
            i = i + 1;
        }
        assert(self.peers@.subrange(0, self.peers@.len() as int) =~= self.peers@);
        out
    }

    /// The counters.
    pub fn get_stats(&self) -> (res: ConnectionStats)
        ensures
            res == self.spec_stats(),
    {
        self.stats
    }

    /// Moves a connection to a new state and stamps its activity; its peer
    /// turns healthy when connected (recording the time where it was
    /// connecting), and a healthy peer turns unhealthy when the connection
    /// fails or closes.
    pub fn update_connection_state(&mut self, connection_id: u128, state: ConnectionState, now_ms: u64) -> (res: Result<(), NetworkError>)
        requires
            old(self).wf(),
        ensures
            final(self).wf(),
            final(self).spec_config() == old(self).spec_config(),
            final(self).spec_stats() == old(self).spec_stats(),
            (forall|k: int| 0 <= k < old(self).spec_connections().len() ==> old(self).spec_connections()[k].id != connection_id) ==> {
                &&& res is Err && unknown_connection(res->Err_0, connection_id)
                &&& final(self).spec_connections() == old(self).spec_connections()
                &&& final(self).spec_peers() == old(self).spec_peers()
            },
            (exists|k: int| 0 <= k < old(self).spec_connections().len() && old(self).spec_connections()[k].id == connection_id) ==> {
                &&& res is Ok
                &&& exists|k: int| 0 <= k < old(self).spec_connections().len()
                    && #[trigger] old(self).spec_connections()[k].id == connection_id
                    && final(self).spec_connections().len() == old(self).spec_connections().len()
                    && (forall|j: int| 0 <= j < final(self).spec_connections().len() && j != k
                        ==> #[trigger] final(self).spec_connections()[j] == old(self).spec_connections()[j])
                    && final(self).spec_connections()[k].state == state
                    && final(self).spec_connections()[k].last_activity_ms == now_ms
                    && final(self).spec_connections()[k].id == connection_id
                    && final(self).spec_connections()[k].peer_address == old(self).spec_connections()[k].peer_address
                    && final(self).spec_peers().len() == old(self).spec_peers().len()
                    && forall|p: int| 0 <= p < final(self).spec_peers().len() ==> {
                        let o = old(self).spec_peers()[p];
                        let n = #[trigger] final(self).spec_peers()[p];
                        if o.address == old(self).spec_connections()[k].peer_address {
                            &&& n.status == status_after(o.status, state)
                            &&& n.address == o.address
                            &&& n.last_connected_ms == if state == ConnectionState::Connected
                                && old(self).spec_connections()[k].state == ConnectionState::Connecting { Some(now_ms) } else { o.last_connected_ms }
                            &&& n.connection_count == o.connection_count
                            &&& n.failed_attempts == o.failed_attempts
                        } else {
                            n == o
                        }
                    }
            },
    {
        let i = match self.find_connection(connection_id) {
            Some(i) => i,
            None => {
                let text = uuid_to_string(connection_id);
                return Err(NetworkError::InvalidPeerAddress { address: concat_str("connection_id:", text.as_str()) });
            },
        };
        let ghost conns = self.connections@;
        let ghost peers_before = self.peers@;
        let mut conn = self.connections.remove(i);
        let was_connecting = match &conn.state {
            ConnectionState::Connecting => true,
            _ => false,
        };
        let now_connected = match &state {
            ConnectionState::Connected => true,
            _ => false,
        };
        let failing = match &state {
            ConnectionState::Failed(_) | ConnectionState::Closed => true,
            _ => false,
        };
        conn.state = state;
        conn.last_activity_ms = now_ms;
        let address = conn.peer_address;
        self.connections.insert(i, conn);
        proof {
            assert forall|a: int, b: int| 0 <= a < b < self.connections@.len()
                implies self.connections@[a].id != self.connections@[b].id by {
                assert(self.connections@[a].id == conns[a].id);
                assert(self.connections@[b].id == conns[b].id);
            }
        }
        match self.find_peer(address) {
            Some(p) => {
                let mut peer = self.peers.remove(p);
                if now_connected {
                    peer.status = PeerStatus::Healthy;
                    if was_connecting {
                        peer.last_connected_ms = Some(now_ms);
                    }
                } else if failing {
                    let healthy = match peer.status {
                        PeerStatus::Healthy => true,
                        _ => false,
                    };
                    if healthy {
                        peer.status = PeerStatus::Unhealthy;
                    }
                }
                self.peers.insert(p, peer);
                proof {
                    assert forall|a: int, b: int| 0 <= a < b < self.peers@.len()
                        implies self.peers@[a].address != self.peers@[b].address by {
                        assert(self.peers@[a].address == peers_before[a].address);
                        assert(self.peers@[b].address == peers_before[b].address);
                    }
                    assert forall|q: int| 0 <= q < self.peers@.len() && peers_before[q].address == address
                        implies q == p by {
                        if q != p {
                            assert(peers_before[q].address != peers_before[p as int].address);
                        }
                    }
                }
            },
            None => {},
        }
        proof {
            assert(conns[i as int].id == connection_id);
        }
        Ok(())
    }

    /// Counts traffic on a connection: bytes add up, a direction with
    /// bytes counts one message, and the totals grow.
    pub fn update_activity(&mut self, connection_id: u128, bytes_sent: u64, bytes_received: u64, now_ms: u64)
        -> (res: Result<(), NetworkError>)
        requires
            old(self).wf(),
        ensures
            final(self).wf(),
            final(self).spec_config() == old(self).spec_config(),
            final(self).spec_peers() == old(self).spec_peers(),
            (forall|k: int| 0 <= k < old(self).spec_connections().len() ==> old(self).spec_connections()[k].id != connection_id) ==> {
                &&& res is Err && unknown_connection(res->Err_0, connection_id)
                &&& final(self).spec_connections() == old(self).spec_connections()
                &&& final(self).spec_stats() == old(self).spec_stats()
            },
            (exists|k: int| 0 <= k < old(self).spec_connections().len() && old(self).spec_connections()[k].id == connection_id) ==> {
                &&& res is Ok
                &&& exists|k: int| 0 <= k < old(self).spec_connections().len()
                    && #[trigger] old(self).spec_connections()[k].id == connection_id
                    && final(self).spec_connections().len() == old(self).spec_connections().len()
                    && (forall|j: int| 0 <= j < final(self).spec_connections().len() && j != k
                        ==> #[trigger] final(self).spec_connections()[j] == old(self).spec_connections()[j])
                    && ({
                        let o = old(self).spec_connections()[k];
                        let n = final(self).spec_connections()[k];
                        &&& n.id == o.id && n.peer_address == o.peer_address && n.state == o.state
                        &&& n.established_ms == o.established_ms
                        &&& n.last_activity_ms == now_ms
                        &&& n.bytes_sent == sat_add(o.bytes_sent, bytes_sent)
                        &&& n.bytes_received == sat_add(o.bytes_received, bytes_received)
                        &&& n.messages_sent == if bytes_sent > 0 { sat_add(o.messages_sent, 1) } else { o.messages_sent }
                        &&& n.messages_received == if bytes_received > 0 { sat_add(o.messages_received, 1) } else { o.messages_received }
                    })
                &&& final(self).spec_stats() == (ConnectionStats {
                    total_bytes_sent: sat_add(old(self).spec_stats().total_bytes_sent, bytes_sent),
                    total_bytes_received: sat_add(old(self).spec_stats().total_bytes_received, bytes_received),
                    ..old(self).spec_stats()
                })
            },
    {
        let i = match self.find_connection(connection_id) {
            Some(i) => i,
            None => {
                let text = uuid_to_string(connection_id);
                return Err(NetworkError::InvalidPeerAddress { address: concat_str("connection_id:", text.as_str()) });
            },
        };
        let ghost conns = self.connections@;
        let mut conn = self.connections.remove(i);
        conn.last_activity_ms = now_ms;
        conn.bytes_sent = conn.bytes_sent.saturating_add(bytes_sent);
        conn.bytes_received = conn.bytes_received.saturating_add(bytes_received);
        if bytes_sent > 0 {
            conn.messages_sent = conn.messages_sent.saturating_add(1);
        }
        if bytes_received > 0 {
            conn.messages_received = conn.messages_received.saturating_add(1);
        }
        self.connections.insert(i, conn);
        proof {
            assert forall|a: int, b: int| 0 <= a < b < self.connections@.len()
                implies self.connections@[a].id != self.connections@[b].id by {
                assert(self.connections@[a].id == conns[a].id);
                assert(self.connections@[b].id == conns[b].id);
            }
            assert(conns[i as int].id == connection_id);
        }
        self.stats.total_bytes_sent = self.stats.total_bytes_sent.saturating_add(bytes_sent);
        self.stats.total_bytes_received = self.stats.total_bytes_received.saturating_add(bytes_received);
        Ok(())
    }

    /// Bans a known peer until the given time.
    pub fn ban_peer(&mut self, address: PeerAddress, until: SystemTime) -> (res: Result<(), NetworkError>)
        requires
            old(self).wf(),
        ensures
            final(self).wf(),
            final(self).spec_config() == old(self).spec_config(),
            final(self).spec_stats() == old(self).spec_stats(),
            final(self).spec_connections() == old(self).spec_connections(),
            (forall|k: int| 0 <= k < old(self).spec_peers().len() ==> old(self).spec_peers()[k].address != address) ==> {
                &&& res matches Err(NetworkError::InvalidPeerAddress { address: text }) && text@ == address.text()
                &&& final(self).spec_peers() == old(self).spec_peers()
            },
            (exists|k: int| 0 <= k < old(self).spec_peers().len() && old(self).spec_peers()[k].address == address) ==> {
                &&& res is Ok
                &&& exists|k: int| 0 <= k < old(self).spec_peers().len()
                    && #[trigger] old(self).spec_peers()[k].address == address
                    && final(self).spec_peers() == old(self).spec_peers().update(k,
                        PeerInfo { status: PeerStatus::Banned { until }, ..old(self).spec_peers()[k] })
            },
    {
        match self.find_peer(address) {
            Some(p) => {
                let ghost before = self.peers@;
                let mut peer = self.peers.remove(p);
                peer.status = PeerStatus::Banned { until };
                self.peers.insert(p, peer);
                proof {
                    assert(self.peers@ =~= before.update(p as int, PeerInfo { status: PeerStatus::Banned { until }, ..before[p as int] }));
                    assert forall|a: int, b: int| 0 <= a < b < self.peers@.len()
                        implies self.peers@[a].address != self.peers@[b].address by {
                        assert(self.peers@[a].address == before[a].address);
                        assert(self.peers@[b].address == before[b].address);
                    }
                }
                Ok(())
            },
            None => Err(NetworkError::InvalidPeerAddress { address: address.to_text() }),
        }
    }

    /// Marks every connection closing.
    pub fn stop(&mut self)
        requires
            old(self).wf(),
        ensures
            final(self).wf(),
            final(self).spec_config() == old(self).spec_config(),
            final(self).spec_stats() == old(self).spec_stats(),
            final(self).spec_peers() == old(self).spec_peers(),
            final(self).spec_connections().len() == old(self).spec_connections().len(),
            forall|k: int| 0 <= k < final(self).spec_connections().len() ==>
                (#[trigger] final(self).spec_connections()[k]) == (Connection { state: ConnectionState::Closing, ..old(self).spec_connections()[k] }),
    {
        let ghost before = self.connections@;
        let mut i: usize = 0;
        while i < self.connections.len()
            invariant
                i <= self.connections@.len(),
                self.connections@.len() == before.len(),
                self.peers == old(self).peers,
                self.stats == old(self).stats,
                self.config == old(self).config,
                before == old(self).connections@,
                forall|k: int| 0 <= k < i ==> self.connections@[k] == (Connection { state: ConnectionState::Closing, ..before[k] }),
                forall|k: int| i <= k < self.connections@.len() ==> self.connections@[k] == before[k],
            decreases self.connections@.len() - i,
        {
            let mut c = self.connections.remove(i);
            c.state = ConnectionState::Closing;
            self.connections.insert(i, c);
            i = i + 1;
        }
        proof {
            assert forall|a: int, b: int| 0 <= a < b < self.connections@.len()
                implies self.connections@[a].id != self.connections@[b].id by {
                assert(self.connections@[a].id == before[a].id);
                assert(self.connections@[b].id == before[b].id);
            }
        }
    }

    /// The idle check: a connected connection idle longer than `max_idle_ms`
    /// starts closing and its peer turns unhealthy. Gives how many were
    /// closed.
    pub fn close_idle(&mut self, now_ms: u64, max_idle_ms: u64) -> (res: usize)
        requires
            old(self).wf(),
        ensures
            final(self).wf(),
            final(self).spec_config() == old(self).spec_config(),
            final(self).spec_stats() == old(self).spec_stats(),
            final(self).spec_connections().len() == old(self).spec_connections().len(),
            final(self).spec_peers().len() == old(self).spec_peers().len(),
            res == idle_count(old(self).spec_connections(), now_ms, max_idle_ms),
            forall|k: int| 0 <= k < final(self).spec_peers().len() ==> #[trigger] final(self).spec_peers()[k]
                == if closed_peer(old(self).spec_connections(), now_ms, max_idle_ms, old(self).spec_peers()[k].address) {
                    PeerInfo { status: PeerStatus::Unhealthy, ..old(self).spec_peers()[k] }
                } else {
                    old(self).spec_peers()[k]
                },
            forall|k: int| 0 <= k < final(self).spec_connections().len() ==> {
                let o = old(self).spec_connections()[k];
                let n = #[trigger] final(self).spec_connections()[k];
                if o.state == ConnectionState::Connected
                    && (if now_ms >= o.last_activity_ms { now_ms - o.last_activity_ms } else { 0 }) > max_idle_ms {
                    n == (Connection { state: ConnectionState::Closing, ..o })
                } else {
                    n == o
                }
            },
    {
        let ghost before = self.connections@;
        let mut closed: usize = 0;
        let mut i: usize = 0;
        while i < self.connections.len()
            invariant
                i <= self.connections@.len(),
                self.connections@.len() == before.len(),
                self.stats == old(self).stats,
                self.config == old(self).config,
                self.peers@.len() == old(self).peers@.len(),
                forall|a: int, b: int| 0 <= a < b < self.peers@.len() ==> self.peers@[a].address != self.peers@[b].address,
                before == old(self).connections@,
                closed <= i,
                closed == idle_count(before.subrange(0, i as int), now_ms, max_idle_ms),
                forall|k: int| 0 <= k < self.peers@.len() ==> #[trigger] self.peers@[k]
                    == if closed_peer(before.subrange(0, i as int), now_ms, max_idle_ms, old(self).peers@[k].address) {
                        PeerInfo { status: PeerStatus::Unhealthy, ..old(self).peers@[k] }
                    } else {
                        old(self).peers@[k]
                    },
                forall|k: int| 0 <= k < self.connections@.len() ==> {
                    let o = before[k];
                    let n = #[trigger] self.connections@[k];
                    if k < i && o.state == ConnectionState::Connected
                        && (if now_ms >= o.last_activity_ms { now_ms - o.last_activity_ms } else { 0 }) > max_idle_ms {
                        n == (Connection { state: ConnectionState::Closing, ..o })
                    } else {
                        n == o
                    }
                },
            decreases self.connections@.len() - i,
        {
            proof {
                let t = before.subrange(0, i + 1);
                assert(t.drop_last() =~= before.subrange(0, i as int));
                assert(t.last() == before[i as int]);
                assert forall|a: PeerAddress| closed_peer(t, now_ms, max_idle_ms, a)
                    == (closed_peer(before.subrange(0, i as int), now_ms, max_idle_ms, a)
                        || (goes_idle(before[i as int], now_ms, max_idle_ms) && before[i as int].peer_address == a)) by {
                    if closed_peer(t, now_ms, max_idle_ms, a) {
                        let k = choose|k: int| 0 <= k < t.len() && #[trigger] goes_idle(t[k], now_ms, max_idle_ms) && t[k].peer_address == a;
                        if k < i {
                            assert(before.subrange(0, i as int)[k] == t[k]);
                        }
                    }
                    if closed_peer(before.subrange(0, i as int), now_ms, max_idle_ms, a) {
                        let k = choose|k: int| 0 <= k < i && #[trigger] goes_idle(before.subrange(0, i as int)[k], now_ms, max_idle_ms)
                            && before.subrange(0, i as int)[k].peer_address == a;
                        assert(t[k] == before.subrange(0, i as int)[k]);
                    }
                    if goes_idle(before[i as int], now_ms, max_idle_ms) && before[i as int].peer_address == a {
                        assert(t[i as int] == before[i as int]);
                    }
                }
            }
            proof {
                let t = before.subrange(0, i + 1);
                assert(t.drop_last() =~= before.subrange(0, i as int));
                assert(t.last() == before[i as int]);
                assert forall|a: PeerAddress| closed_peer(t, now_ms, max_idle_ms, a)
                    == (closed_peer(before.subrange(0, i as int), now_ms, max_idle_ms, a)
                        || (goes_idle(before[i as int], now_ms, max_idle_ms) && before[i as int].peer_address == a)) by {
                    if closed_peer(t, now_ms, max_idle_ms, a) {
                        let k = choose|k: int| 0 <= k < t.len() && #[trigger] goes_idle(t[k], now_ms, max_idle_ms) && t[k].peer_address == a;
                        if k < i {
                            assert(before.subrange(0, i as int)[k] == t[k]);
                        }
                    }
                    if closed_peer(before.subrange(0, i as int), now_ms, max_idle_ms, a) {
                        let k = choose|k: int| 0 <= k < i && #[trigger] goes_idle(before.subrange(0, i as int)[k], now_ms, max_idle_ms)
                            && before.subrange(0, i as int)[k].peer_address == a;
                        assert(t[k] == before.subrange(0, i as int)[k]);
                    }
                    if goes_idle(before[i as int], now_ms, max_idle_ms) && before[i as int].peer_address == a {
                        assert(t[i as int] == before[i as int]);
                    }
                }
            }
            let connected = match &self.connections[i].state {
                ConnectionState::Connected => true,
                _ => false,
            };
            let last = self.connections[i].last_activity_ms;
            let idle: u64 = if now_ms >= last { now_ms - last } else { 0 };
            if connected && idle > max_idle_ms {
                let mut c = self.connections.remove(i);
                c.state = ConnectionState::Closing;
                let address = c.peer_address;
                self.connections.insert(i, c);
                closed = closed + 1;
                match self.find_peer(address) {
                    Some(p) => {
                        let ghost pb = self.peers@;
                        let mut peer = self.peers.remove(p);
                        peer.status = PeerStatus::Unhealthy;
                        self.peers.insert(p, peer);
                        proof {
                            assert(self.peers@ =~= pb.update(p as int, PeerInfo { status: PeerStatus::Unhealthy, ..pb[p as int] }));
                            assert forall|a: int, b: int| 0 <= a < b < self.peers@.len()
                                implies self.peers@[a].address != self.peers@[b].address by {
                                assert(self.peers@[a].address == pb[a].address);
                                assert(self.peers@[b].address == pb[b].address);
                            }
                            assert forall|k: int| 0 <= k < self.peers@.len() && k != p as int
                                implies pb[k].address != address by {
                                assert(pb[k].address != pb[p as int].address);
                            }
                        }
                    },
                    None => {},
                }
            }
            i = i + 1;
        }
        proof {
            assert forall|a: int, b: int| 0 <= a < b < self.connections@.len()
                implies self.connections@[a].id != self.connections@[b].id by {
                assert(self.connections@[a].id == before[a].id);
                assert(self.connections@[b].id == before[b].id);
            }
            assert(before.subrange(0, before.len() as int) =~= before);
        }
        closed
    }

    /// Closes a connection: its peer counts a success where it was
    /// connected (and records when it was established) and a failed attempt
    /// otherwise; the connection's duration becomes the duration counter.
    pub fn remove_connection(&mut self, connection_id: u128, now_ms: u64) -> (res: Result<(), NetworkError>)
        requires
            old(self).wf(),
        ensures
            final(self).wf(),
            final(self).spec_config() == old(self).spec_config(),
            (forall|k: int| 0 <= k < old(self).spec_connections().len() ==> old(self).spec_connections()[k].id != connection_id) ==> {
                &&& res is Err && unknown_connection(res->Err_0, connection_id)
                &&& final(self).spec_connections() == old(self).spec_connections()
                &&& final(self).spec_peers() == old(self).spec_peers()
                &&& final(self).spec_stats() == old(self).spec_stats()
            },
            (exists|k: int| 0 <= k < old(self).spec_connections().len() && old(self).spec_connections()[k].id == connection_id) ==> {
                &&& res is Ok
                &&& exists|k: int| 0 <= k < old(self).spec_connections().len()
                    && #[trigger] old(self).spec_connections()[k].id == connection_id
                    && final(self).spec_connections() == old(self).spec_connections().remove(k)
                    && final(self).spec_stats().active_connections == if old(self).spec_stats().active_connections == 0 { 0 }
                        else { (old(self).spec_stats().active_connections - 1) as u64 }
                    && final(self).spec_stats().average_connection_duration_ms
                        == (if now_ms >= old(self).spec_connections()[k].established_ms {
                            now_ms - old(self).spec_connections()[k].established_ms } else { 0 }) as u64
                    && final(self).spec_peers().len() == old(self).spec_peers().len()
                    && forall|p: int| 0 <= p < final(self).spec_peers().len() ==>
                        peer_after_close(old(self).spec_peers()[p], old(self).spec_connections()[k], #[trigger] final(self).spec_peers()[p])
            },
    {
        let i = match self.find_connection(connection_id) {
            Some(i) => i,
            None => {
                let text = uuid_to_string(connection_id);
                return Err(NetworkError::InvalidPeerAddress { address: concat_str("connection_id:", text.as_str()) });
            },
        };
        let ghost conns = self.connections@;
        let ghost peers_before = self.peers@;
        let connection = self.connections.remove(i);
        proof {
            assert forall|a: int, b: int| 0 <= a < b < self.connections@.len()
                implies self.connections@[a].id != self.connections@[b].id by {
                let sa = if a < i { a } else { a + 1 };
                let sb = if b < i { b } else { b + 1 };
                assert(self.connections@[a] == conns[sa]);
                assert(self.connections@[b] == conns[sb]);
            }
        }
        match self.find_peer(connection.peer_address) {
            Some(p) => {
                let mut peer = self.peers.remove(p);
                let connected = match &connection.state {
                    ConnectionState::Connected => true,
                    _ => false,
                };
                if connected {
                    peer.connection_count = peer.connection_count.saturating_add(1);
                    peer.last_connected_ms = Some(connection.established_ms);
                } else {
                    peer.failed_attempts = peer.failed_attempts.saturating_add(1);
                }
                self.peers.insert(p, peer);
                proof {
                    assert forall|a: int, b: int| 0 <= a < b < self.peers@.len()
                        implies self.peers@[a].address != self.peers@[b].address by {
                        assert(self.peers@[a].address == peers_before[a].address);
                        assert(self.peers@[b].address == peers_before[b].address);
                    }
                    assert forall|q: int| 0 <= q < self.peers@.len() && q != p implies self.peers@[q] == peers_before[q] by {}
                    assert forall|q: int| 0 <= q < self.peers@.len() && peers_before[q].address == connection.peer_address
                        implies q == p by {
                        if q != p {
                            assert(peers_before[q].address != peers_before[p as int].address);
                        }
                    }
                }
            },
            None => {},
        }
        let duration: u64 = if now_ms >= connection.established_ms { now_ms - connection.established_ms } else { 0 };
        self.stats.average_connection_duration_ms = duration;
        self.stats.active_connections = if self.stats.active_connections == 0 { 0 } else { self.stats.active_connections - 1 };
        proof {
            assert(conns[i as int].id == connection_id);
        }
        Ok(())
    }
}

} // verus!
