//! Network counters: connections, messages, bandwidth, errors and per-peer
//! traffic. Every global counter wraps around on overflow, as an atomic
//! `fetch_add` does.

use vstd::prelude::*;
use std::time::{Duration, SystemTime};
use crate::clock::{millis_duration, secs_duration, system_now, duration_as_millis, unix_epoch};
use crate::text::same_str;

verus! {

/// `SystemTime::elapsed` in whole seconds (zero when the clock went back).
/// It depends on the clock, so nothing is stated of it.
#[verifier::external_body]
fn seconds_since(t: &SystemTime) -> (res: u64) {
    match t.elapsed() {
        Ok(d) => d.as_secs(),
        Err(_) => 0,
    }
}

/// Connection counters.
#[derive(Debug, Clone, Copy, PartialEq, Eq, Structural)]
pub struct ConnectionMetrics {
    pub total_connections: u64,
    pub active_connections: usize,
    pub connection_failures: u64,
    pub connection_timeouts: u64,
    /// Duration of the most recently closed connection, in milliseconds.
    pub avg_connection_duration_ms: u64,
    pub peak_connections: usize,
}

/// Message counters.
#[derive(Debug, Clone, Copy, PartialEq, Eq, Structural)]
pub struct MessageMetrics {
    pub messages_sent: u64,
    pub messages_received: u64,
    pub messages_dropped: u64,
    pub broadcast_messages: u64,
    pub unicast_messages: u64,
    pub send_failures: u64,
    pub receive_failures: u64,
}

/// Bandwidth counters.
#[derive(Debug, Clone, Copy, PartialEq, Eq, Structural)]
pub struct BandwidthMetrics {
    pub bytes_sent: u64,
    pub bytes_received: u64,
    pub send_rate_bps: u64,
    pub receive_rate_bps: u64,
    pub peak_send_rate_bps: u64,
    pub peak_receive_rate_bps: u64,
}

/// Error counters, by kind.
#[derive(Debug, Clone, Copy, PartialEq, Eq, Structural)]
pub struct ErrorMetrics {
    pub total_errors: u64,
    pub network_errors: u64,
    pub timeout_errors: u64,
    pub auth_errors: u64,
    pub encryption_errors: u64,
    pub serialization_errors: u64,
    pub protocol_errors: u64,
}

impl Default for ConnectionMetrics {
    fn default() -> (res: Self)
        ensures
            res == ConnectionMetrics::zero(),
    {
        ConnectionMetrics {
            total_connections: 0,
            active_connections: 0,
            connection_failures: 0,
            connection_timeouts: 0,
            avg_connection_duration_ms: 0,
            peak_connections: 0,
        }
    }
}

impl ConnectionMetrics {
    /// All counters at zero.
    pub open spec fn zero() -> ConnectionMetrics {
        ConnectionMetrics {
            total_connections: 0,
            active_connections: 0,
            connection_failures: 0,
            connection_timeouts: 0,
            avg_connection_duration_ms: 0,
            peak_connections: 0,
        }
    }
}

impl Default for MessageMetrics {
    fn default() -> (res: Self)
        ensures
            res == MessageMetrics::zero(),
    {
        MessageMetrics {
            messages_sent: 0,
            messages_received: 0,
            messages_dropped: 0,
            broadcast_messages: 0,
            unicast_messages: 0,
            send_failures: 0,
            receive_failures: 0,
        }
    }
}

impl MessageMetrics {
    /// All counters at zero.
    pub open spec fn zero() -> MessageMetrics {
        MessageMetrics {
            messages_sent: 0,
            messages_received: 0,
            messages_dropped: 0,
            broadcast_messages: 0,
            unicast_messages: 0,
            send_failures: 0,
            receive_failures: 0,
        }
    }
}

impl Default for BandwidthMetrics {
    fn default() -> (res: Self)
        ensures
            res == BandwidthMetrics::zero(),
    {
        BandwidthMetrics {
            bytes_sent: 0,
            bytes_received: 0,
            send_rate_bps: 0,
            receive_rate_bps: 0,
            peak_send_rate_bps: 0,
            peak_receive_rate_bps: 0,
        }
    }
}

impl BandwidthMetrics {
    /// All counters at zero.
    pub open spec fn zero() -> BandwidthMetrics {
        BandwidthMetrics {
            bytes_sent: 0,
            bytes_received: 0,
            send_rate_bps: 0,
            receive_rate_bps: 0,
            peak_send_rate_bps: 0,
            peak_receive_rate_bps: 0,
        }
    }
}

impl Default for ErrorMetrics {
    fn default() -> (res: Self)
        ensures
            res == ErrorMetrics::zero(),
    {
        ErrorMetrics {
            total_errors: 0,
            network_errors: 0,
            timeout_errors: 0,
            auth_errors: 0,
            encryption_errors: 0,
            serialization_errors: 0,
            protocol_errors: 0,
        }
    }
}

impl ErrorMetrics {
    /// All counters at zero.
    pub open spec fn zero() -> ErrorMetrics {
        ErrorMetrics {
            total_errors: 0,
            network_errors: 0,
            timeout_errors: 0,
            auth_errors: 0,
            encryption_errors: 0,
            serialization_errors: 0,
            protocol_errors: 0,
        }
    }
}

/// Connection counters at one moment.
#[derive(Debug, Clone, Copy, PartialEq, Eq, Structural)]
pub struct ConnectionMetricsSnapshot {
    pub total_connections: u64,
    pub active_connections: usize,
    pub connection_failures: u64,
    pub connection_timeouts: u64,
    pub avg_connection_duration_ms: u64,
    pub peak_connections: usize,
}

/// Message counters at one moment.
#[derive(Debug, Clone, Copy, PartialEq, Eq, Structural)]
pub struct MessageMetricsSnapshot {
    pub messages_sent: u64,
    pub messages_received: u64,
    pub messages_dropped: u64,
    pub broadcast_messages: u64,
    pub unicast_messages: u64,
    pub send_failures: u64,
    pub receive_failures: u64,
}

/// Bandwidth counters at one moment.
#[derive(Debug, Clone, Copy, PartialEq, Eq, Structural)]
pub struct BandwidthMetricsSnapshot {
    pub bytes_sent: u64,
    pub bytes_received: u64,
    pub send_rate_bps: u64,
    pub receive_rate_bps: u64,
    pub peak_send_rate_bps: u64,
    pub peak_receive_rate_bps: u64,
}

/// Error counters at one moment.
#[derive(Debug, Clone, Copy, PartialEq, Eq, Structural)]
pub struct ErrorMetricsSnapshot {
    pub total_errors: u64,
    pub network_errors: u64,
    pub timeout_errors: u64,
    pub auth_errors: u64,
    pub encryption_errors: u64,
    pub serialization_errors: u64,
    pub protocol_errors: u64,
}

impl ConnectionMetrics {
    pub open spec fn snapshot_spec(self) -> ConnectionMetricsSnapshot {
        ConnectionMetricsSnapshot {
            total_connections: self.total_connections,
            active_connections: self.active_connections,
            connection_failures: self.connection_failures,
            connection_timeouts: self.connection_timeouts,
            avg_connection_duration_ms: self.avg_connection_duration_ms,
            peak_connections: self.peak_connections,
        }
    }

    /// The counters as a snapshot.
    pub fn snapshot(&self) -> (res: ConnectionMetricsSnapshot)
        ensures
            res == self.snapshot_spec(),
    {
        ConnectionMetricsSnapshot {
            total_connections: self.total_connections,
            active_connections: self.active_connections,
            connection_failures: self.connection_failures,
            connection_timeouts: self.connection_timeouts,
            avg_connection_duration_ms: self.avg_connection_duration_ms,
            peak_connections: self.peak_connections,
        }
    }
}

impl MessageMetrics {
    pub open spec fn snapshot_spec(self) -> MessageMetricsSnapshot {
        MessageMetricsSnapshot {
            messages_sent: self.messages_sent,
            messages_received: self.messages_received,
            messages_dropped: self.messages_dropped,
            broadcast_messages: self.broadcast_messages,
            unicast_messages: self.unicast_messages,
            send_failures: self.send_failures,
            receive_failures: self.receive_failures,
        }
    }

    /// The counters as a snapshot.
    pub fn snapshot(&self) -> (res: MessageMetricsSnapshot)
        ensures
            res == self.snapshot_spec(),
    {
        MessageMetricsSnapshot {
            messages_sent: self.messages_sent,
            messages_received: self.messages_received,
            messages_dropped: self.messages_dropped,
            broadcast_messages: self.broadcast_messages,
            unicast_messages: self.unicast_messages,
            send_failures: self.send_failures,
            receive_failures: self.receive_failures,
        }
    }
}

impl BandwidthMetrics {
    pub open spec fn snapshot_spec(self) -> BandwidthMetricsSnapshot {
        BandwidthMetricsSnapshot {
            bytes_sent: self.bytes_sent,
            bytes_received: self.bytes_received,
            send_rate_bps: self.send_rate_bps,
            receive_rate_bps: self.receive_rate_bps,
            peak_send_rate_bps: self.peak_send_rate_bps,
            peak_receive_rate_bps: self.peak_receive_rate_bps,
        }
    }

    /// The counters as a snapshot.
    pub fn snapshot(&self) -> (res: BandwidthMetricsSnapshot)
        ensures
            res == self.snapshot_spec(),
    {
        BandwidthMetricsSnapshot {
            bytes_sent: self.bytes_sent,
            bytes_received: self.bytes_received,
            send_rate_bps: self.send_rate_bps,
            receive_rate_bps: self.receive_rate_bps,
            peak_send_rate_bps: self.peak_send_rate_bps,
            peak_receive_rate_bps: self.peak_receive_rate_bps,
        }
    }
}

impl ErrorMetrics {
    pub open spec fn snapshot_spec(self) -> ErrorMetricsSnapshot {
        ErrorMetricsSnapshot {
            total_errors: self.total_errors,
            network_errors: self.network_errors,
            timeout_errors: self.timeout_errors,
            auth_errors: self.auth_errors,
            encryption_errors: self.encryption_errors,
            serialization_errors: self.serialization_errors,
            protocol_errors: self.protocol_errors,
        }
    }

    /// The counters as a snapshot.
    pub fn snapshot(&self) -> (res: ErrorMetricsSnapshot)
        ensures
            res == self.snapshot_spec(),
    {
        ErrorMetricsSnapshot {
            total_errors: self.total_errors,
            network_errors: self.network_errors,
            timeout_errors: self.timeout_errors,
            auth_errors: self.auth_errors,
            encryption_errors: self.encryption_errors,
            serialization_errors: self.serialization_errors,
            protocol_errors: self.protocol_errors,
        }
    }
}

/// `x + by`, wrapped around at 2^64.
pub open spec fn bump(x: u64, by: u64) -> u64 {
    if x + by > u64::MAX { (x + by - 0x1_0000_0000_0000_0000) as u64 } else { (x + by) as u64 }
}

/// `x + 1`, wrapped around at `usize::MAX + 1`.
pub open spec fn bump_usize(x: usize) -> usize {
    if x == usize::MAX { 0 } else { (x + 1) as usize }
}

/// `x - 1`, wrapped around at zero.
pub open spec fn drop_usize(x: usize) -> usize {
    if x == 0 { usize::MAX } else { (x - 1) as usize }
}

/// Traffic seen with one peer. The reliability is held in thousandths.
#[derive(Debug)]
pub struct PeerMetrics {
    pub address: String,
    pub messages_sent: u64,
    pub messages_received: u64,
    pub bytes_sent: u64,
    pub bytes_received: u64,
    pub connection_attempts: u64,
    pub successful_connections: u64,
    pub failed_connections: u64,
    pub last_seen: SystemTime,
    pub reliability_permille: u64,
    pub error_count: u64,
}

/// Two peer records hold the same values.
pub open spec fn peer_same(a: PeerMetrics, b: PeerMetrics) -> bool {
    &&& a.address@ == b.address@
    &&& a.messages_sent == b.messages_sent
    &&& a.messages_received == b.messages_received
    &&& a.bytes_sent == b.bytes_sent
    &&& a.bytes_received == b.bytes_received
    &&& a.connection_attempts == b.connection_attempts
    &&& a.successful_connections == b.successful_connections
    &&& a.failed_connections == b.failed_connections
    &&& a.last_seen == b.last_seen
    &&& a.reliability_permille == b.reliability_permille
    &&& a.error_count == b.error_count
}

impl Clone for PeerMetrics {
    fn clone(&self) -> (res: Self)
        ensures
            peer_same(res, *self),
    {
        PeerMetrics {
            address: self.address.clone(),
            messages_sent: self.messages_sent,
            messages_received: self.messages_received,
            bytes_sent: self.bytes_sent,
            bytes_received: self.bytes_received,
            connection_attempts: self.connection_attempts,
            successful_connections: self.successful_connections,
            failed_connections: self.failed_connections,
            last_seen: self.last_seen.clone(),
            reliability_permille: self.reliability_permille,
            error_count: self.error_count,
        }
    }
}

impl PeerMetrics {
    /// A fresh record for `address`: no traffic, full reliability.
    pub open spec fn fresh(self, address: Seq<char>) -> bool {
        &&& self.address@ == address
        &&& self.messages_sent == 0
        &&& self.messages_received == 0
        &&& self.bytes_sent == 0
        &&& self.bytes_received == 0
        &&& self.connection_attempts == 0
        &&& self.successful_connections == 0
        &&& self.failed_connections == 0
        &&& self.reliability_permille == 1000
        &&& self.error_count == 0
    }

    /// A fresh record for `address`, last seen at the epoch.
    pub fn for_address(address: &str) -> (res: Self)
        ensures
            res.fresh(address@),
    {
        PeerMetrics {
            address: address.to_string(),
            messages_sent: 0,
            messages_received: 0,
            bytes_sent: 0,
            bytes_received: 0,
            connection_attempts: 0,
            successful_connections: 0,
            failed_connections: 0,
            last_seen: unix_epoch(),
            reliability_permille: 1000,
            error_count: 0,
        }
    }

    /// Messages exchanged with the peer, both ways.
    pub open spec fn traffic(self) -> int {
        self.messages_sent + self.messages_received
    }
}

/// The records keyed by address; each address has one record.
pub open spec fn distinct_addresses(peers: Seq<PeerMetrics>) -> bool {
    forall|i: int, j: int| 0 <= i < j < peers.len() ==> peers[i].address@ != peers[j].address@
}

/// The position of the record for `address`, if there is one.
pub open spec fn peer_position(peers: Seq<PeerMetrics>, address: Seq<char>) -> Option<int> {
    if exists|i: int| 0 <= i < peers.len() && #[trigger] peers[i].address@ == address {
        Some(choose|i: int| 0 <= i < peers.len() && #[trigger] peers[i].address@ == address)
    } else {
        None
    }
}

/// `new` is `old` with the record for `addr` at position `k`: the one that
/// was there, or a fresh one put at the end; every other record unchanged.
pub open spec fn touched(old: Seq<PeerMetrics>, new: Seq<PeerMetrics>, addr: Seq<char>, k: int) -> bool {
    &&& 0 <= k < new.len()
    &&& new[k].address@ == addr
    &&& k < old.len() ==> old[k].address@ == addr && new.len() == old.len()
    &&& k == old.len() ==> peer_position(old, addr) is None && new.len() == old.len() + 1
    &&& k <= old.len()
    &&& forall|i: int| 0 <= i < old.len() && i != k ==> peer_same(#[trigger] new[i], old[i])
    &&& distinct_addresses(new)
}

/// A field of the record at `k` before the update, or its value in a fresh
/// record when the record is new.
pub open spec fn prior(old: Seq<PeerMetrics>, k: int, field: spec_fn(PeerMetrics) -> u64, fresh_value: u64) -> u64 {
    if k < old.len() { field(old[k]) } else { fresh_value }
}

/// Whether position `j` is listed in `r`.
pub open spec fn listed(r: Seq<usize>, j: int) -> bool {
    exists|a: int| 0 <= a < r.len() && r[a] == j
}

/// `r` lists `min(limit, peers.len())` distinct positions of `peers`, in
/// order of falling traffic, and no unlisted peer has more traffic than a
/// listed one: the busiest peers, busiest first.
pub open spec fn busiest(peers: Seq<PeerMetrics>, limit: nat, r: Seq<usize>) -> bool {
    &&& r.len() == if peers.len() < limit { peers.len() } else { limit }
    &&& forall|a: int| 0 <= a < r.len() ==> r[a] < peers.len()
    &&& forall|a: int, b: int| 0 <= a < b < r.len() ==> r[a] != r[b]
    &&& forall|a: int, b: int| 0 <= a < b < r.len() ==> peers[r[a] as int].traffic() >= peers[r[b] as int].traffic()
    &&& forall|j: int, a: int| 0 <= j < peers.len() && !listed(r, j) && 0 <= a < r.len()
        ==> peers[r[a] as int].traffic() >= peers[j].traffic()
}

/// The share, in thousandths, of `total` messages that did not fail when
/// `errors` of them did (none when the errors reach the total).
pub open spec fn reliability(total: int, errors: int) -> u64 {
    if errors >= total { 0 } else { ((total - errors) * 1000 / total) as u64 }
}

fn reliability_of(total: u128, errors: u64) -> (res: u64)
    requires
        0 < total <= 2 * (u64::MAX as int),
    ensures
        res == reliability(total as int, errors as int),
{
    if errors as u128 >= total {
        0
    } else {
        let ok = total - errors as u128;
        proof {
            assert(ok * 1000 <= total * 1000) by (nonlinear_arith)
                requires ok <= total;
            assert((ok as int) * 1000 / (total as int) <= 1000) by (nonlinear_arith)
                requires ok <= total, total > 0;
        }
        ((ok * 1000) / total) as u64
    }
}

fn traffic_of(p: &PeerMetrics) -> (res: u128)
    ensures
        res == p.traffic(),
{
    p.messages_sent as u128 + p.messages_received as u128
}

/// The positions of the `limit` busiest peers, busiest first; among peers
/// with equal traffic the earlier comes first.
pub fn busiest_positions(peers: &Vec<PeerMetrics>, limit: usize) -> (res: Vec<usize>)
    ensures
        busiest(peers@, limit as nat, res@),
{
    let n = peers.len();
    let mut res: Vec<usize> = Vec::new();
    let mut i: usize = 0;
    while i < n
        invariant
            n == peers@.len(),
            i <= n,
            res@.len() == if i < limit { i as int } else { limit as int },
            forall|a: int| 0 <= a < res@.len() ==> res@[a] < i,
            forall|a: int, b: int| 0 <= a < b < res@.len() ==> res@[a] != res@[b],
            forall|a: int, b: int| 0 <= a < b < res@.len()
                ==> peers@[res@[a] as int].traffic() >= peers@[res@[b] as int].traffic(),
            forall|j: int, a: int| 0 <= j < i && !listed(res@, j) && 0 <= a < res@.len()
                ==> peers@[res@[a] as int].traffic() >= peers@[j].traffic(),
            res@.len() < limit ==> forall|j: int| 0 <= j < i ==> listed(res@, j),
        decreases n - i,
    {
        let t = traffic_of(&peers[i]);
        let mut p: usize = 0;
        while p < res.len() && traffic_of(&peers[res[p]]) >= t
            invariant
                p <= res@.len(),
                n == peers@.len(),
                i < n,
                t == peers@[i as int].traffic(),
                forall|a: int| 0 <= a < res@.len() ==> res@[a] < i,
                forall|a: int| 0 <= a < p ==> peers@[res@[a] as int].traffic() >= t,
            decreases res@.len() - p,
        {
            p = p + 1;
        }
        let ghost old_res = res@;
        if p < limit {
            proof {
                old_res.insert_ensures(p as int, i);
            }
            res.insert(p, i);
            let ghost ins = res@;
            if res.len() > limit {
                res.pop();
            }
            proof {
                assert forall|j: int| 0 <= j < i && listed(old_res, j) && j != old_res[old_res.len() - 1]
                    implies listed(res@, j) by {
                    let a = choose|a: int| 0 <= a < old_res.len() && old_res[a] == j;
                    if a < p {
                        assert(res@[a] == j);
                    } else {
                        assert(ins[a + 1] == j);
                        if old_res.len() == limit {
                            assert(a != old_res.len() - 1);
                        }
                        assert(res@[a + 1] == j);
                    }
                }
                assert(res@[p as int] == i);
                assert(listed(res@, i as int));
                assert forall|j: int, a: int| 0 <= j < i + 1 && !listed(res@, j) && 0 <= a < res@.len()
                    implies peers@[res@[a] as int].traffic() >= peers@[j].traffic() by {
                    let last = old_res.len() - 1;
                    assert(j != i);
                    assert(old_res.len() == limit) by {
                        if old_res.len() < limit {
                            assert(listed(old_res, j));
                            assert(res@ == ins);
                            let b = choose|b: int| 0 <= b < old_res.len() && old_res[b] == j;
                            if b < p {
                                assert(res@[b] == j);
                            } else {
                                assert(res@[b + 1] == j);
                            }
                        }
                    }
                    assert(p <= last);
                    assert(peers@[old_res[p as int] as int].traffic() < t);
                    if listed(old_res, j) {
                        assert(j == old_res[last]);
                        if p < last {
                            assert(peers@[old_res[p as int] as int].traffic() >= peers@[old_res[last] as int].traffic());
                        }
                    } else {
                        assert(peers@[old_res[p as int] as int].traffic() >= peers@[j].traffic());
                    }
                    assert(peers@[j].traffic() < t);
                    if a < p {
                        assert(res@[a] == old_res[a]);
                        if a < last {
                            assert(peers@[old_res[a] as int].traffic() >= peers@[old_res[last] as int].traffic());
                        }
                    } else if a > p {
                        assert(res@[a] == old_res[a - 1]);
                        if a - 1 < last {
                            assert(peers@[old_res[a - 1] as int].traffic() >= peers@[old_res[last] as int].traffic());
                        }
                    }
                }
                if old_res.len() < limit {
                    assert(res@ == ins);
                    assert forall|j: int| 0 <= j < i implies listed(res@, j) by {
                        assert(listed(old_res, j));
                        let a = choose|a: int| 0 <= a < old_res.len() && old_res[a] == j;
                        if a < p {
                            assert(res@[a] == j);
                        } else {
                            assert(res@[a + 1] == j);
                        }
                    }
                }
            }
        } else {
            proof {
                assert(p == res@.len());
                assert(forall|a: int| 0 <= a < res@.len() ==> peers@[res@[a] as int].traffic() >= t);
                assert(!listed(res@, i as int));
            }
        }
        i = i + 1;
    }
    res
}

/// `new` is `old` after a message of `bytes` bytes sent to `addr` was added
/// to the record at `k`.
pub open spec fn sent_recorded(old: Seq<PeerMetrics>, new: Seq<PeerMetrics>, addr: Seq<char>, bytes: u64, k: int) -> bool {
    let rec = new[k];
    &&& touched(old, new, addr, k)
    &&& rec.messages_sent == bump(prior(old, k, |p: PeerMetrics| p.messages_sent, 0), 1)
    &&& rec.bytes_sent == bump(prior(old, k, |p: PeerMetrics| p.bytes_sent, 0), bytes)
    &&& rec.messages_received == prior(old, k, |p: PeerMetrics| p.messages_received, 0)
    &&& rec.bytes_received == prior(old, k, |p: PeerMetrics| p.bytes_received, 0)
    &&& rec.connection_attempts == prior(old, k, |p: PeerMetrics| p.connection_attempts, 0)
    &&& rec.successful_connections == prior(old, k, |p: PeerMetrics| p.successful_connections, 0)
    &&& rec.failed_connections == prior(old, k, |p: PeerMetrics| p.failed_connections, 0)
    &&& rec.reliability_permille == prior(old, k, |p: PeerMetrics| p.reliability_permille, 1000)
    &&& rec.error_count == prior(old, k, |p: PeerMetrics| p.error_count, 0)
}

/// `new` is `old` after a message of `bytes` bytes received from `addr` was
/// added to the record at `k`.
pub open spec fn received_recorded(old: Seq<PeerMetrics>, new: Seq<PeerMetrics>, addr: Seq<char>, bytes: u64, k: int) -> bool {
    let rec = new[k];
    &&& touched(old, new, addr, k)
    &&& rec.messages_received == bump(prior(old, k, |p: PeerMetrics| p.messages_received, 0), 1)
    &&& rec.bytes_received == bump(prior(old, k, |p: PeerMetrics| p.bytes_received, 0), bytes)
    &&& rec.messages_sent == prior(old, k, |p: PeerMetrics| p.messages_sent, 0)
    &&& rec.bytes_sent == prior(old, k, |p: PeerMetrics| p.bytes_sent, 0)
    &&& rec.connection_attempts == prior(old, k, |p: PeerMetrics| p.connection_attempts, 0)
    &&& rec.successful_connections == prior(old, k, |p: PeerMetrics| p.successful_connections, 0)
    &&& rec.failed_connections == prior(old, k, |p: PeerMetrics| p.failed_connections, 0)
    &&& rec.reliability_permille == prior(old, k, |p: PeerMetrics| p.reliability_permille, 1000)
    &&& rec.error_count == prior(old, k, |p: PeerMetrics| p.error_count, 0)
}

/// `new` is `old` after a failed send to `addr` was added to the record at
/// `k`: one more error, and the reliability recomputed when messages were
/// exchanged with the peer.
pub open spec fn failure_recorded(old: Seq<PeerMetrics>, new: Seq<PeerMetrics>, addr: Seq<char>, k: int) -> bool {
    let rec = new[k];
    &&& touched(old, new, addr, k)
    &&& rec.error_count == bump(prior(old, k, |p: PeerMetrics| p.error_count, 0), 1)
    &&& rec.messages_sent == prior(old, k, |p: PeerMetrics| p.messages_sent, 0)
    &&& rec.messages_received == prior(old, k, |p: PeerMetrics| p.messages_received, 0)
    &&& rec.bytes_sent == prior(old, k, |p: PeerMetrics| p.bytes_sent, 0)
    &&& rec.bytes_received == prior(old, k, |p: PeerMetrics| p.bytes_received, 0)
    &&& rec.connection_attempts == prior(old, k, |p: PeerMetrics| p.connection_attempts, 0)
    &&& rec.successful_connections == prior(old, k, |p: PeerMetrics| p.successful_connections, 0)
    &&& rec.failed_connections == prior(old, k, |p: PeerMetrics| p.failed_connections, 0)
    &&& k < old.len() ==> rec.last_seen == old[k].last_seen
    &&& rec.reliability_permille == if rec.traffic() > 0 {
            reliability(rec.traffic(), rec.error_count as int)
        } else {
            prior(old, k, |p: PeerMetrics| p.reliability_permille, 1000)
        }
}

/// The counters at one moment, with the busiest peers.
#[derive(Debug)]
pub struct NetworkMetricsSnapshot {
    pub timestamp: SystemTime,
    pub uptime_seconds: u64,
    pub connections: ConnectionMetricsSnapshot,
    pub messages: MessageMetricsSnapshot,
    pub bandwidth: BandwidthMetricsSnapshot,
    pub errors: ErrorMetricsSnapshot,
    pub top_peers: Vec<PeerMetrics>,
}

/// Counters of the network layer, with a record per peer.
#[derive(Debug)]
pub struct NetworkMetrics {
    connection_metrics: ConnectionMetrics,
    message_metrics: MessageMetrics,
    bandwidth_metrics: BandwidthMetrics,
    error_metrics: ErrorMetrics,
    peer_metrics: Vec<PeerMetrics>,
    start_time: SystemTime,
}

impl NetworkMetrics {
    pub closed spec fn spec_connections(&self) -> ConnectionMetrics {
        self.connection_metrics
    }

    pub closed spec fn spec_messages(&self) -> MessageMetrics {
        self.message_metrics
    }

    pub closed spec fn spec_bandwidth(&self) -> BandwidthMetrics {
        self.bandwidth_metrics
    }

    pub closed spec fn spec_errors(&self) -> ErrorMetrics {
        self.error_metrics
    }

    pub closed spec fn spec_peers(&self) -> Seq<PeerMetrics> {
        self.peer_metrics@
    }

    pub closed spec fn spec_start(&self) -> SystemTime {
        self.start_time
    }

    /// Each peer address has one record.
    pub open spec fn wf(&self) -> bool {
        distinct_addresses(self.spec_peers())
    }

    /// All counters zero, no peer records, started now.
    pub fn new() -> (res: Self)
        ensures
            res.wf(),
            res.spec_connections() == ConnectionMetrics::zero(),
            res.spec_messages() == MessageMetrics::zero(),
            res.spec_bandwidth() == BandwidthMetrics::zero(),
            res.spec_errors() == ErrorMetrics::zero(),
            res.spec_peers().len() == 0,
    {
        NetworkMetrics {
            connection_metrics: ConnectionMetrics::default(),
            message_metrics: MessageMetrics::default(),
            bandwidth_metrics: BandwidthMetrics::default(),
            error_metrics: ErrorMetrics::default(),
            peer_metrics: Vec::new(),
            start_time: system_now(),
        }
    }

    /// Counts an established connection and raises the peak when the
    /// number of active connections passes it.
    pub fn record_connection_established(&mut self)
        ensures
            final(self).spec_connections() == (ConnectionMetrics {
                total_connections: bump(old(self).spec_connections().total_connections, 1),
                active_connections: bump_usize(old(self).spec_connections().active_connections),
                peak_connections: if bump_usize(old(self).spec_connections().active_connections)
                    > old(self).spec_connections().peak_connections {
                    bump_usize(old(self).spec_connections().active_connections)
                } else {
                    old(self).spec_connections().peak_connections
                },
                ..old(self).spec_connections()
            }),
            final(self).spec_messages() == old(self).spec_messages(),
            final(self).spec_bandwidth() == old(self).spec_bandwidth(),
            final(self).spec_errors() == old(self).spec_errors(),
            final(self).spec_peers() == old(self).spec_peers(),
            final(self).spec_start() == old(self).spec_start(),
    {
        self.connection_metrics.total_connections = self.connection_metrics.total_connections.wrapping_add(1);
        let current = self.connection_metrics.active_connections.wrapping_add(1);
        self.connection_metrics.active_connections = current;
        if current > self.connection_metrics.peak_connections {
            self.connection_metrics.peak_connections = current;
        }
    }

    /// Counts a closed connection and keeps its duration, in milliseconds,
    /// as the latest duration.
    pub fn record_connection_closed(&mut self, duration: Duration)
        ensures
            final(self).spec_connections().active_connections == drop_usize(old(self).spec_connections().active_connections),
            forall|ms: u64| duration == millis_duration(ms)
                ==> final(self).spec_connections().avg_connection_duration_ms == ms,
            forall|s: u64| duration == secs_duration(s) && s * 1000 <= u64::MAX
                ==> final(self).spec_connections().avg_connection_duration_ms == s * 1000,
            final(self).spec_connections().total_connections == old(self).spec_connections().total_connections,
            final(self).spec_connections().connection_failures == old(self).spec_connections().connection_failures,
            final(self).spec_connections().connection_timeouts == old(self).spec_connections().connection_timeouts,
            final(self).spec_connections().peak_connections == old(self).spec_connections().peak_connections,
            final(self).spec_messages() == old(self).spec_messages(),
            final(self).spec_bandwidth() == old(self).spec_bandwidth(),
            final(self).spec_errors() == old(self).spec_errors(),
            final(self).spec_peers() == old(self).spec_peers(),
            final(self).spec_start() == old(self).spec_start(),
    {
        self.connection_metrics.active_connections = self.connection_metrics.active_connections.wrapping_sub(1);
        self.connection_metrics.avg_connection_duration_ms = duration_as_millis(&duration);
    }

    /// Counts a failed connection attempt.
    pub fn record_connection_failure(&mut self)
        ensures
            final(self).spec_connections() == (ConnectionMetrics {
                connection_failures: bump(old(self).spec_connections().connection_failures, 1),
                ..old(self).spec_connections()
            }),
            final(self).spec_messages() == old(self).spec_messages(),
            final(self).spec_bandwidth() == old(self).spec_bandwidth(),
            final(self).spec_errors() == old(self).spec_errors(),
            final(self).spec_peers() == old(self).spec_peers(),
            final(self).spec_start() == old(self).spec_start(),
    {
        self.connection_metrics.connection_failures = self.connection_metrics.connection_failures.wrapping_add(1);
    }

    /// Counts a connection attempt that timed out.
    pub fn record_connection_timeout(&mut self)
        ensures
            final(self).spec_connections() == (ConnectionMetrics {
                connection_timeouts: bump(old(self).spec_connections().connection_timeouts, 1),
                ..old(self).spec_connections()
            }),
            final(self).spec_messages() == old(self).spec_messages(),
            final(self).spec_bandwidth() == old(self).spec_bandwidth(),
            final(self).spec_errors() == old(self).spec_errors(),
            final(self).spec_peers() == old(self).spec_peers(),
            final(self).spec_start() == old(self).spec_start(),
    {
        self.connection_metrics.connection_timeouts = self.connection_metrics.connection_timeouts.wrapping_add(1);
    }

    /// Counts a dropped message.
    pub fn record_message_dropped(&mut self)
        ensures
            final(self).spec_messages() == (MessageMetrics {
                messages_dropped: bump(old(self).spec_messages().messages_dropped, 1),
                ..old(self).spec_messages()
            }),
            final(self).spec_connections() == old(self).spec_connections(),
            final(self).spec_bandwidth() == old(self).spec_bandwidth(),
            final(self).spec_errors() == old(self).spec_errors(),
            final(self).spec_peers() == old(self).spec_peers(),
            final(self).spec_start() == old(self).spec_start(),
    {
        self.message_metrics.messages_dropped = self.message_metrics.messages_dropped.wrapping_add(1);
    }

    /// Counts a message that could not be received.
    pub fn record_receive_failure(&mut self)
        ensures
            final(self).spec_messages() == (MessageMetrics {
                receive_failures: bump(old(self).spec_messages().receive_failures, 1),
                ..old(self).spec_messages()
            }),
            final(self).spec_connections() == old(self).spec_connections(),
            final(self).spec_bandwidth() == old(self).spec_bandwidth(),
            final(self).spec_errors() == old(self).spec_errors(),
            final(self).spec_peers() == old(self).spec_peers(),
            final(self).spec_start() == old(self).spec_start(),
    {
        self.message_metrics.receive_failures = self.message_metrics.receive_failures.wrapping_add(1);
    }

    /// The position of the record for `peer`, putting a fresh one at the end
    /// when there is none.
    fn peer_slot(&mut self, peer: &str) -> (k: usize)
        requires
            old(self).wf(),
        ensures
            touched(old(self).spec_peers(), final(self).spec_peers(), peer@, k as int),
            k == old(self).spec_peers().len() ==> final(self).spec_peers()[k as int].fresh(peer@),
            k < old(self).spec_peers().len() ==> final(self).spec_peers() == old(self).spec_peers(),
            final(self).spec_connections() == old(self).spec_connections(),
            final(self).spec_messages() == old(self).spec_messages(),
            final(self).spec_bandwidth() == old(self).spec_bandwidth(),
            final(self).spec_errors() == old(self).spec_errors(),
            final(self).spec_start() == old(self).spec_start(),
    {
        let mut i: usize = 0;
        while i < self.peer_metrics.len()
            invariant
                i <= self.peer_metrics@.len(),
                *self == *old(self),
                distinct_addresses(self.peer_metrics@),
                forall|j: int| 0 <= j < i ==> self.peer_metrics@[j].address@ != peer@,
            decreases self.peer_metrics@.len() - i,
        {
            if same_str(self.peer_metrics[i].address.as_str(), peer) {
                return i;
            }
            i = i + 1;
        }
        proof {
            assert(!exists|j: int| 0 <= j < self.peer_metrics@.len() && #[trigger] self.peer_metrics@[j].address@ == peer@);
        }
        self.peer_metrics.push(PeerMetrics::for_address(peer));
        i
    }

    /// Counts a message sent to `peer`, of `bytes` bytes, as a broadcast or
    /// a unicast, and adds it to the peer's record, which is made when the
    /// peer has none.
    pub fn record_message_sent(&mut self, peer: &str, bytes: u64, is_broadcast: bool)
        requires
            old(self).wf(),
        ensures
            final(self).wf(),
            final(self).spec_messages() == (MessageMetrics {
                messages_sent: bump(old(self).spec_messages().messages_sent, 1),
                broadcast_messages: if is_broadcast { bump(old(self).spec_messages().broadcast_messages, 1) }
                    else { old(self).spec_messages().broadcast_messages },
                unicast_messages: if is_broadcast { old(self).spec_messages().unicast_messages }
                    else { bump(old(self).spec_messages().unicast_messages, 1) },
                ..old(self).spec_messages()
            }),
            final(self).spec_bandwidth() == (BandwidthMetrics {
                bytes_sent: bump(old(self).spec_bandwidth().bytes_sent, bytes),
                ..old(self).spec_bandwidth()
            }),
            final(self).spec_connections() == old(self).spec_connections(),
            final(self).spec_errors() == old(self).spec_errors(),
            final(self).spec_start() == old(self).spec_start(),
            exists|k: int| sent_recorded(old(self).spec_peers(), #[trigger] final(self).spec_peers(), peer@, bytes, k),
    {
        self.message_metrics.messages_sent = self.message_metrics.messages_sent.wrapping_add(1);
        self.bandwidth_metrics.bytes_sent = self.bandwidth_metrics.bytes_sent.wrapping_add(bytes);
        if is_broadcast {
            self.message_metrics.broadcast_messages = self.message_metrics.broadcast_messages.wrapping_add(1);
        } else {
            self.message_metrics.unicast_messages = self.message_metrics.unicast_messages.wrapping_add(1);
        }
        let ghost old_peers = self.peer_metrics@;
        let k = self.peer_slot(peer);
        let mut rec = self.peer_metrics[k].clone();
        rec.messages_sent = rec.messages_sent.wrapping_add(1);
        rec.bytes_sent = rec.bytes_sent.wrapping_add(bytes);
        rec.last_seen = system_now();
        let ghost new_rec = rec;
        self.peer_metrics.set(k, rec);
        proof {
            assert(touched(old_peers, self.peer_metrics@, peer@, k as int));
            assert(self.peer_metrics@[k as int] == new_rec);
            assert(sent_recorded(old_peers, self.spec_peers(), peer@, bytes, k as int));
        }
    }

    /// Counts a message received from `peer`, of `bytes` bytes, and adds it
    /// to the peer's record, which is made when the peer has none.
    pub fn record_message_received(&mut self, peer: &str, bytes: u64)
        requires
            old(self).wf(),
        ensures
            final(self).wf(),
            final(self).spec_messages() == (MessageMetrics {
                messages_received: bump(old(self).spec_messages().messages_received, 1),
                ..old(self).spec_messages()
            }),
            final(self).spec_bandwidth() == (BandwidthMetrics {
                bytes_received: bump(old(self).spec_bandwidth().bytes_received, bytes),
                ..old(self).spec_bandwidth()
            }),
            final(self).spec_connections() == old(self).spec_connections(),
            final(self).spec_errors() == old(self).spec_errors(),
            final(self).spec_start() == old(self).spec_start(),
            exists|k: int| received_recorded(old(self).spec_peers(), #[trigger] final(self).spec_peers(), peer@, bytes, k),
    {
        self.message_metrics.messages_received = self.message_metrics.messages_received.wrapping_add(1);
        self.bandwidth_metrics.bytes_received = self.bandwidth_metrics.bytes_received.wrapping_add(bytes);
        let ghost old_peers = self.peer_metrics@;
        let k = self.peer_slot(peer);
        let mut rec = self.peer_metrics[k].clone();
        rec.messages_received = rec.messages_received.wrapping_add(1);
        rec.bytes_received = rec.bytes_received.wrapping_add(bytes);
        rec.last_seen = system_now();
        let ghost new_rec = rec;
        self.peer_metrics.set(k, rec);
        proof {
            assert(touched(old_peers, self.peer_metrics@, peer@, k as int));
            assert(self.peer_metrics@[k as int] == new_rec);
            assert(received_recorded(old_peers, self.spec_peers(), peer@, bytes, k as int));
        }
    }

    /// Counts a failed send to `peer`, adds it to the peer's errors and, when
    /// messages were exchanged with the peer, sets its reliability to the
    /// share of them that did not fail.
    pub fn record_send_failure(&mut self, peer: &str)
        requires
            old(self).wf(),
        ensures
            final(self).wf(),
            final(self).spec_messages() == (MessageMetrics {
                send_failures: bump(old(self).spec_messages().send_failures, 1),
                ..old(self).spec_messages()
            }),
            final(self).spec_connections() == old(self).spec_connections(),
            final(self).spec_bandwidth() == old(self).spec_bandwidth(),
            final(self).spec_errors() == old(self).spec_errors(),
            final(self).spec_start() == old(self).spec_start(),
            exists|k: int| failure_recorded(old(self).spec_peers(), #[trigger] final(self).spec_peers(), peer@, k),
    {
        self.message_metrics.send_failures = self.message_metrics.send_failures.wrapping_add(1);
        let ghost old_peers = self.peer_metrics@;
        let k = self.peer_slot(peer);
        let mut rec = self.peer_metrics[k].clone();
        rec.error_count = rec.error_count.wrapping_add(1);
        let total = traffic_of(&rec);
        if total > 0 {
            rec.reliability_permille = reliability_of(total, rec.error_count);
        }
        let ghost new_rec = rec;
        self.peer_metrics.set(k, rec);
        proof {
            assert(touched(old_peers, self.peer_metrics@, peer@, k as int));
            assert(self.peer_metrics@[k as int] == new_rec);
            assert(failure_recorded(old_peers, self.spec_peers(), peer@, k as int));
        }
    }

    /// Counts an error, and also by its kind when the kind is one of
    /// "network", "timeout", "auth", "encryption", "serialization" and
    /// "protocol".
    pub fn record_error(&mut self, error_type: &str)
        ensures
            final(self).spec_errors() == (ErrorMetrics {
                total_errors: bump(old(self).spec_errors().total_errors, 1),
                network_errors: bump(old(self).spec_errors().network_errors,
                    if error_type@ == "network"@ { 1 } else { 0 }),
                timeout_errors: bump(old(self).spec_errors().timeout_errors,
                    if error_type@ == "timeout"@ { 1 } else { 0 }),
                auth_errors: bump(old(self).spec_errors().auth_errors,
                    if error_type@ == "auth"@ { 1 } else { 0 }),
                encryption_errors: bump(old(self).spec_errors().encryption_errors,
                    if error_type@ == "encryption"@ { 1 } else { 0 }),
                serialization_errors: bump(old(self).spec_errors().serialization_errors,
                    if error_type@ == "serialization"@ { 1 } else { 0 }),
                protocol_errors: bump(old(self).spec_errors().protocol_errors,
                    if error_type@ == "protocol"@ { 1 } else { 0 }),
            }),
            final(self).spec_connections() == old(self).spec_connections(),
            final(self).spec_messages() == old(self).spec_messages(),
            final(self).spec_bandwidth() == old(self).spec_bandwidth(),
            final(self).spec_peers() == old(self).spec_peers(),
            final(self).spec_start() == old(self).spec_start(),
    {
        proof {
            reveal_strlit("network");
            reveal_strlit("timeout");
            reveal_strlit("auth");
            reveal_strlit("encryption");
            reveal_strlit("serialization");
            reveal_strlit("protocol");
        }
        self.error_metrics.total_errors = self.error_metrics.total_errors.wrapping_add(1);
        if same_str(error_type, "network") {
            self.error_metrics.network_errors = self.error_metrics.network_errors.wrapping_add(1);
        }
        if same_str(error_type, "timeout") {
            self.error_metrics.timeout_errors = self.error_metrics.timeout_errors.wrapping_add(1);
        }
        if same_str(error_type, "auth") {
            self.error_metrics.auth_errors = self.error_metrics.auth_errors.wrapping_add(1);
        }
        if same_str(error_type, "encryption") {
            self.error_metrics.encryption_errors = self.error_metrics.encryption_errors.wrapping_add(1);
        }
        if same_str(error_type, "serialization") {
            self.error_metrics.serialization_errors = self.error_metrics.serialization_errors.wrapping_add(1);
        }
        if same_str(error_type, "protocol") {
            self.error_metrics.protocol_errors = self.error_metrics.protocol_errors.wrapping_add(1);
        }
    }

    /// Sets the current rates and raises the peaks they pass.
    pub fn update_bandwidth_rates(&mut self, send_rate_bps: u64, receive_rate_bps: u64)
        ensures
            final(self).spec_bandwidth() == (BandwidthMetrics {
                send_rate_bps: send_rate_bps,
                receive_rate_bps: receive_rate_bps,
                peak_send_rate_bps: if send_rate_bps > old(self).spec_bandwidth().peak_send_rate_bps {
                    send_rate_bps
                } else {
                    old(self).spec_bandwidth().peak_send_rate_bps
                },
                peak_receive_rate_bps: if receive_rate_bps > old(self).spec_bandwidth().peak_receive_rate_bps {
                    receive_rate_bps
                } else {
                    old(self).spec_bandwidth().peak_receive_rate_bps
                },
                ..old(self).spec_bandwidth()
            }),
            final(self).spec_connections() == old(self).spec_connections(),
            final(self).spec_messages() == old(self).spec_messages(),
            final(self).spec_errors() == old(self).spec_errors(),
            final(self).spec_peers() == old(self).spec_peers(),
            final(self).spec_start() == old(self).spec_start(),
    {
        self.bandwidth_metrics.send_rate_bps = send_rate_bps;
        self.bandwidth_metrics.receive_rate_bps = receive_rate_bps;
        if send_rate_bps > self.bandwidth_metrics.peak_send_rate_bps {
            self.bandwidth_metrics.peak_send_rate_bps = send_rate_bps;
        }
        if receive_rate_bps > self.bandwidth_metrics.peak_receive_rate_bps {
            self.bandwidth_metrics.peak_receive_rate_bps = receive_rate_bps;
        }
    }

    /// Zeroes every counter and forgets every peer.
    pub fn reset(&mut self)
        ensures
            final(self).wf(),
            final(self).spec_connections() == ConnectionMetrics::zero(),
            final(self).spec_messages() == MessageMetrics::zero(),
            final(self).spec_bandwidth() == BandwidthMetrics::zero(),
            final(self).spec_errors() == ErrorMetrics::zero(),
            final(self).spec_peers().len() == 0,
            final(self).spec_start() == old(self).spec_start(),
    {
        self.connection_metrics = ConnectionMetrics::default();
        self.message_metrics = MessageMetrics::default();
        self.bandwidth_metrics = BandwidthMetrics::default();
        self.error_metrics = ErrorMetrics::default();
        self.peer_metrics = Vec::new();
    }

    /// The record of `peer`, if it has one.
    pub fn get_peer_metrics(&self, peer: &str) -> (res: Option<PeerMetrics>)
        requires
            self.wf(),
        ensures
            match peer_position(self.spec_peers(), peer@) {
                Some(k) => res is Some && peer_same(res->Some_0, self.spec_peers()[k]),
                None => res is None,
            },
    {
        let mut i: usize = 0;
        while i < self.peer_metrics.len()
            invariant
                i <= self.peer_metrics@.len(),
                distinct_addresses(self.peer_metrics@),
                forall|j: int| 0 <= j < i ==> self.peer_metrics@[j].address@ != peer@,
            decreases self.peer_metrics@.len() - i,
        {
            if same_str(self.peer_metrics[i].address.as_str(), peer) {
                let ghost k = peer_position(self.spec_peers(), peer@)->Some_0;
                assert(self.peer_metrics@[i as int].address@ == peer@);
                return Some(self.peer_metrics[i].clone());
            }
            i = i + 1;
        }
        None
    }

    /// Copies of every peer record, in the order the peers were first seen.
    pub fn get_all_peer_metrics(&self) -> (res: Vec<PeerMetrics>)
        ensures
            res@.len() == self.spec_peers().len(),
            forall|k: int| 0 <= k < res@.len() ==> peer_same(#[trigger] res@[k], self.spec_peers()[k]),
    {
        let mut out: Vec<PeerMetrics> = Vec::new();
        let mut i: usize = 0;
        while i < self.peer_metrics.len()
            invariant
                i <= self.peer_metrics@.len(),
                out@.len() == i,
                forall|k: int| 0 <= k < i ==> peer_same(#[trigger] out@[k], self.peer_metrics@[k]),
            decreases self.peer_metrics@.len() - i,
        {
            out.push(self.peer_metrics[i].clone());
            i = i + 1;
        }
        out
    }

    /// The counters now, with the ten busiest peers, busiest first.
    pub fn snapshot(&self) -> (res: NetworkMetricsSnapshot)
        ensures
            res.connections == self.spec_connections().snapshot_spec(),
            res.messages == self.spec_messages().snapshot_spec(),
            res.bandwidth == self.spec_bandwidth().snapshot_spec(),
            res.errors == self.spec_errors().snapshot_spec(),
            exists|r: Seq<usize>| {
                &&& #[trigger] busiest(self.spec_peers(), 10, r)
                &&& res.top_peers@.len() == r.len()
                &&& forall|a: int| 0 <= a < r.len() ==> peer_same(#[trigger] res.top_peers@[a], self.spec_peers()[r[a] as int])
            },
    {
        let positions = busiest_positions(&self.peer_metrics, 10);
        let mut top: Vec<PeerMetrics> = Vec::new();
        let mut a: usize = 0;
        while a < positions.len()
            invariant
                busiest(self.peer_metrics@, 10, positions@),
                a <= positions@.len(),
                top@.len() == a,
                forall|b: int| 0 <= b < a ==> peer_same(#[trigger] top@[b], self.peer_metrics@[positions@[b] as int]),
            decreases positions@.len() - a,
        {
            top.push(self.peer_metrics[positions[a]].clone());
            a = a + 1;
        }
        let res = NetworkMetricsSnapshot {
            timestamp: system_now(),
            uptime_seconds: seconds_since(&self.start_time),
            connections: self.connection_metrics.snapshot(),
            messages: self.message_metrics.snapshot(),
            bandwidth: self.bandwidth_metrics.snapshot(),
            errors: self.error_metrics.snapshot(),
            top_peers: top,
        };
        proof {
            let r = positions@;
            assert(busiest(self.spec_peers(), 10, r));
            assert(res.top_peers@.len() == r.len());
            assert(forall|a: int| 0 <= a < r.len() ==> peer_same(#[trigger] res.top_peers@[a], self.spec_peers()[r[a] as int]));
        }
        res
    }
}

impl Default for NetworkMetrics {
    fn default() -> (res: Self)
        ensures
            res.wf(),
            res.spec_connections() == ConnectionMetrics::zero(),
            res.spec_messages() == MessageMetrics::zero(),
            res.spec_bandwidth() == BandwidthMetrics::zero(),
            res.spec_errors() == ErrorMetrics::zero(),
            res.spec_peers().len() == 0,
    {
        NetworkMetrics::new()
    }
}

} // verus!
