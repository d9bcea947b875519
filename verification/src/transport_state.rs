//! The bookkeeping of a message transport: whether it runs, the peers it
//! is connected to with their traffic, and its counters. The sockets are
//! the caller's; times are milliseconds of the caller's clock.

use vstd::prelude::*;
use crate::net_error::NetworkError;
use crate::text::{concat_str, has_prefix, same_str, starts_with_text};

verus! {

/// A connected peer and the traffic with it.
#[derive(Debug)]
pub struct PeerConnection {
    pub address: String,
    pub connected_at_ms: u64,
    pub last_seen_ms: u64,
    pub messages_sent: u64,
    pub messages_received: u64,
}

/// A connected peer as values.
pub struct PeerConnectionView {
    pub address: Seq<char>,
    pub connected_at_ms: u64,
    pub last_seen_ms: u64,
    pub messages_sent: u64,
    pub messages_received: u64,
}

impl View for PeerConnection {
    type V = PeerConnectionView;

    open spec fn view(&self) -> PeerConnectionView {
        PeerConnectionView {
            address: self.address@,
            connected_at_ms: self.connected_at_ms,
            last_seen_ms: self.last_seen_ms,
            messages_sent: self.messages_sent,
            messages_received: self.messages_received,
        }
    }
}

/// Counters of a transport.
#[derive(Debug, Clone, Copy, PartialEq, Eq, Structural)]
pub struct TransportStats {
    pub messages_sent: u64,
    pub messages_received: u64,
    pub bytes_sent: u64,
    pub bytes_received: u64,
    pub connections_active: usize,
    pub connections_total: u64,
    pub errors_total: u64,
}

/// All counters at zero.
pub open spec fn zero_stats() -> TransportStats {
    TransportStats {
        messages_sent: 0,
        messages_received: 0,
        bytes_sent: 0,
        bytes_received: 0,
        connections_active: 0,
        connections_total: 0,
        errors_total: 0,
    }
}

/// Position of the peer with the address, if any.
pub open spec fn peer_at(s: Seq<PeerConnectionView>, address: Seq<char>) -> Option<int> {
    if exists|i: int| 0 <= i < s.len() && (#[trigger] s[i]).address == address {
        Some(choose|i: int| 0 <= i < s.len() && (#[trigger] s[i]).address == address)
    } else {
        None
    }
}

/// No address is listed twice.
pub open spec fn addresses_distinct(s: Seq<PeerConnectionView>) -> bool {
    forall|i: int, j: int| 0 <= i < s.len() && 0 <= j < s.len() && i != j ==> (#[trigger] s[i]).address != (#[trigger] s[j]).address
}

/// The URL dialled for an address: as given when it names the scheme
/// `tcp://`, else with that scheme put in front.
pub open spec fn dial_url(address: Seq<char>) -> Seq<char> {
    if has_prefix(address, "tcp://"@) { address } else { "tcp://"@ + address }
}

/// The URL dialled for an address.
pub fn connect_url(address: &str) -> (res: String)
    ensures
        res@ == dial_url(address@),
{
    if starts_with_text(address, "tcp://") {
        address.to_owned()
    } else {
        concat_str("tcp://", address)
    }
}

/// The state of a transport: running or not, its peers and its counters.
pub struct TransportState {
    local_address: String,
    max_message_size: usize,
    running: bool,
    peers: Vec<PeerConnection>,
    stats: TransportStats,
}

impl TransportState {
    pub closed spec fn spec_local_address(&self) -> Seq<char> {
        self.local_address@
    }

    pub closed spec fn spec_max_message_size(&self) -> usize {
        self.max_message_size
    }

    pub closed spec fn spec_running(&self) -> bool {
        self.running
    }

    /// The connected peers, in the order they connected.
    pub closed spec fn spec_peers(&self) -> Seq<PeerConnectionView> {
        self.peers@.map_values(|p: PeerConnection| p@)
    }

    /// The counters, without the number of connected peers.
    pub closed spec fn spec_stats(&self) -> TransportStats {
        self.stats
    }

    pub closed spec fn wf(&self) -> bool {
        addresses_distinct(self.spec_peers())
    }

    /// A stopped transport bound to `local_address`, with no peer and zero
    /// counters.
    pub fn new(local_address: String, max_message_size: usize) -> (res: Self)
        ensures
            res.wf(),
            res.spec_local_address() == local_address@,
            res.spec_max_message_size() == max_message_size,
            !res.spec_running(),
            res.spec_peers().len() == 0,
            res.spec_stats() == zero_stats(),
    {
        let res = TransportState {
            local_address,
            max_message_size,
            running: false,
            peers: Vec::new(),
            stats: TransportStats {
                messages_sent: 0,
                messages_received: 0,
                bytes_sent: 0,
                bytes_received: 0,
                connections_active: 0,
                connections_total: 0,
                errors_total: 0,
            },
        };
        assert(res.spec_peers() =~= Seq::<PeerConnectionView>::empty());
        res
    }

    /// The address the transport is bound to.
    pub fn local_address(&self) -> (res: String)
        ensures
            res@ == self.spec_local_address(),
    {
        self.local_address.clone()
    }

    /// Starts the transport; refused when it runs already.
    pub fn start(&mut self) -> (res: Result<(), NetworkError>)
        ensures
            old(self).spec_running() ==> res matches Err(NetworkError::TransportAlreadyRunning),
            !old(self).spec_running() ==> res is Ok,
            final(self).spec_running(),
            final(self).spec_local_address() == old(self).spec_local_address(),
            final(self).spec_max_message_size() == old(self).spec_max_message_size(),
            final(self).spec_peers() == old(self).spec_peers(),
            final(self).spec_stats() == old(self).spec_stats(),
            final(self).wf() == old(self).wf(),
    {
        if self.running {
            return Err(NetworkError::TransportAlreadyRunning);
        }
        self.running = true;
        Ok(())
    }

    /// Stops the transport and forgets its peers; refused when it is not
    /// running.
    pub fn stop(&mut self) -> (res: Result<(), NetworkError>)
        ensures
            !old(self).spec_running() ==> (res matches Err(NetworkError::TransportNotStarted) && *final(self) == *old(self)),
            old(self).spec_running() ==> res is Ok && !final(self).spec_running()
                && final(self).spec_peers().len() == 0
                && final(self).wf(),
            final(self).spec_local_address() == old(self).spec_local_address(),
            final(self).spec_max_message_size() == old(self).spec_max_message_size(),
            final(self).spec_stats() == old(self).spec_stats(),
    {
        if !self.running {
            return Err(NetworkError::TransportNotStarted);
        }
        self.running = false;
        self.peers = Vec::new();
        assert(self.spec_peers() =~= Seq::<PeerConnectionView>::empty());
        Ok(())
    }

    /// `Ok` while the transport runs; what sending and receiving need.
    pub fn ensure_running(&self) -> (res: Result<(), NetworkError>)
        ensures
            self.spec_running() ==> res is Ok,
            !self.spec_running() ==> res matches Err(NetworkError::TransportNotStarted),
    {
        if self.running { Ok(()) } else { Err(NetworkError::TransportNotStarted) }
    }

    /// Checks an encoded message against the largest size allowed.
    pub fn check_message_size(&self, size: usize) -> (res: Result<(), NetworkError>)
        ensures
            size <= self.spec_max_message_size() ==> res is Ok,
            size > self.spec_max_message_size() ==> (res matches Err(NetworkError::MessageTooLarge { size: s, max_size })
                && s == size && max_size == self.spec_max_message_size()),
    {
        if size > self.max_message_size {
            return Err(NetworkError::MessageTooLarge { size, max_size: self.max_message_size });
        }
        Ok(())
    }

    fn position(&self, address: &str) -> (res: Option<usize>)
        requires
            self.wf(),
        ensures
            match res {
                Some(i) => i < self.spec_peers().len() && peer_at(self.spec_peers(), address@) == Some(i as int),
                None => peer_at(self.spec_peers(), address@) is None,
            },
    {
        let mut i: usize = 0;
        while i < self.peers.len()
            invariant
                self.wf(),
                i <= self.peers@.len(),
                forall|j: int| 0 <= j < i ==> (#[trigger] self.spec_peers()[j]).address != address@,
            decreases self.peers@.len() - i,
        {
            if same_str(self.peers[i].address.as_str(), address) {
                proof {
                    let s = self.spec_peers();
                    assert(s[i as int].address == address@);
                    let k = choose|k: int| 0 <= k < s.len() && (#[trigger] s[k]).address == address@;
                    if k != i as int {
                        assert(s[k].address != s[i as int].address);
                    }
                }
                return Some(i);
            }
            i = i + 1;
        }
        None
    }

    /// Whether a peer with the address is connected.
    pub fn is_connected(&self, address: &str) -> (res: bool)
        requires
            self.wf(),
        ensures
            res == peer_at(self.spec_peers(), address@) is Some,
    {
        self.position(address).is_some()
    }

    /// The addresses of the connected peers, in the order they connected.
    pub fn connected_peers(&self) -> (res: Vec<String>)
        ensures
            res@.len() == self.spec_peers().len(),
            forall|i: int| 0 <= i < res@.len() ==> (#[trigger] res@[i])@ == self.spec_peers()[i].address,
    {
        let mut out: Vec<String> = Vec::new();
        let mut i: usize = 0;
        while i < self.peers.len()
            invariant
                i <= self.peers@.len(),
                out@.len() == i,
                forall|k: int| 0 <= k < i ==> (#[trigger] out@[k])@ == self.spec_peers()[k].address,
            decreases self.peers@.len() - i,
        {
            out.push(self.peers[i].address.clone());
            i = i + 1;
        }
        out
    }

    /// Records a connection to the address at `now_ms`: a fresh peer in
    /// place of any earlier one with the address; one more connection
    /// counted.
    pub fn record_connected(&mut self, address: &str, now_ms: u64)
        requires
            old(self).wf(),
        ensures
            final(self).wf(),
            final(self).spec_running() == old(self).spec_running(),
            final(self).spec_local_address() == old(self).spec_local_address(),
            final(self).spec_max_message_size() == old(self).spec_max_message_size(),
            final(self).spec_stats() == (TransportStats {
                connections_total: old(self).spec_stats().connections_total.wrapping_add(1),
                ..old(self).spec_stats()
            }),
            ({
                let fresh = PeerConnectionView {
                    address: address@,
                    connected_at_ms: now_ms,
                    last_seen_ms: now_ms,
                    messages_sent: 0,
                    messages_received: 0,
                };
                match peer_at(old(self).spec_peers(), address@) {
                    Some(i) => final(self).spec_peers() == old(self).spec_peers().update(i, fresh),
                    None => final(self).spec_peers() == old(self).spec_peers().push(fresh),
                }
            }),
    {
        let fresh = PeerConnection {
            address: address.to_owned(),
            connected_at_ms: now_ms,
            last_seen_ms: now_ms,
            messages_sent: 0,
            messages_received: 0,
        };
        let ghost before = self.spec_peers();
        match self.position(address) {
            Some(i) => {
                self.peers.set(i, fresh);
                proof {
                    assert(self.spec_peers() =~= before.update(i as int, fresh@));
                    let s = self.spec_peers();
                    assert forall|a: int, b: int| 0 <= a < s.len() && 0 <= b < s.len() && a != b implies
                        (#[trigger] s[a]).address != (#[trigger] s[b]).address by {
                        assert(before[a].address != before[b].address);
                    }
                }
            },
            None => {
                self.peers.push(fresh);
                proof {
                    assert(self.spec_peers() =~= before.push(fresh@));
                    let s = self.spec_peers();
                    assert forall|a: int, b: int| 0 <= a < s.len() && 0 <= b < s.len() && a != b implies
                        (#[trigger] s[a]).address != (#[trigger] s[b]).address by {
                        if a < before.len() && b < before.len() {
                            assert(before[a].address != before[b].address);
                        } else if a < before.len() {
                            assert(s[a] == before[a]);
                        } else {
                            assert(s[b] == before[b]);
                        }
                    }
                }
            },
        }
        self.stats.connections_total = self.stats.connections_total.wrapping_add(1);
    }

    /// Forgets the peer with the address; refused when there is none.
    pub fn disconnect(&mut self, address: &str) -> (res: Result<(), NetworkError>)
        requires
            old(self).wf(),
        ensures
            final(self).wf(),
            final(self).spec_running() == old(self).spec_running(),
            final(self).spec_local_address() == old(self).spec_local_address(),
            final(self).spec_max_message_size() == old(self).spec_max_message_size(),
            final(self).spec_stats() == old(self).spec_stats(),
            match peer_at(old(self).spec_peers(), address@) {
                Some(i) => res is Ok && final(self).spec_peers() == old(self).spec_peers().remove(i),
                None => res matches Err(NetworkError::InvalidPeerAddress { address: a }) && a@ == address@
                    && final(self).spec_peers() == old(self).spec_peers(),
            },
    {
        let ghost before = self.spec_peers();
        match self.position(address) {
            Some(i) => {
                self.peers.remove(i);
                proof {
                    assert(self.spec_peers() =~= before.remove(i as int));
                    let s = self.spec_peers();
                    assert forall|a: int, b: int| 0 <= a < s.len() && 0 <= b < s.len() && a != b implies
                        (#[trigger] s[a]).address != (#[trigger] s[b]).address by {
                        let a0 = if a < i { a } else { a + 1 };
                        let b0 = if b < i { b } else { b + 1 };
                        assert(s[a] == before[a0]);
                        assert(s[b] == before[b0]);
                        assert(before[a0].address != before[b0].address);
                    }
                }
                Ok(())
            },
            None => Err(NetworkError::InvalidPeerAddress { address: address.to_owned() }),
        }
    }

    /// Counts a message of `bytes` bytes sent, and, when it went to a known
    /// peer, that peer's traffic at `now_ms`.
    pub fn record_sent(&mut self, peer: Option<&str>, bytes: usize, now_ms: u64)
        requires
            old(self).wf(),
        ensures
            final(self).wf(),
            final(self).spec_running() == old(self).spec_running(),
            final(self).spec_local_address() == old(self).spec_local_address(),
            final(self).spec_max_message_size() == old(self).spec_max_message_size(),
            final(self).spec_stats() == (TransportStats {
                messages_sent: old(self).spec_stats().messages_sent.wrapping_add(1),
                bytes_sent: old(self).spec_stats().bytes_sent.wrapping_add(bytes as u64),
                ..old(self).spec_stats()
            }),
            match peer {
                Some(p) => match peer_at(old(self).spec_peers(), p@) {
                    Some(i) => final(self).spec_peers() == old(self).spec_peers().update(i, PeerConnectionView {
                        last_seen_ms: now_ms,
                        messages_sent: old(self).spec_peers()[i].messages_sent.wrapping_add(1),
                        ..old(self).spec_peers()[i]
                    }),
                    None => final(self).spec_peers() == old(self).spec_peers(),
                },
                None => final(self).spec_peers() == old(self).spec_peers(),
            },
    {
        if let Some(p) = peer {
            if let Some(i) = self.position(p) {
                let ghost before = self.spec_peers();
                let old_conn = self.peers.remove(i);
                let conn = PeerConnection {
                    address: old_conn.address,
                    connected_at_ms: old_conn.connected_at_ms,
                    last_seen_ms: now_ms,
                    messages_sent: old_conn.messages_sent.wrapping_add(1),
                    messages_received: old_conn.messages_received,
                };
                self.peers.insert(i, conn);
                proof {
                    assert(self.spec_peers() =~= before.update(i as int, conn@));
                    let s = self.spec_peers();
                    assert forall|a: int, b: int| 0 <= a < s.len() && 0 <= b < s.len() && a != b implies
                        (#[trigger] s[a]).address != (#[trigger] s[b]).address by {
                        assert(before[a].address != before[b].address);
                    }
                }
            }
        }
        self.stats.messages_sent = self.stats.messages_sent.wrapping_add(1);
        self.stats.bytes_sent = self.stats.bytes_sent.wrapping_add(bytes as u64);
    }

    /// Counts a message of `bytes` bytes received.
    pub fn record_received(&mut self, bytes: usize)
        ensures
            final(self).spec_stats() == (TransportStats {
                messages_received: old(self).spec_stats().messages_received.wrapping_add(1),
                bytes_received: old(self).spec_stats().bytes_received.wrapping_add(bytes as u64),
                ..old(self).spec_stats()
            }),
            final(self).spec_peers() == old(self).spec_peers(),
            final(self).spec_running() == old(self).spec_running(),
            final(self).spec_local_address() == old(self).spec_local_address(),
            final(self).spec_max_message_size() == old(self).spec_max_message_size(),
            final(self).wf() == old(self).wf(),
    {
        self.stats.messages_received = self.stats.messages_received.wrapping_add(1);
        self.stats.bytes_received = self.stats.bytes_received.wrapping_add(bytes as u64);
    }

    /// The counters, with the number of connected peers.
    pub fn stats(&self) -> (res: TransportStats)
        ensures
            res == (TransportStats { connections_active: self.spec_peers().len() as usize, ..self.spec_stats() }),
    {
        TransportStats { connections_active: self.peers.len(), ..self.stats }
    }
}

} // verus!
