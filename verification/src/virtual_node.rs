//! Virtual nodes: positions of a physical node on the hash ring.

use vstd::prelude::*;
use crate::node::NodeId;
use std::cmp::Ordering;

verus! {

/// A position on the ring owned by a physical node. Virtual nodes compare
/// by their hash alone.
#[derive(Debug)]
pub struct VirtualNode {
    pub hash: u64,
    pub node_id: NodeId,
    pub index: usize,
}

/// What a virtual node is: its position, its physical node and its index
/// among that node's virtual nodes.
pub struct RingEntry {
    pub hash: u64,
    pub node: Seq<char>,
    pub index: usize,
}

impl View for VirtualNode {
    type V = RingEntry;

    open spec fn view(&self) -> RingEntry {
        RingEntry { hash: self.hash, node: self.node_id@, index: self.index }
    }
}

impl Clone for VirtualNode {
    fn clone(&self) -> (res: Self)
        ensures
            res@ == self@,
    {
        VirtualNode { hash: self.hash, node_id: self.node_id.clone(), index: self.index }
    }
}

impl VirtualNode {
    /// Creates a virtual node.
    pub fn new(hash: u64, node_id: NodeId, index: usize) -> (res: VirtualNode)
        ensures
            res@ == (RingEntry { hash, node: node_id@, index }),
    {
        VirtualNode { hash, node_id, index }
    }
}

impl PartialEq for VirtualNode {
    fn eq(&self, other: &Self) -> (res: bool) {
        self.hash == other.hash
    }
}

impl vstd::std_specs::cmp::PartialEqSpecImpl for VirtualNode {
    open spec fn obeys_eq_spec() -> bool {
        true
    }

    open spec fn eq_spec(&self, other: &Self) -> bool {
        self.hash == other.hash
    }
}

impl Eq for VirtualNode {}

/// The ordering of two hashes as a three-way comparison.
pub open spec fn hash_order(a: u64, b: u64) -> Option<Ordering> {
    if a < b {
        Some(Ordering::Less)
    } else if a == b {
        Some(Ordering::Equal)
    } else {
        Some(Ordering::Greater)
    }
}

impl PartialOrd for VirtualNode {
    fn partial_cmp(&self, other: &Self) -> (res: Option<Ordering>) {
        if self.hash < other.hash {
            Some(Ordering::Less)
        } else if self.hash == other.hash {
            Some(Ordering::Equal)
        } else {
            Some(Ordering::Greater)
        }
    }
}

impl vstd::std_specs::cmp::PartialOrdSpecImpl for VirtualNode {
    open spec fn obeys_partial_cmp_spec() -> bool {
        true
    }

    open spec fn partial_cmp_spec(&self, other: &Self) -> Option<Ordering> {
        hash_order(self.hash, other.hash)
    }
}

} // verus!
