//! Node identity and status.

use vstd::prelude::*;
use crate::ids::{random_uuid_string, uuid_text};

verus! {

/// Unique identifier of a node in the cluster.
#[derive(Debug, Hash)]
pub struct NodeId(String);

impl View for NodeId {
    type V = Seq<char>;

    closed spec fn view(&self) -> Seq<char> {
        self.0@
    }
}

impl PartialEq for NodeId {
    fn eq(&self, other: &Self) -> (res: bool) {
        self.0 == other.0
    }
}

impl vstd::std_specs::cmp::PartialEqSpecImpl for NodeId {
    open spec fn obeys_eq_spec() -> bool {
        true
    }

    open spec fn eq_spec(&self, other: &Self) -> bool {
        self@ == other@
    }
}

impl Eq for NodeId {}


impl Clone for NodeId {
    fn clone(&self) -> (res: Self)
        ensures
            res@ == self@,
    {
        NodeId(self.0.clone())
    }
}

impl NodeId {
    /// Creates a node identifier from the given text.
    pub fn new(id: &str) -> (res: NodeId)
        ensures
            res@ == id@,
    {
        NodeId(id.to_owned())
    }

    /// Creates a node identifier from the given text.
    pub fn from(id: &str) -> (res: NodeId)
        ensures
            res@ == id@,
    {
        NodeId(id.to_owned())
    }

    /// Creates a node identifier that owns the given string.
    pub fn from_string(id: String) -> (res: NodeId)
        ensures
            res@ == id@,
    {
        NodeId(id)
    }

    /// The identifier's text.
    pub fn as_str(&self) -> (res: &str)
        ensures
            res@ == self@,
    {
        self.0.as_str()
    }

    /// The identifier's text, as an owned string.
    pub fn into_string(self) -> (res: String)
        ensures
            res@ == self@,
    {
        self.0
    }

    /// A fresh identifier: a random UUID in its hyphenated text form.
    pub fn random() -> (res: NodeId)
        ensures
            exists|v: u128| res@ == uuid_text(v),
    {
        NodeId(random_uuid_string())
    }

    /// The identifier's text, as a new string.
    pub fn to_string(&self) -> (res: String)
        ensures
            res@ == self@,
    {
        self.0.clone()
    }

    /// Compares two identifiers by their text.
    pub fn same_as(&self, other: &NodeId) -> (res: bool)
        ensures
            res == (self@ == other@),
    {
        self.0 == other.0
    }
}

/// Current status of a node.
#[derive(Debug, Clone, Copy, PartialEq, Eq, Structural)]
pub enum NodeStatus {
    Healthy,
    Degraded,
    Failed,
    Unavailable,
    Joining,
    Leaving,
}

impl Default for NodeStatus {
    fn default() -> (res: Self)
        ensures
            res == NodeStatus::Healthy,
    {
        NodeStatus::Healthy
    }
}

impl NodeStatus {
    /// Healthy and degraded nodes serve requests.
    pub fn is_available(&self) -> (res: bool)
        ensures
            res == (*self == NodeStatus::Healthy || *self == NodeStatus::Degraded),
    {
        match self {
            NodeStatus::Healthy | NodeStatus::Degraded => true,
            _ => false,
        }
    }

    /// Only healthy nodes take part in consensus.
    pub fn can_participate(&self) -> (res: bool)
        ensures
            res == (*self == NodeStatus::Healthy),
    {
        match self {
            NodeStatus::Healthy => true,
            _ => false,
        }
    }
}

} // verus!
