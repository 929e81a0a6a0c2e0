//! Cluster roles, node state, and wire protocol.
use vstd::prelude::*;

use crate::network::IpAddress;

pub mod protocol;

pub use protocol::{ControlMessage, PairDecision, PairRequest, PairResponse};

verus! {

#[derive(Debug, Clone, Copy, PartialEq, Eq, Structural)]
pub enum NodeRole {
    Automatic,
    Main,
    Worker,
}

impl Default for NodeRole {
    fn default() -> (role: Self)
        ensures
            role == NodeRole::Automatic,
    {
        NodeRole::Automatic
    }
}

#[derive(Debug, Clone, Copy, PartialEq, Eq, Structural)]
pub enum NodeStatus {
    Discovered,
    Pairing,
    Trusted,
    Ready,
    Busy,
    Offline,
}

impl Default for NodeStatus {
    fn default() -> (status: Self)
        ensures
            status == NodeStatus::Discovered,
    {
        NodeStatus::Discovered
    }
}

/// What a node reports about itself; `id` is the node UUID as a 128-bit
/// big-endian integer.
#[derive(Debug, PartialEq, Eq)]
pub struct NodeSummary {
    pub id: u128,
    pub name: String,
    pub role: NodeRole,
    pub status: NodeStatus,
    pub addresses: Vec<IpAddress>,
    pub control_port: u16,
    pub rpc_port: u16,
    pub available_memory_bytes: u64,
    pub compute_backend: String,
}

impl Clone for NodeSummary {
    fn clone(&self) -> (copy: Self)
        ensures
            copy.id == self.id,
            copy.name == self.name,
            copy.role == self.role,
            copy.status == self.status,
            copy.addresses@ == self.addresses@,
            copy.control_port == self.control_port,
            copy.rpc_port == self.rpc_port,
            copy.available_memory_bytes == self.available_memory_bytes,
            copy.compute_backend == self.compute_backend,
    {
        let mut addresses: Vec<IpAddress> = Vec::new();
        for i in 0..self.addresses.len()
            invariant
                addresses@ == self.addresses@.take(i as int),
        {
            addresses.push(self.addresses[i]);
            proof {
                assert(self.addresses@.take(i + 1) == self.addresses@.take(i as int).push(self.addresses@[i as int]));
            }
        }
        proof {
            assert(self.addresses@.take(self.addresses@.len() as int) == self.addresses@);
        }
        NodeSummary {
            id: self.id,
            name: self.name.clone(),
            role: self.role,
            status: self.status,
            addresses,
            control_port: self.control_port,
            rpc_port: self.rpc_port,
            available_memory_bytes: self.available_memory_bytes,
            compute_backend: self.compute_backend.clone(),
        }
    }
}

impl NodeSummary {
    /// A trusted or ready node, not pinned to the main role, with memory to offer.
    pub open spec fn usable_worker(&self) -> bool {
        (self.status == NodeStatus::Trusted || self.status == NodeStatus::Ready)
            && self.role != NodeRole::Main && self.available_memory_bytes > 0
    }

    pub fn is_usable_worker(&self) -> (b: bool)
        ensures
            b == self.usable_worker(),
    {
        (self.status == NodeStatus::Trusted || self.status == NodeStatus::Ready)
            && self.role != NodeRole::Main && self.available_memory_bytes > 0
    }
}

} // verus!
