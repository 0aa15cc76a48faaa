//! Node identity data: what role a node plays in the swarm and the
//! last-known peer identity the hosting application persists across
//! restarts.

use vstd::prelude::*;

verus! {

/// The role a node plays in the swarm.
#[derive(Clone, Copy)]
pub enum NodeType {
    /// Registers content and serves whole files.
    Provider,
    /// Holds chunk pins and serves chunk slots.
    Distributor,
    /// Only retrieves.
    Consumer,
}

/// The last-known identity of this node: its peer id, where it listened,
/// and what role it had, if one was recorded.
pub struct PeerInfo {
    pub peer_id: String,
    pub listening_addr: String,
    pub node_type: Option<NodeType>,
}

} // verus!
