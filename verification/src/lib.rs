//! Peer-to-peer content distribution core: chunk splitting with content
//! hashing, round-robin chunk-to-peer assignment, provided-content and
//! chunk-lock bookkeeping, and the decision logic of the network actor and
//! of the upload/retrieval protocols.

use vstd::prelude::*;

pub mod actor;
pub mod chunking;
pub mod content;
pub mod hashing;
pub mod ident;
pub mod node;
pub mod retrieval;
pub mod table;

verus! {

/// Errors surfaced by the distribution and retrieval paths.
#[derive(Debug)]
pub enum CoreError {
    /// A dial, listen, or outbound request failed; carries the transport's cause.
    Transport { cause: String },
    /// No provider or no cached bytes exist for the requested key.
    NotFound,
    /// Metadata or chunk storage failed.
    Storage { cause: String },
    /// A reply event arrived with no matching pending entry.
    ProtocolViolation,
    /// Distribution was asked for with no connected peers.
    NoPeers,
}

impl CoreError {
    /// A human-readable label for the error kind.
    pub fn kind_label(&self) -> (r: &'static str)
        ensures
            r@ == match self {
                CoreError::Transport { .. } => "transport error"@,
                CoreError::NotFound => "not found"@,
                CoreError::Storage { .. } => "storage error"@,
                CoreError::ProtocolViolation => "protocol violation"@,
                CoreError::NoPeers => "no available peers"@,
            },
    {
        match self {
            CoreError::Transport { .. } => "transport error",
            CoreError::NotFound => "not found",
            CoreError::Storage { .. } => "storage error",
            CoreError::ProtocolViolation => "protocol violation",
            CoreError::NoPeers => "no available peers",
        }
    }
}

} // verus!
