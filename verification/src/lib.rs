//! Peer-to-peer networking core of a blockchain full node: a peer-discovery
//! engine, a block-header session router, a query executor and the network
//! manager that joins them.  Network transports, storage and wire framing are
//! external collaborators; what is here is the decision logic that drives
//! them, with its contracts.

pub mod behaviour;
pub mod block;
pub mod db_executor;
pub mod discovery;
pub mod hash;
pub mod network_manager;
pub mod starknet;
pub mod streamed_data;

use vstd::prelude::*;

verus! {

/// Identifier of a peer on the overlay network: an opaque stable value
/// derived from the peer's public key, here carried as its fingerprint.
#[derive(Debug, Default, Copy, Clone, Eq, PartialEq, Hash, PartialOrd, Ord, Structural)]
pub struct PeerId(pub u64);

/// Where a block query starts.
#[derive(Debug, Copy, Clone, Eq, PartialEq, Hash, Structural)]
pub enum BlockHashOrNumber {
    Hash(crate::hash::StarkHash),
    Number(crate::block::BlockNumber),
}

/// Which way a block query walks the chain.
#[derive(Debug, Copy, Clone, Eq, PartialEq, Hash, Structural)]
pub enum Direction {
    Forward,
    Backward,
}

/// A query for a range of block headers.
#[derive(Debug, Copy, Clone, Eq, PartialEq, Hash, Structural)]
pub struct BlockQuery {
    pub start_block: BlockHashOrNumber,
    pub direction: Direction,
    pub limit: u64,
    pub step: u64,
}

impl BlockQuery {
    /// A well-formed query asks for at least one header and steps by at
    /// least one block.
    pub open spec fn is_valid(&self) -> bool {
        self.limit >= 1 && self.step >= 1
    }
}

} // verus!
