use vstd::prelude::*;

use crate::hash::StarkFelt;

verus! {

/// The height of a block in the chain.
#[derive(Debug, Default, Copy, Clone, Eq, PartialEq, Hash, PartialOrd, Ord, Structural)]
pub struct BlockNumber(pub u64);

/// The part of a block header that the header-transfer engine reads.
#[derive(Debug, Default, Copy, Clone, Eq, PartialEq, Hash, Structural)]
pub struct BlockHeader {
    pub block_number: BlockNumber,
}

/// A consensus signature over a block: two felts.
#[derive(Debug, Default, Copy, Clone, Eq, PartialEq, Hash, Structural)]
pub struct Signature {
    pub r: StarkFelt,
    pub s: StarkFelt,
}

} // verus!
