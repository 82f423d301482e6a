use vstd::prelude::*;

verus! {

/// A 256-bit Stark field element, stored as four 64-bit limbs with the most
/// significant limb first.  The numeric value it denotes is `as_int`.
#[derive(Debug, Default, Copy, Clone, Eq, PartialEq, Hash, PartialOrd, Ord, Structural)]
pub struct StarkFelt {
    pub l0: u64,
    pub l1: u64,
    pub l2: u64,
    pub l3: u64,
}

/// Hashes are felts; the two names mirror the two roles the value plays.
pub type StarkHash = StarkFelt;

impl StarkFelt {
    /// The mathematical value of this felt: big-endian composition of the limbs.
    pub open spec fn as_int(&self) -> int {
        ((self.l0 * 0x10000000000000000 + self.l1) * 0x10000000000000000 + self.l2)
            * 0x10000000000000000 + self.l3
    }

    pub fn from_u64(val: u64) -> (r: Self)
        ensures
            r.as_int() == val,
    {
        StarkFelt { l0: 0, l1: 0, l2: 0, l3: val }
    }
}

} // verus!
