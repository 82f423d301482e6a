use vstd::prelude::*;

use crate::hash::{StarkFelt, StarkHash};

verus! {

/// Errors of the chain-level value types.
#[derive(Debug, Clone, Copy, PartialEq, Eq, Structural)]
pub enum StarknetApiError {
    /// A value was outside the range its type admits.
    OutOfRange,
}

/// Patricia key upper bound: 2^251.
pub open spec fn patricia_key_upper_bound() -> int {
    0x800000000000000000000000000000000000000000000000000000000000000int
}

/// A key in a Starknet Patricia tree; always below `patricia_key_upper_bound`.
#[derive(Copy, Clone, Eq, PartialEq, Default, Hash, PartialOrd, Ord, Debug)]
pub struct PatriciaKey(StarkHash);

impl PatriciaKey {
    /// The hash this key wraps.
    pub closed spec fn spec_key(&self) -> StarkHash {
        self.0
    }

    /// A key denotes a value below 2^251.
    pub open spec fn wf(&self) -> bool {
        self.spec_key().as_int() < patricia_key_upper_bound()
    }

    pub fn new(hash: StarkHash) -> (r: Result<PatriciaKey, StarknetApiError>)
        ensures
            hash.as_int() < patricia_key_upper_bound() ==> (r matches Ok(k)
                && k.spec_key() == hash && k.wf()),
            hash.as_int() >= patricia_key_upper_bound() ==> (r matches Err(e)
                && e == StarknetApiError::OutOfRange),
    {
        proof {
            lemma_patricia_bound_by_top_limb(hash);
        }
        if hash.l0 >= 0x0800000000000000 {
            return Err(StarknetApiError::OutOfRange);
        }
        Ok(PatriciaKey(hash))
    }

    pub fn key(&self) -> (r: &StarkHash)
        ensures
            *r == self.spec_key(),
    {
        &self.0
    }
}

/// A felt is below 2^251 exactly when its most significant limb is below 2^59.
proof fn lemma_patricia_bound_by_top_limb(h: StarkFelt)
    ensures
        h.as_int() < patricia_key_upper_bound() <==> h.l0 < 0x0800000000000000,
{
}

/// The address of a Starknet contract.
#[derive(Debug, Default, Copy, Clone, Eq, PartialEq, Hash, PartialOrd, Ord)]
pub struct ContractAddress(PatriciaKey);

impl ContractAddress {
    /// An address is a Patricia key: any hash below the key bound.
    pub fn new(hash: StarkHash) -> (r: Result<Self, StarknetApiError>)
        ensures
            hash.as_int() < patricia_key_upper_bound() ==> (r matches Ok(a)
                && a.spec_contract_address().spec_key() == hash),
            hash.as_int() >= patricia_key_upper_bound() ==> (r matches Err(e)
                && e == StarknetApiError::OutOfRange),
    {
        match PatriciaKey::new(hash) {
            Ok(key) => Ok(ContractAddress(key)),
            Err(e) => Err(e),
        }
    }

    /// The key this address wraps.
    pub closed spec fn spec_contract_address(&self) -> PatriciaKey {
        self.0
    }

    pub fn contract_address(&self) -> (r: &PatriciaKey)
        ensures
            *r == self.spec_contract_address(),
    {
        &self.0
    }
}

/// The hash of a Starknet contract class.
#[derive(Debug, Default, Copy, Clone, Eq, PartialEq, Hash, PartialOrd, Ord)]
pub struct ClassHash(StarkHash);

impl ClassHash {
    pub fn new(hash: StarkHash) -> (r: Self)
        ensures
            r.spec_class_hash() == hash,
    {
        ClassHash(hash)
    }

    /// The hash this class hash wraps.
    pub closed spec fn spec_class_hash(&self) -> StarkHash {
        self.0
    }

    pub fn class_hash(&self) -> (r: &StarkHash)
        ensures
            *r == self.spec_class_hash(),
    {
        &self.0
    }
}

/// The nonce of a Starknet contract.
#[derive(Debug, Copy, Clone, Eq, PartialEq, Hash, PartialOrd, Ord)]
pub struct Nonce(StarkFelt);

impl Nonce {
    pub fn new(felt: StarkFelt) -> (r: Self)
        ensures
            r.spec_nonce() == felt,
    {
        Nonce(felt)
    }

    /// The felt this nonce wraps.
    pub closed spec fn spec_nonce(&self) -> StarkFelt {
        self.0
    }

    pub fn nonce(&self) -> (r: &StarkFelt)
        ensures
            *r == self.spec_nonce(),
    {
        &self.0
    }
}

impl Default for Nonce {
    /// The default nonce is zero.
    fn default() -> (r: Self)
        ensures
            r.spec_nonce().as_int() == 0,
    {
        Nonce(StarkFelt::from_u64(0))
    }
}

} // verus!
