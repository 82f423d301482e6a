use papyrus_network::hash::StarkFelt;
use papyrus_network::starknet::{
    ClassHash, ContractAddress, Nonce, PatriciaKey, StarknetApiError,
};

fn felt(l0: u64, l3: u64) -> StarkFelt {
    StarkFelt { l0, l1: 0, l2: 0, l3 }
}

#[test]
fn patricia_key_accepts_values_below_the_bound() {
    let key = PatriciaKey::new(felt(0, 17)).unwrap();
    assert_eq!(*key.key(), felt(0, 17));

    // The largest admissible value: every limb maximal below 2^251.
    let top = StarkFelt { l0: 0x07FF_FFFF_FFFF_FFFF, l1: u64::MAX, l2: u64::MAX, l3: u64::MAX };
    let key = PatriciaKey::new(top).unwrap();
    assert_eq!(*key.key(), top);
}

#[test]
fn patricia_key_rejects_the_bound_and_above() {
    // Exactly 2^251.
    let bound = felt(0x0800_0000_0000_0000, 0);
    assert_eq!(PatriciaKey::new(bound), Err(StarknetApiError::OutOfRange));

    let above = StarkFelt { l0: u64::MAX, l1: 1, l2: 2, l3: 3 };
    assert_eq!(PatriciaKey::new(above), Err(StarknetApiError::OutOfRange));
}

#[test]
fn contract_address_wraps_its_key() {
    let key = PatriciaKey::new(felt(1, 2)).unwrap();
    let address = ContractAddress::new(felt(1, 2)).unwrap();
    assert_eq!(*address.contract_address(), key);
    assert_eq!(
        ContractAddress::new(felt(0x0800_0000_0000_0000, 0)),
        Err(StarknetApiError::OutOfRange),
    );
}

#[test]
fn class_hash_wraps_its_hash() {
    let hash = felt(5, 6);
    let class_hash = ClassHash::new(hash);
    assert_eq!(*class_hash.class_hash(), hash);
}

#[test]
fn nonce_wraps_its_felt_and_defaults_to_zero() {
    let value = felt(0, 42);
    let nonce = Nonce::new(value);
    assert_eq!(*nonce.nonce(), value);

    let zero: Nonce = Default::default();
    assert_eq!(*zero.nonce(), StarkFelt::from_u64(0));
    assert_eq!(StarkFelt::from_u64(0), felt(0, 0));
}
