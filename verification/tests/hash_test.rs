use r55::hash::{
    append_bytes, get_mapping_slot, get_selector_from_sig, mapping_slot_preimage,
    selector_from_digest,
};
use r55::word::U256;

#[test]
fn selector_of_transfer() {
    assert_eq!(get_selector_from_sig("transfer(address,uint256)"), [0xa9, 0x05, 0x9c, 0xbb]);
}

#[test]
fn selector_of_balance_of() {
    assert_eq!(get_selector_from_sig("balanceOf(address)"), [0x70, 0xa0, 0x82, 0x31]);
}

#[test]
fn selector_of_approve_and_total_supply() {
    assert_eq!(get_selector_from_sig("approve(address,uint256)"), [0x09, 0x5e, 0xa7, 0xb3]);
    assert_eq!(get_selector_from_sig("totalSupply()"), [0x18, 0x16, 0x0d, 0xdd]);
}

#[test]
fn selector_is_the_start_of_the_digest() {
    for sig in ["mint(address,uint256)", "f()", "g(bool,bytes32)", "x_balance_of(address,address)"] {
        let digest = alloy_core::primitives::keccak256(sig.as_bytes());
        assert_eq!(get_selector_from_sig(sig)[..], digest[0..4]);
    }
}

#[test]
fn selector_of_the_empty_signature() {
    // keccak256("") = c5d24601...
    assert_eq!(get_selector_from_sig(""), [0xc5, 0xd2, 0x46, 0x01]);
}

#[test]
fn selector_from_digest_takes_four_bytes() {
    let mut digest = [0u8; 32];
    for (i, b) in digest.iter_mut().enumerate() {
        *b = i as u8 + 1;
    }
    assert_eq!(selector_from_digest(&digest), [1, 2, 3, 4]);
}

#[test]
fn append_bytes_appends() {
    let mut bytes = vec![1u8, 2];
    append_bytes(&mut bytes, &[3, 4, 5]);
    assert_eq!(bytes, vec![1, 2, 3, 4, 5]);
    append_bytes(&mut bytes, &[]);
    assert_eq!(bytes, vec![1, 2, 3, 4, 5]);
}

#[test]
fn preimage_is_key_then_id() {
    let id = U256::from_limbs([3, 0, 0, 0]);
    let preimage = mapping_slot_preimage(&[0xaa, 0xbb], &id);
    let mut expected = vec![0xaa, 0xbb];
    expected.extend_from_slice(&[0u8; 31]);
    expected.push(3);
    assert_eq!(preimage, expected);
}

#[test]
fn mapping_slot_matches_the_solidity_layout() {
    // mapping(address => uint256) at slot 1, key 0x00..01: keccak256(pad32(key) ++ pad32(1))
    let mut key = [0u8; 32];
    key[31] = 1;
    let mut data = key.to_vec();
    let mut id_bytes = [0u8; 32];
    id_bytes[31] = 1;
    data.extend_from_slice(&id_bytes);
    let expected = alloy_core::primitives::keccak256(&data);
    let slot = get_mapping_slot(key.to_vec(), U256::from_limbs([1, 0, 0, 0]));
    assert_eq!(slot.to_be_bytes(), expected.0);
    // The slot that Solidity documents for this key and mapping.
    assert_eq!(
        slot.to_be_bytes(),
        [
            0xcc, 0x69, 0x88, 0x5f, 0xda, 0x6b, 0xcc, 0x1a, 0x4a, 0xce, 0x05, 0x8b, 0x4a, 0x62,
            0xbf, 0x5e, 0x17, 0x9e, 0xa7, 0x8f, 0xd5, 0x8a, 0x1c, 0xcd, 0x71, 0xc2, 0x2c, 0xc9,
            0xb6, 0x88, 0x79, 0x2f,
        ]
    );
}

#[test]
fn mapping_slot_with_a_wide_id() {
    let id = U256::from_limbs([0x1111, 0x2222, 0x3333, 0x4444]);
    let key = vec![7u8; 32];
    let mut data = key.clone();
    data.extend_from_slice(&alloy_core::primitives::U256::from_limbs([0x1111, 0x2222, 0x3333, 0x4444]).to_be_bytes::<32>());
    let expected: alloy_core::primitives::U256 = alloy_core::primitives::keccak256(&data).into();
    let slot = get_mapping_slot(key, id);
    assert_eq!(slot.as_limbs(), *expected.as_limbs());
}
