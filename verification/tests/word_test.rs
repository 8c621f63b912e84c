use r55::word::{byte_at, u64_of_be, Address, U256};

#[test]
fn byte_at_picks_bytes() {
    let x = 0x0102_0304_0506_0708u64;
    assert_eq!(byte_at(x, 0), 0x08);
    assert_eq!(byte_at(x, 3), 0x05);
    assert_eq!(byte_at(x, 7), 0x01);
}

#[test]
fn u64_of_be_reads_most_significant_first() {
    assert_eq!(u64_of_be(&[1, 2, 3, 4, 5, 6, 7, 8]), 0x0102_0304_0506_0708);
    assert_eq!(u64_of_be(&[0xff; 8]), u64::MAX);
    assert_eq!(u64_of_be(&[0; 8]), 0);
}

#[test]
fn zero_is_zero() {
    assert_eq!(U256::zero(), U256::from_limbs([0, 0, 0, 0]));
    assert_eq!(U256::zero().to_be_bytes(), [0u8; 32]);
}

#[test]
fn limbs_go_in_and_out() {
    let word = U256::from_limbs([1, 2, 3, 4]);
    assert_eq!(word.low, 1);
    assert_eq!(word.high, 4);
    assert_eq!(word.as_limbs(), [1, 2, 3, 4]);
}

#[test]
fn from_u64_fills_the_lowest_limb() {
    assert_eq!(U256::from_u64(250), U256::from_limbs([250, 0, 0, 0]));
}

#[test]
fn be_bytes_agree_with_the_reference() {
    for limbs in [
        [0u64, 0, 0, 0],
        [1, 0, 0, 0],
        [0x0102_0304_0506_0708, 0x1112_1314_1516_1718, 0x2122_2324_2526_2728, 0x3132_3334_3536_3738],
        [u64::MAX, 0, u64::MAX, 0x8000_0000_0000_0000],
    ] {
        let expected = alloy_core::primitives::U256::from_limbs(limbs).to_be_bytes::<32>();
        assert_eq!(U256::from_limbs(limbs).to_be_bytes(), expected);
    }
}

#[test]
fn be_bytes_of_one_limb_each() {
    let bytes = U256::from_limbs([0xaa, 0xbb, 0xcc, 0xdd]).to_be_bytes();
    assert_eq!(bytes[7], 0xdd);
    assert_eq!(bytes[15], 0xcc);
    assert_eq!(bytes[23], 0xbb);
    assert_eq!(bytes[31], 0xaa);
    assert_eq!(bytes.iter().filter(|b| **b != 0).count(), 4);
}

#[test]
fn be_bytes_round_trip() {
    let mut bytes = [0u8; 32];
    for (i, b) in bytes.iter_mut().enumerate() {
        *b = (i as u8).wrapping_mul(37).wrapping_add(5);
    }
    let word = U256::from_be_bytes(&bytes);
    assert_eq!(word.to_be_bytes(), bytes);
    assert_eq!(U256::from_be_bytes(&word.to_be_bytes()), word);
    let reference = alloy_core::primitives::U256::from_be_bytes(bytes);
    assert_eq!(word.as_limbs(), *reference.as_limbs());
}

#[test]
fn addresses_compare_by_their_bytes() {
    let a = Address { bytes: [1; 20] };
    let b = Address { bytes: [1; 20] };
    let c = Address { bytes: [2; 20] };
    assert_eq!(a, b);
    assert_ne!(a, c);
}
