use r55::storage::{read, Storage, StorageStorable};
use r55::word::U256;

fn key(n: u64) -> U256 {
    U256::from_u64(n)
}

#[test]
fn a_fresh_storage_is_all_zero() {
    let mut storage = Storage::new();
    assert_eq!(storage.peek(key(1)), U256::zero());
    assert_eq!(storage.sload(key(1)), U256::zero());
    assert_eq!(storage.load_count(), 1);
    assert_eq!(storage.store_count(), 0);
}

#[test]
fn a_store_is_seen_by_later_loads() {
    let mut storage = Storage::new();
    storage.sstore(key(1), key(42));
    assert_eq!(storage.sload(key(1)), key(42));
    assert_eq!(storage.sload(key(2)), U256::zero());
    storage.sstore(key(1), key(43));
    assert_eq!(storage.sload(key(1)), key(43));
    assert_eq!(storage.load_count(), 3);
    assert_eq!(storage.store_count(), 2);
}

#[test]
fn peek_leaves_no_record() {
    let mut storage = Storage::new();
    storage.sstore(key(5), key(6));
    assert_eq!(storage.peek(key(5)), key(6));
    assert_eq!(storage.load_count(), 0);
    assert_eq!(storage.store_count(), 1);
}

#[test]
fn store_then_load_gives_the_value_back() {
    let mut storage = Storage::new();
    r55::storage::write(&mut storage, key(9), &1_000_000u64);
    let back: u64 = read(&mut storage, key(9));
    assert_eq!(back, 1_000_000);
    r55::storage::write(&mut storage, key(10), &true);
    let flag: bool = read(&mut storage, key(10));
    assert!(flag);
    r55::storage::write(&mut storage, key(10), &false);
    let flag: bool = read(&mut storage, key(10));
    assert!(!flag);
    let word = U256::from_limbs([1, 2, 3, 4]);
    r55::storage::write(&mut storage, key(11), &word);
    let back: U256 = read(&mut storage, key(11));
    assert_eq!(back, word);
}

#[test]
fn words_of_values() {
    assert_eq!(7u64.encode(), U256::from_limbs([7, 0, 0, 0]));
    assert_eq!(u64::decode(U256::from_limbs([7, 1, 0, 0])), 7);
    assert_eq!(true.encode(), U256::from_limbs([1, 0, 0, 0]));
    assert_eq!(false.encode(), U256::zero());
    assert!(bool::decode(U256::from_limbs([0, 0, 1, 0])));
    assert!(!bool::decode(U256::zero()));
    let word = U256::from_limbs([9, 8, 7, 6]);
    assert_eq!(word.encode(), word);
    assert_eq!(U256::decode(word), word);
}
