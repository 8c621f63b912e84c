use r55::db::{add_balance_to_db, add_contract_to_db, read_db_slot};
use r55::word::{Address, U256};
use revm::primitives::{keccak256, KECCAK_EMPTY};
use revm::{Database, InMemoryDB};

fn address(last: u8) -> Address {
    let mut bytes = [0u8; 20];
    bytes[19] = last;
    Address { bytes }
}

fn host(address: Address) -> revm::primitives::Address {
    revm::primitives::Address::from(address.bytes)
}

#[test]
fn a_balance_is_stored() {
    let mut db = InMemoryDB::default();
    add_balance_to_db(&mut db, address(1), 1_000_000);
    let info = db.basic(host(address(1))).unwrap().unwrap();
    assert_eq!(info.balance, revm::primitives::U256::from(1_000_000u64));
    assert_eq!(info.nonce, 0);
    assert_eq!(info.code_hash, KECCAK_EMPTY);
    assert!(info.code.unwrap().original_bytes().is_empty());
    assert!(db.basic(host(address(2))).unwrap().is_none());
}

#[test]
fn a_contract_is_stored_with_the_hash_of_its_code() {
    let mut db = InMemoryDB::default();
    add_balance_to_db(&mut db, address(1), 5);
    let code = vec![0xff, 0x13, 0x05, 0x00, 0x00];
    add_contract_to_db(&mut db, address(2), code.clone());
    let info = db.basic(host(address(2))).unwrap().unwrap();
    assert_eq!(info.balance, revm::primitives::U256::ZERO);
    assert_eq!(info.nonce, 0);
    assert_eq!(info.code_hash, keccak256(&code));
    assert_eq!(info.code.unwrap().original_bytes().to_vec(), code);
    let other = db.basic(host(address(1))).unwrap().unwrap();
    assert_eq!(other.balance, revm::primitives::U256::from(5u64));
}

#[test]
fn a_contract_without_code_has_the_hash_of_empty_code() {
    let mut db = InMemoryDB::default();
    add_contract_to_db(&mut db, address(2), Vec::new());
    let info = db.basic(host(address(2))).unwrap().unwrap();
    assert_eq!(info.code_hash, KECCAK_EMPTY);
}

#[test]
fn a_slot_that_was_never_written_is_zero() {
    let mut db = InMemoryDB::default();
    assert_eq!(read_db_slot(&mut db, address(1), U256::from_u64(3)), U256::zero());
    add_contract_to_db(&mut db, address(1), vec![0xff]);
    assert_eq!(read_db_slot(&mut db, address(1), U256::from_u64(3)), U256::zero());
}

#[test]
fn a_slot_that_was_written_is_read() {
    let mut db = InMemoryDB::default();
    let slot = revm::primitives::U256::from_limbs([1, 2, 3, 4]);
    let value = revm::primitives::U256::from_limbs([5, 6, 7, 8]);
    db.insert_account_storage(host(address(1)), slot, value).unwrap();
    assert_eq!(
        read_db_slot(&mut db, address(1), U256::from_limbs([1, 2, 3, 4])),
        U256::from_limbs([5, 6, 7, 8])
    );
    add_balance_to_db(&mut db, address(1), 9);
    assert_eq!(
        read_db_slot(&mut db, address(1), U256::from_limbs([1, 2, 3, 4])),
        U256::from_limbs([5, 6, 7, 8])
    );
    assert_eq!(read_db_slot(&mut db, address(2), U256::from_limbs([1, 2, 3, 4])), U256::zero());
}
