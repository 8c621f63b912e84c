use r55::mapping::{Mapping, MappingGuard};
use r55::storage::Storage;
use r55::word::{Address, U256};

fn address(last: u8) -> Address {
    let mut bytes = [0u8; 20];
    bytes[19] = last;
    Address { bytes }
}

fn expected_slot(key: &[u8], id: [u64; 4]) -> [u8; 32] {
    let mut data = key.to_vec();
    data.extend_from_slice(&alloy_core::primitives::U256::from_limbs(id).to_be_bytes::<32>());
    alloy_core::primitives::keccak256(&data).0
}

#[test]
fn encode_key_hashes_the_key_and_the_id() {
    let mapping: Mapping<Address, u64> = Mapping::allocate(2, 0, 0, 0);
    let slot = mapping.encode_key(address(0xaa));
    let mut key = [0u8; 32];
    key[31] = 0xaa;
    assert_eq!(slot.to_be_bytes(), expected_slot(&key, [2, 0, 0, 0]));
}

#[test]
fn encode_key_of_a_number() {
    let mapping: Mapping<U256, u64> = Mapping::allocate(0, 0, 0, 1);
    let slot = mapping.encode_key(U256::from_u64(5));
    let mut key = [0u8; 32];
    key[31] = 5;
    assert_eq!(slot.to_be_bytes(), expected_slot(&key, [0, 0, 0, 1]));
}

#[test]
fn different_keys_and_ids_give_different_slots() {
    let first: Mapping<Address, u64> = Mapping::allocate(1, 0, 0, 0);
    let second: Mapping<Address, u64> = Mapping::allocate(2, 0, 0, 0);
    assert_ne!(first.encode_key(address(1)), first.encode_key(address(2)));
    assert_ne!(first.encode_key(address(1)), second.encode_key(address(1)));
}

#[test]
fn a_read_costs_one_load_and_no_store() {
    let mut storage = Storage::new();
    let mapping: Mapping<Address, u64> = Mapping::allocate(1, 0, 0, 0);
    let guard = mapping.index(&mut storage, address(1));
    assert_eq!(*guard.deref(), 0);
    assert_eq!(*guard.deref(), 0);
    guard.release(&mut storage);
    assert_eq!(storage.load_count(), 1);
    assert_eq!(storage.store_count(), 0);
}

#[test]
fn a_guard_that_is_read_and_not_changed_stores_nothing() {
    let mut storage = Storage::new();
    let slot = U256::from_u64(77);
    storage.sstore(slot, U256::from_u64(5));
    let guard: MappingGuard<u64> = MappingGuard::new(&mut storage, slot);
    assert_eq!(*guard.deref(), 5);
    guard.release(&mut storage);
    assert_eq!(storage.store_count(), 1);
    assert_eq!(storage.load_count(), 1);
}

#[test]
fn a_guard_that_is_changed_stores_once() {
    let mut storage = Storage::new();
    let slot = U256::from_u64(77);
    let mut guard: MappingGuard<u64> = MappingGuard::new(&mut storage, slot);
    *guard.deref_mut() += 3;
    *guard.deref_mut() += 4;
    assert_eq!(*guard.deref(), 7);
    assert_eq!(storage.store_count(), 0);
    guard.release(&mut storage);
    assert_eq!(storage.load_count(), 1);
    assert_eq!(storage.store_count(), 1);
    assert_eq!(storage.peek(slot), U256::from_u64(7));
}

#[test]
fn a_guard_handed_out_to_change_stores_even_the_same_value() {
    let mut storage = Storage::new();
    let slot = U256::from_u64(3);
    let mut guard: MappingGuard<u64> = MappingGuard::new(&mut storage, slot);
    let _ = guard.deref_mut();
    guard.release(&mut storage);
    assert_eq!(storage.store_count(), 1);
    assert_eq!(storage.peek(slot), U256::zero());
}

#[test]
fn write_is_stored_when_the_guard_is_released() {
    let mut storage = Storage::new();
    let mut mapping: Mapping<Address, u64> = Mapping::allocate(1, 0, 0, 0);
    let mut guard = mapping.index_mut(&mut storage, address(9));
    guard.write(1_000_000);
    assert_eq!(*guard.deref(), 1_000_000);
    assert_eq!(storage.store_count(), 0);
    guard.release(&mut storage);
    assert_eq!(storage.store_count(), 1);
    let again = mapping.index(&mut storage, address(9));
    assert_eq!(*again.deref(), 1_000_000);
}

#[test]
fn a_guard_stores_once_however_often_it_is_written() {
    let mut storage = Storage::new();
    let slot = U256::from_u64(8);
    let mut guard: MappingGuard<u64> = MappingGuard::new(&mut storage, slot);
    *guard.deref_mut() = 1;
    guard.write(2);
    *guard.deref_mut() += 1;
    guard.write(4);
    assert_eq!(*guard.deref(), 4);
    guard.release(&mut storage);
    assert_eq!(storage.load_count(), 1);
    assert_eq!(storage.store_count(), 1);
    assert_eq!(storage.peek(slot), U256::from_u64(4));
}

#[test]
fn a_guard_off_the_host_says_what_to_store() {
    let slot = U256::from_u64(8);
    let clean: MappingGuard<u64> = MappingGuard::from_word(slot, U256::from_u64(5));
    assert_eq!(*clean.deref(), 5);
    assert_eq!(clean.into_store(), None);
    let mut dirty: MappingGuard<u64> = MappingGuard::from_word(slot, U256::from_u64(5));
    *dirty.deref_mut() += 1;
    assert_eq!(dirty.into_store(), Some((slot, U256::from_u64(6))));
    let mut same: MappingGuard<u64> = MappingGuard::from_word(slot, U256::from_u64(5));
    same.write(5);
    assert_eq!(same.into_store(), Some((slot, U256::from_u64(5))));
}

#[test]
fn a_later_guard_sees_what_an_earlier_one_stored_on_release() {
    let mut storage = Storage::new();
    let mut mapping: Mapping<Address, u64> = Mapping::allocate(1, 0, 0, 0);
    let mut first = mapping.index_mut(&mut storage, address(1));
    *first.deref_mut() = 12;
    let early = mapping.index(&mut storage, address(1));
    assert_eq!(*early.deref(), 0);
    first.release(&mut storage);
    let late = mapping.index(&mut storage, address(1));
    assert_eq!(*late.deref(), 12);
}

#[test]
fn a_nested_mapping_is_seeded_by_the_outer_slot() {
    let outer: Mapping<Address, Mapping<Address, u64>> = Mapping::allocate(4, 0, 0, 0);
    let flat: Mapping<Address, u64> = Mapping::allocate(4, 0, 0, 0);
    let nested = outer.index_nested(address(1));
    let inner_id = flat.encode_key(address(1));
    let slot = nested.as_mapping().encode_key(address(2));
    let mut key = [0u8; 32];
    key[31] = 2;
    assert_eq!(slot.to_be_bytes(), expected_slot(&key, inner_id.as_limbs()));
}

struct Token {
    balances: Mapping<Address, u64>,
}

#[derive(Debug, PartialEq)]
enum TokenError {
    InsufficientBalance(u64),
}

impl Token {
    fn deploy(storage: &mut Storage, owner: Address, supply: u64) -> Token {
        let mut token = Token { balances: Mapping::allocate(0, 0, 0, 0) };
        let mut guard = token.balances.index_mut(storage, owner);
        *guard.deref_mut() = supply;
        guard.release(storage);
        token
    }

    fn balance_of(&self, storage: &mut Storage, owner: Address) -> u64 {
        let guard = self.balances.index(storage, owner);
        let balance = *guard.deref();
        guard.release(storage);
        balance
    }

    fn transfer(
        &mut self,
        storage: &mut Storage,
        from: Address,
        to: Address,
        amount: u64,
    ) -> Result<bool, TokenError> {
        let mut sender = self.balances.index_mut(storage, from);
        if *sender.deref() < amount {
            let available = *sender.deref();
            sender.release(storage);
            return Err(TokenError::InsufficientBalance(available));
        }
        *sender.deref_mut() -= amount;
        sender.release(storage);
        let mut receiver = self.balances.index_mut(storage, to);
        *receiver.deref_mut() += amount;
        receiver.release(storage);
        Ok(true)
    }
}

#[test]
fn token_supply_goes_to_the_deployer() {
    let mut storage = Storage::new();
    let (a, b) = (address(0xa), address(0xb));
    let token = Token::deploy(&mut storage, a, 1_000_000);
    assert_eq!(token.balance_of(&mut storage, a), 1_000_000);
    assert_eq!(token.balance_of(&mut storage, b), 0);
}

#[test]
fn token_transfer_moves_the_amount() {
    let mut storage = Storage::new();
    let (a, b) = (address(0xa), address(0xb));
    let mut token = Token::deploy(&mut storage, a, 1_000_000);
    assert_eq!(token.transfer(&mut storage, a, b, 250), Ok(true));
    assert_eq!(token.balance_of(&mut storage, a), 999_750);
    assert_eq!(token.balance_of(&mut storage, b), 250);
}

#[test]
fn token_transfer_beyond_the_balance_changes_nothing() {
    let mut storage = Storage::new();
    let (a, b) = (address(0xa), address(0xb));
    let mut token = Token::deploy(&mut storage, a, 1_000_000);
    assert_eq!(token.transfer(&mut storage, a, b, 250), Ok(true));
    let stores = storage.store_count();
    assert_eq!(
        token.transfer(&mut storage, a, b, 10_000_000),
        Err(TokenError::InsufficientBalance(999_750))
    );
    assert_eq!(storage.store_count(), stores);
    assert_eq!(token.balance_of(&mut storage, a), 999_750);
    assert_eq!(token.balance_of(&mut storage, b), 250);
}

#[test]
fn the_default_mapping_is_seeded_with_zero() {
    let default: Mapping<Address, u64> = Mapping::default();
    let zero: Mapping<Address, u64> = Mapping::allocate(0, 0, 0, 0);
    assert_eq!(default.encode_key(address(3)), zero.encode_key(address(3)));
    let copy = default.clone();
    assert_eq!(copy.encode_key(address(3)), zero.encode_key(address(3)));
}
