//! Accounts and storage in the host's in-memory database.

use crate::hash::{keccak256, keccak256_digest};
use crate::word::{Address, U256};
use vstd::prelude::*;

verus! {

/// `revm::db::CacheDB`: a database that keeps accounts and storage in memory.
#[verifier::external_type_specification]
#[verifier::external_body]
#[verifier::reject_recursive_types(ExtDB)]
pub struct ExCacheDB<ExtDB>(revm::db::CacheDB<ExtDB>);

/// `revm::db::EmptyDBTyped`: the database below the one in memory, which
/// holds nothing.
#[verifier::external_type_specification]
#[verifier::external_body]
#[verifier::reject_recursive_types(E)]
pub struct ExEmptyDB<E>(revm::db::EmptyDBTyped<E>);

/// What the database stores of an account.
pub struct AccountView {
    /// The balance.
    pub balance: U256,
    /// The nonce.
    pub nonce: u64,
    /// The hash of the code.
    pub code_hash: Seq<u8>,
    /// The code, where the account carries it.
    pub code: Option<Seq<u8>>,
}

/// What `db` stores of the account at `address`; `None` where it stores nothing.
pub uninterp spec fn stored_account(db: revm::InMemoryDB, address: Seq<u8>) -> Option<AccountView>;

/// The value that `db` holds in the slot `slot` of the account at `address`.
pub uninterp spec fn stored_slot(db: revm::InMemoryDB, address: Seq<u8>, slot: U256) -> U256;

/// Thirty-two zero bytes.
pub open spec fn zero_hash() -> Seq<u8> {
    Seq::new(32, |i: int| 0u8)
}

/// The code hash that the database stores for an account that is inserted
/// with the code hash `code_hash` and the code `code`. First the hash of the
/// code takes the place of the given hash where the code is not empty and the
/// given hash is that of empty code. Then the hash of empty code takes the
/// place of a hash that is zero.
pub open spec fn stored_code_hash(code_hash: Seq<u8>, code: Seq<u8>) -> Seq<u8> {
    let settled = if code.len() > 0 && code_hash == keccak256(Seq::empty()) {
        keccak256(code)
    } else {
        code_hash
    };
    if settled == zero_hash() {
        keccak256(Seq::empty())
    } else {
        settled
    }
}

/// Whether `code` starts like code in one of the container formats, which the
/// database takes apart instead of storing it as it is.
pub open spec fn is_container(code: Seq<u8>) -> bool {
    code.len() >= 2 && code[0] == 0xef && (code[1] == 0x00 || code[1] == 0x01)
}

/// `CacheDB::insert_account_info` with `AccountInfo::from_balance`: the
/// account at `address` is stored with the balance, nonce zero, the hash of
/// empty code and empty code. Every other account and every slot stays as it is.
#[verifier::external_body]
fn insert_balance(db: &mut revm::InMemoryDB, address: &Address, balance: U256)
    ensures
        stored_account(*final(db), address.bytes@) == Some(
            AccountView {
                balance,
                nonce: 0,
                code_hash: keccak256(Seq::empty()),
                code: Some(Seq::empty()),
            },
        ),
        forall|other: Seq<u8>|
            other != address.bytes@ ==> stored_account(*final(db), other) == stored_account(
                *old(db),
                other,
            ),
        forall|other: Seq<u8>, slot: U256|
            stored_slot(*final(db), other, slot) == stored_slot(*old(db), other, slot),
{
    let balance = revm::primitives::U256::from_limbs(
        [balance.low, balance.mid_low, balance.mid_high, balance.high],
    );
    db.insert_account_info(
        revm::primitives::Address::from(address.bytes),
        revm::primitives::AccountInfo::from_balance(balance),
    );
}

/// `CacheDB::insert_account_info` with `AccountInfo::new` and
/// `Bytecode::new_raw`: the account at `address` is stored with the balance,
/// the nonce, the code, and the code hash as the database settles it. Every
/// other account and every slot stays as it is.
#[verifier::external_body]
fn insert_contract(
    db: &mut revm::InMemoryDB,
    address: &Address,
    balance: U256,
    nonce: u64,
    code_hash: &[u8; 32],
    code: Vec<u8>,
)
    requires
        !is_container(code@),
    ensures
        stored_account(*final(db), address.bytes@) == Some(
            AccountView {
                balance,
                nonce,
                code_hash: stored_code_hash(code_hash@, code@),
                code: Some(code@),
            },
        ),
        forall|other: Seq<u8>|
            other != address.bytes@ ==> stored_account(*final(db), other) == stored_account(
                *old(db),
                other,
            ),
        forall|other: Seq<u8>, slot: U256|
            stored_slot(*final(db), other, slot) == stored_slot(*old(db), other, slot),
{
    let balance = revm::primitives::U256::from_limbs(
        [balance.low, balance.mid_low, balance.mid_high, balance.high],
    );
    let account = revm::primitives::AccountInfo::new(
        balance,
        nonce,
        revm::primitives::B256::from(*code_hash),
        revm::primitives::Bytecode::new_raw(code.into()),
    );
    db.insert_account_info(revm::primitives::Address::from(address.bytes), account);
}

/// `Database::storage` of the in-memory database: the value in the slot. No
/// slot changes its value, and no account that is stored changes.
#[verifier::external_body]
fn storage(db: &mut revm::InMemoryDB, address: &Address, slot: U256) -> (value: U256)
    ensures
        value == stored_slot(*old(db), address.bytes@, slot),
        forall|other: Seq<u8>, any: U256|
            stored_slot(*final(db), other, any) == stored_slot(*old(db), other, any),
        forall|other: Seq<u8>|
            stored_account(*old(db), other) is Some ==> stored_account(*final(db), other)
                == stored_account(*old(db), other),
{
    let index = revm::primitives::U256::from_limbs(
        [slot.low, slot.mid_low, slot.mid_high, slot.high],
    );
    let Ok(value) = revm::Database::storage(db, revm::primitives::Address::from(address.bytes), index);
    let limbs = value.as_limbs();
    U256 { low: limbs[0], mid_low: limbs[1], mid_high: limbs[2], high: limbs[3] }
}

/// Gives the account at `addr` the balance `value`: the account is stored
/// anew, with nothing but the balance.
pub fn add_balance_to_db(db: &mut revm::InMemoryDB, addr: Address, value: u64)
    ensures
        stored_account(*final(db), addr.bytes@) == Some(
            AccountView {
                balance: U256 { low: value, mid_low: 0, mid_high: 0, high: 0 },
                nonce: 0,
                code_hash: keccak256(Seq::empty()),
                code: Some(Seq::empty()),
            },
        ),
        forall|other: Seq<u8>|
            other != addr.bytes@ ==> stored_account(*final(db), other) == stored_account(
                *old(db),
                other,
            ),
        forall|other: Seq<u8>, slot: U256|
            stored_slot(*final(db), other, slot) == stored_slot(*old(db), other, slot),
{
    insert_balance(db, &addr, U256::from_u64(value));
}

/// Puts a contract with the code `bytecode` at `addr`: the account is stored
/// anew, without balance, with nonce zero, and with the hash of the code.
pub fn add_contract_to_db(db: &mut revm::InMemoryDB, addr: Address, bytecode: Vec<u8>)
    requires
        !is_container(bytecode@),
    ensures
        stored_account(*final(db), addr.bytes@) == Some(
            AccountView {
                balance: U256::spec_zero(),
                nonce: 0,
                code_hash: stored_code_hash(keccak256(bytecode@), bytecode@),
                code: Some(bytecode@),
            },
        ),
        forall|other: Seq<u8>|
            other != addr.bytes@ ==> stored_account(*final(db), other) == stored_account(
                *old(db),
                other,
            ),
        forall|other: Seq<u8>, slot: U256|
            stored_slot(*final(db), other, slot) == stored_slot(*old(db), other, slot),
{
    let code_hash = keccak256_digest(bytecode.as_slice());
    insert_contract(db, &addr, U256::zero(), 0, &code_hash, bytecode);
}

/// Reads the slot `slot` of the contract at `contract`.
pub fn read_db_slot(db: &mut revm::InMemoryDB, contract: Address, slot: U256) -> (value: U256)
    ensures
        value == stored_slot(*old(db), contract.bytes@, slot),
        forall|other: Seq<u8>, any: U256|
            stored_slot(*final(db), other, any) == stored_slot(*old(db), other, any),
        forall|other: Seq<u8>|
            stored_account(*old(db), other) is Some ==> stored_account(*final(db), other)
                == stored_account(*old(db), other),
{
    storage(db, &contract, slot)
}

/// The code hash of a contract put into the database is the hash of its
/// code, unless that hash is all zero.
pub proof fn lemma_contract_hash(bytecode: Seq<u8>)
    requires
        keccak256(bytecode) != zero_hash(),
    ensures
        stored_code_hash(keccak256(bytecode), bytecode) == keccak256(bytecode),
{
}

} // verus!
