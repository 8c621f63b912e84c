//! Mappings in contract storage, and the guard through which one entry of a
//! mapping is read and written.

use crate::abi::AbiEncode;
use crate::hash::{get_mapping_slot, keccak256, slot_preimage};
use crate::storage::{lemma_count_push, Storage, StorageOp, StorageStorable, StorageView};
use crate::word::U256;
use core::marker::PhantomData;
use vstd::prelude::*;

verus! {

/// A mapping from keys `K` to values `S` in contract storage. It holds no
/// entry itself, only the number that seeds the slot of each entry.
pub struct Mapping<K, S> {
    id: U256,
    _pd: PhantomData<(K, S)>,
}

/// The slot of the entry under the encoded key `key_bytes` in the mapping `id`.
pub open spec fn entry_slot(id: U256, key_bytes: Seq<u8>) -> U256 {
    U256::spec_from_be_bytes(keccak256(slot_preimage(key_bytes, id)))
}

impl<K, S> Mapping<K, S> {
    /// The number that seeds the slots of the mapping's entries.
    pub closed spec fn id(self) -> U256 {
        self.id
    }

    /// The mapping whose seed has the given limbs, least significant first.
    pub fn allocate(first: u64, second: u64, third: u64, fourth: u64) -> (mapping: Self)
        ensures
            mapping.id() == (U256 { low: first, mid_low: second, mid_high: third, high: fourth }),
    {
        Mapping { id: U256::from_limbs([first, second, third, fourth]), _pd: PhantomData }
    }
}

impl<K, S> Default for Mapping<K, S> {
    /// The mapping whose seed is zero.
    fn default() -> (mapping: Self)
        ensures
            mapping.id() == U256::spec_zero(),
    {
        Mapping { id: U256::zero(), _pd: PhantomData }
    }
}

impl<K, S> Clone for Mapping<K, S> {
    /// The mapping with the same seed.
    fn clone(&self) -> (copy: Self)
        ensures
            copy.id() == self.id(),
    {
        Mapping { id: self.id, _pd: PhantomData }
    }
}

impl<K: AbiEncode, S> Mapping<K, S> {
    /// The slot of the entry under `key`.
    pub fn encode_key(&self, key: K) -> (slot: U256)
        ensures
            slot == entry_slot(self.id(), key.abi_encoded()),
            slot.be_bytes() == keccak256(slot_preimage(key.abi_encoded(), self.id())),
    {
        let key_bytes = key.abi_encode();
        get_mapping_slot(key_bytes, self.id)
    }
}

/// One entry of a mapping, loaded once and written back at most once.
///
/// The guard holds the value that was loaded. Who writes a value into the
/// guard, or asks for the value in mutable form, marks the guard as dirty.
/// Only making the guard loads, and only releasing it stores: a dirty guard
/// stores its value when it is released, a clean one stores nothing.
pub struct MappingGuard<S: StorageStorable> {
    value: S,
    storage_key: U256,
    dirty: bool,
    loaded: Ghost<S>,
}

impl<S: StorageStorable> MappingGuard<S> {
    /// The slot that the guard stands for.
    pub closed spec fn storage_key(self) -> U256 {
        self.storage_key
    }

    /// The value that the guard holds.
    pub closed spec fn value(self) -> S {
        self.value
    }

    /// Whether the value was asked for in mutable form.
    pub closed spec fn dirty(self) -> bool {
        self.dirty
    }

    /// The value that was loaded when the guard was made.
    pub closed spec fn loaded(self) -> S {
        self.loaded@
    }

    /// Whether the guard is sound: one that was never handed out in mutable
    /// form still holds what was loaded.
    pub open spec fn wf(self) -> bool {
        !self.dirty() ==> self.value() == self.loaded()
    }

    /// The storage after the guard is released: with the guard's value stored
    /// in its slot where the guard is dirty, as it was where the guard is clean.
    pub open spec fn released(self, storage: StorageView) -> StorageView {
        if self.dirty() {
            storage.stored(self.storage_key(), self.value().to_word())
        } else {
            storage
        }
    }

    /// What releasing the guard asks of the host: to store the guard's value
    /// in its slot where the guard is dirty, nothing where it is clean.
    pub open spec fn pending_store(self) -> Option<(U256, U256)> {
        if self.dirty() {
            Some((self.storage_key(), self.value().to_word()))
        } else {
            None
        }
    }

    /// Makes the guard for the slot `storage_key` from the word that was
    /// loaded from it.
    pub fn from_word(storage_key: U256, word: U256) -> (guard: Self)
        ensures
            guard.storage_key() == storage_key,
            guard.value() == S::from_word(word),
            guard.loaded() == guard.value(),
            !guard.dirty(),
            guard.wf(),
    {
        let value = S::decode(word);
        MappingGuard { value, storage_key, dirty: false, loaded: Ghost(value) }
    }

    /// Ends the guard and says what is left to do: the one store of a dirty
    /// guard, with slot and word, or nothing.
    pub fn into_store(self) -> (store: Option<(U256, U256)>)
        ensures
            store == self.pending_store(),
    {
        if self.dirty {
            Some((self.storage_key, self.value.encode()))
        } else {
            None
        }
    }

    /// Loads the slot `storage_key`, once, and makes the guard for it.
    pub fn new(storage: &mut Storage, storage_key: U256) -> (guard: Self)
        ensures
            final(storage)@ == old(storage)@.loaded(storage_key),
            guard.storage_key() == storage_key,
            guard.value() == S::from_word(old(storage)@.value_at(storage_key)),
            guard.loaded() == guard.value(),
            !guard.dirty(),
            guard.wf(),
    {
        let word = storage.sload(storage_key);
        MappingGuard::from_word(storage_key, word)
    }

    /// Puts `value` in the place of the guard's value and marks the guard
    /// dirty. Nothing is stored before the guard is released.
    pub fn write(&mut self, value: S)
        ensures
            final(self).value() == value,
            final(self).dirty(),
            final(self).storage_key() == old(self).storage_key(),
            final(self).loaded() == old(self).loaded(),
            final(self).wf(),
    {
        self.dirty = true;
        self.value = value;
    }

    /// The value, to read. The guard stays as it is: reading never marks it dirty.
    pub fn deref(&self) -> (value: &S)
        ensures
            *value == self.value(),
    {
        &self.value
    }

    /// The value, to change; the guard is dirty from then on.
    pub fn deref_mut(&mut self) -> (value: &mut S)
        ensures
            *value == old(self).value(),
            final(self).value() == *final(value),
            final(self).dirty(),
            final(self).storage_key() == old(self).storage_key(),
            final(self).loaded() == old(self).loaded(),
            final(self).wf(),
    {
        self.dirty = true;
        &mut self.value
    }

    /// Ends the guard: a dirty guard stores its value, once; a clean one stores nothing.
    pub fn release(self, storage: &mut Storage)
        ensures
            final(storage)@ == self.released(old(storage)@),
    {
        match self.into_store() {
            Some((key, word)) => {
                storage.sstore(key, word);
            },
            None => {},
        }
    }
}

impl<K: AbiEncode, S: StorageStorable> Mapping<K, S> {
    /// Loads the entry under `key` and hands out the guard for it.
    pub fn index(&self, storage: &mut Storage, key: K) -> (guard: MappingGuard<S>)
        ensures
            guard.storage_key() == entry_slot(self.id(), key.abi_encoded()),
            final(storage)@ == old(storage)@.loaded(guard.storage_key()),
            guard.value() == S::from_word(old(storage)@.value_at(guard.storage_key())),
            guard.loaded() == guard.value(),
            !guard.dirty(),
            guard.wf(),
    {
        let storage_key = self.encode_key(key);
        MappingGuard::new(storage, storage_key)
    }

    /// Loads the entry under `key` and hands out the guard for it, for a
    /// holder that means to change the entry.
    pub fn index_mut(&mut self, storage: &mut Storage, key: K) -> (guard: MappingGuard<S>)
        ensures
            *final(self) == *old(self),
            guard.storage_key() == entry_slot(old(self).id(), key.abi_encoded()),
            final(storage)@ == old(storage)@.loaded(guard.storage_key()),
            guard.value() == S::from_word(old(storage)@.value_at(guard.storage_key())),
            guard.loaded() == guard.value(),
            !guard.dirty(),
            guard.wf(),
    {
        let storage_key = self.encode_key(key);
        MappingGuard::new(storage, storage_key)
    }
}

/// The inner mapping that an entry of a mapping of mappings stands for.
pub struct NestedMapping<K2, S> {
    mapping: Mapping<K2, S>,
}

impl<K2, S> NestedMapping<K2, S> {
    /// The inner mapping.
    pub closed spec fn mapping(self) -> Mapping<K2, S> {
        self.mapping
    }

    /// The inner mapping.
    pub fn as_mapping(&self) -> (mapping: &Mapping<K2, S>)
        ensures
            *mapping == self.mapping(),
    {
        &self.mapping
    }
}

impl<K1: AbiEncode, K2, S> Mapping<K1, Mapping<K2, S>> {
    /// The inner mapping under `key`: the slot of the entry seeds it.
    pub fn index_nested(&self, key: K1) -> (nested: NestedMapping<K2, S>)
        ensures
            nested.mapping().id() == entry_slot(self.id(), key.abi_encoded()),
    {
        let id = self.encode_key(key);
        NestedMapping { mapping: Mapping { id, _pd: PhantomData } }
    }
}

/// An entry that is only read costs one load and no store, whatever happened before.
pub proof fn lemma_read_only_access<S: StorageStorable>(guard: MappingGuard<S>, before: StorageView)
    requires
        !guard.dirty(),
    ensures
        guard.released(before.loaded(guard.storage_key())).trace == before.trace.push(
            StorageOp::Load { key: guard.storage_key() },
        ),
        guard.released(before.loaded(guard.storage_key())).writes == before.writes,
        guard.released(before.loaded(guard.storage_key())).loads() == before.loads() + 1,
        guard.released(before.loaded(guard.storage_key())).stores() == before.stores(),
{
    lemma_count_push(before.trace, StorageOp::Load { key: guard.storage_key() });
}

/// An entry that was handed out in mutable form costs one load and, when the
/// guard is released, exactly one store: that of the guard's value.
pub proof fn lemma_mutable_access<S: StorageStorable>(guard: MappingGuard<S>, before: StorageView)
    requires
        guard.dirty(),
    ensures
        guard.released(before.loaded(guard.storage_key())).trace == before.trace.push(
            StorageOp::Load { key: guard.storage_key() },
        ).push(StorageOp::Store { key: guard.storage_key(), value: guard.value().to_word() }),
        guard.released(before.loaded(guard.storage_key())).loads() == before.loads() + 1,
        guard.released(before.loaded(guard.storage_key())).stores() == before.stores() + 1,
        guard.released(before.loaded(guard.storage_key())).value_at(guard.storage_key())
            == guard.value().to_word(),
{
    let opened = before.loaded(guard.storage_key());
    lemma_count_push(before.trace, StorageOp::Load { key: guard.storage_key() });
    lemma_count_push(
        opened.trace,
        StorageOp::Store { key: guard.storage_key(), value: guard.value().to_word() },
    );
}

/// Releasing a guard stores once if the guard is dirty and not at all if it
/// is clean; and a sound guard whose value differs from what was loaded is dirty.
pub proof fn lemma_release_stores_iff_dirty<S: StorageStorable>(
    guard: MappingGuard<S>,
    storage: StorageView,
)
    requires
        guard.wf(),
    ensures
        guard.released(storage).stores() == storage.stores() + if guard.dirty() {
            1nat
        } else {
            0nat
        },
        guard.released(storage).loads() == storage.loads(),
        guard.value() != guard.loaded() ==> guard.dirty(),
{
    if guard.dirty() {
        lemma_count_push(
            storage.trace,
            StorageOp::Store { key: guard.storage_key(), value: guard.value().to_word() },
        );
    }
}

/// Over its whole life a guard costs one load, and one store or none: one
/// exactly if it is dirty when it is released. What it stores is the value
/// that it holds then.
pub proof fn lemma_guard_lifetime<S: StorageStorable>(guard: MappingGuard<S>, before: StorageView)
    ensures
        guard.released(before.loaded(guard.storage_key())).loads() == before.loads() + 1,
        guard.released(before.loaded(guard.storage_key())).stores() == before.stores() + if guard.dirty() {
            1nat
        } else {
            0nat
        },
        guard.released(before.loaded(guard.storage_key())) == match guard.pending_store() {
            Some((key, word)) => before.loaded(guard.storage_key()).stored(key, word),
            None => before.loaded(guard.storage_key()),
        },
{
    if guard.dirty() {
        lemma_mutable_access(guard, before);
    } else {
        lemma_read_only_access(guard, before);
    }
}

} // verus!
