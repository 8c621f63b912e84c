//! The persistent storage of one contract as a call frame sees it: a journal
//! of the writes, and a record of every load and store that was asked for.

use crate::word::U256;
use vstd::prelude::*;

verus! {

/// A storage operation that the host was asked for.
#[derive(Clone, Copy, Debug, PartialEq, Eq, Structural)]
pub enum StorageOp {
    /// A slot was read.
    Load { key: U256 },
    /// A slot was written.
    Store { key: U256, value: U256 },
}

/// The storage of one contract within a call frame.
#[derive(Debug)]
pub struct Storage {
    writes: Vec<(U256, U256)>,
    trace: Vec<StorageOp>,
}

/// What a storage holds: the writes in their order, and the operations asked for.
pub struct StorageView {
    /// Each write with its slot and value, oldest first.
    pub writes: Seq<(U256, U256)>,
    /// Every load and store, oldest first.
    pub trace: Seq<StorageOp>,
}

/// The value that the writes leave in the slot `key`: that of the last write
/// to it, zero where there is none.
pub open spec fn written_value(writes: Seq<(U256, U256)>, key: U256) -> U256
    decreases writes.len(),
{
    if writes.len() == 0 {
        U256::spec_zero()
    } else if writes.last().0 == key {
        writes.last().1
    } else {
        written_value(writes.drop_last(), key)
    }
}

/// The number of loads among `trace`.
pub open spec fn count_loads(trace: Seq<StorageOp>) -> nat
    decreases trace.len(),
{
    if trace.len() == 0 {
        0
    } else if trace.last() is Load {
        count_loads(trace.drop_last()) + 1
    } else {
        count_loads(trace.drop_last())
    }
}

/// The number of stores among `trace`.
pub open spec fn count_stores(trace: Seq<StorageOp>) -> nat
    decreases trace.len(),
{
    if trace.len() == 0 {
        0
    } else if trace.last() is Store {
        count_stores(trace.drop_last()) + 1
    } else {
        count_stores(trace.drop_last())
    }
}

impl StorageView {
    /// The value in the slot `key`.
    pub open spec fn value_at(self, key: U256) -> U256 {
        written_value(self.writes, key)
    }

    /// The storage after the slot `key` was loaded.
    pub open spec fn loaded(self, key: U256) -> StorageView {
        StorageView { writes: self.writes, trace: self.trace.push(StorageOp::Load { key }) }
    }

    /// The storage after `value` was stored in the slot `key`.
    pub open spec fn stored(self, key: U256, value: U256) -> StorageView {
        StorageView {
            writes: self.writes.push((key, value)),
            trace: self.trace.push(StorageOp::Store { key, value }),
        }
    }

    /// The number of loads so far.
    pub open spec fn loads(self) -> nat {
        count_loads(self.trace)
    }

    /// The number of stores so far.
    pub open spec fn stores(self) -> nat {
        count_stores(self.trace)
    }
}

impl View for Storage {
    type V = StorageView;

    closed spec fn view(&self) -> StorageView {
        StorageView { writes: self.writes@, trace: self.trace@ }
    }
}

impl Storage {
    /// A storage in which every slot is zero and nothing was asked for yet.
    pub fn new() -> (storage: Storage)
        ensures
            storage@.writes == Seq::<(U256, U256)>::empty(),
            storage@.trace == Seq::<StorageOp>::empty(),
    {
        Storage { writes: Vec::new(), trace: Vec::new() }
    }

    /// Reads the slot `key` without leaving a record.
    pub fn peek(&self, key: U256) -> (value: U256)
        ensures
            value == self@.value_at(key),
    {
        let mut i: usize = self.writes.len();
        proof {
            assert(self.writes@.take(i as int) == self.writes@);
        }
        while i > 0
            invariant
                i <= self.writes.len(),
                written_value(self.writes@, key) == written_value(self.writes@.take(i as int), key),
            decreases i,
        {
            proof {
                assert(self.writes@.take(i as int).drop_last() == self.writes@.take(i - 1));
            }
            if self.writes[i - 1].0 == key {
                return self.writes[i - 1].1;
            }
            i -= 1;
        }
        U256::zero()
    }

    /// Loads the slot `key`.
    pub fn sload(&mut self, key: U256) -> (value: U256)
        ensures
            value == old(self)@.value_at(key),
            final(self)@ == old(self)@.loaded(key),
    {
        let value = self.peek(key);
        self.trace.push(StorageOp::Load { key });
        value
    }

    /// Stores `value` in the slot `key`.
    pub fn sstore(&mut self, key: U256, value: U256)
        ensures
            final(self)@ == old(self)@.stored(key, value),
    {
        self.writes.push((key, value));
        self.trace.push(StorageOp::Store { key, value });
    }

    /// The place in the journal that a later revert can go back to.
    pub fn checkpoint(&self) -> (mark: usize)
        ensures
            mark == self@.writes.len(),
    {
        self.writes.len()
    }

    /// Forgets every write since the checkpoint `mark`. What was asked of the
    /// host stays on record.
    pub fn revert_to(&mut self, mark: usize)
        requires
            mark <= old(self)@.writes.len(),
        ensures
            final(self)@.writes == old(self)@.writes.take(mark as int),
            final(self)@.trace == old(self)@.trace,
    {
        self.writes.truncate(mark);
    }

    /// Counts the loads so far.
    pub fn load_count(&self) -> (count: usize)
        ensures
            count == self@.loads(),
    {
        let mut count: usize = 0;
        let mut i: usize = 0;
        while i < self.trace.len()
            invariant
                i <= self.trace.len(),
                count <= i,
                count == count_loads(self.trace@.take(i as int)),
            decreases self.trace.len() - i,
        {
            proof {
                assert(self.trace@.take(i + 1).drop_last() == self.trace@.take(i as int));
            }
            match self.trace[i] {
                StorageOp::Load { .. } => {
                    count += 1;
                },
                StorageOp::Store { .. } => {},
            }
            i += 1;
        }
        proof {
            assert(self.trace@.take(self.trace@.len() as int) == self.trace@);
        }
        count
    }

    /// Counts the stores so far.
    pub fn store_count(&self) -> (count: usize)
        ensures
            count == self@.stores(),
    {
        let mut count: usize = 0;
        let mut i: usize = 0;
        while i < self.trace.len()
            invariant
                i <= self.trace.len(),
                count <= i,
                count == count_stores(self.trace@.take(i as int)),
            decreases self.trace.len() - i,
        {
            proof {
                assert(self.trace@.take(i + 1).drop_last() == self.trace@.take(i as int));
            }
            match self.trace[i] {
                StorageOp::Load { .. } => {},
                StorageOp::Store { .. } => {
                    count += 1;
                },
            }
            i += 1;
        }
        proof {
            assert(self.trace@.take(self.trace@.len() as int) == self.trace@);
        }
        count
    }
}

/// One more operation adds one to the count of its kind and nothing to the other.
pub proof fn lemma_count_push(trace: Seq<StorageOp>, op: StorageOp)
    ensures
        count_loads(trace.push(op)) == count_loads(trace) + if op is Load {
            1nat
        } else {
            0nat
        },
        count_stores(trace.push(op)) == count_stores(trace) + if op is Store {
            1nat
        } else {
            0nat
        },
{
    assert(trace.push(op).drop_last() == trace);
}

/// A value that lives in one storage slot.
pub trait StorageStorable: Sized {
    /// The word that stands for the value in storage.
    spec fn to_word(self) -> U256;

    /// The value that a word in storage stands for.
    spec fn from_word(word: U256) -> Self;

    /// A value comes back from the word that stands for it.
    proof fn lemma_round_trip(self)
        ensures
            Self::from_word(self.to_word()) == self,
    ;

    /// Turns the value into the word that is stored.
    fn encode(&self) -> (word: U256)
        ensures
            word == self.to_word(),
    ;

    /// Turns a stored word into the value.
    fn decode(word: U256) -> (value: Self)
        ensures
            value == Self::from_word(word),
    ;
}

impl StorageStorable for U256 {
    open spec fn to_word(self) -> U256 {
        self
    }

    open spec fn from_word(word: U256) -> U256 {
        word
    }

    proof fn lemma_round_trip(self) {
    }

    fn encode(&self) -> (word: U256) {
        *self
    }

    fn decode(word: U256) -> (value: U256) {
        word
    }
}

impl StorageStorable for u64 {
    open spec fn to_word(self) -> U256 {
        U256 { low: self, mid_low: 0, mid_high: 0, high: 0 }
    }

    open spec fn from_word(word: U256) -> u64 {
        word.low
    }

    proof fn lemma_round_trip(self) {
    }

    fn encode(&self) -> (word: U256) {
        U256::from_u64(*self)
    }

    fn decode(word: U256) -> (value: u64) {
        word.low
    }
}

impl StorageStorable for bool {
    open spec fn to_word(self) -> U256 {
        U256 { low: if self { 1 } else { 0 }, mid_low: 0, mid_high: 0, high: 0 }
    }

    open spec fn from_word(word: U256) -> bool {
        word != U256::spec_zero()
    }

    proof fn lemma_round_trip(self) {
    }

    fn encode(&self) -> (word: U256) {
        if *self {
            U256::from_u64(1)
        } else {
            U256::from_u64(0)
        }
    }

    fn decode(word: U256) -> (value: bool) {
        word != U256::zero()
    }
}

/// Reads the value in the slot `key`.
pub fn read<V: StorageStorable>(storage: &mut Storage, key: U256) -> (value: V)
    ensures
        value == V::from_word(old(storage)@.value_at(key)),
        final(storage)@ == old(storage)@.loaded(key),
{
    V::decode(storage.sload(key))
}

/// Writes `value` into the slot `key`.
pub fn write<V: StorageStorable>(storage: &mut Storage, key: U256, value: &V)
    ensures
        final(storage)@ == old(storage)@.stored(key, value.to_word()),
{
    storage.sstore(key, value.encode());
}

/// A value that was stored in a slot is the value that a later load of the
/// slot gives, as long as nothing else was stored there in between.
pub proof fn lemma_store_then_load<V: StorageStorable>(storage: StorageView, key: U256, value: V)
    ensures
        V::from_word(storage.stored(key, value.to_word()).value_at(key)) == value,
        storage.stored(key, value.to_word()).loaded(key).value_at(key) == value.to_word(),
{
    value.lemma_round_trip();
}

/// A store to one slot leaves every other slot as it was, and so does a load.
pub proof fn lemma_store_elsewhere(storage: StorageView, key: U256, value: U256, other: U256)
    requires
        other != key,
    ensures
        storage.stored(key, value).value_at(other) == storage.value_at(other),
        storage.loaded(key).value_at(other) == storage.value_at(other),
{
    assert(storage.stored(key, value).writes.drop_last() == storage.writes);
}

} // verus!
