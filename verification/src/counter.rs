//! The storage-map capability and the counter component built on it.
//!
//! A storage map is a key-to-word map held in one fixed contract-storage
//! slot; reading an unset key yields the zero word.  The counter keeps a
//! scalar under one fixed key and increments it by one field element per
//! call, wrapping at the field modulus with no distinct overflow signal.

use vstd::prelude::*;
use crate::field::{Felt, Word, FIELD_MODULUS};

verus! {

/// The mathematical content of a sequence of storage entries: later
/// entries shadow earlier ones with the same key.
pub open spec fn storage_entries_map(s: Seq<(Word, Word)>) -> Map<Seq<u64>, Word>
    decreases s.len(),
{
    if s.len() == 0 {
        Map::empty()
    } else {
        storage_entries_map(s.drop_last()).insert(s.last().0@, s.last().1)
    }
}

/// The zero word, read from every unset storage key.
pub open spec fn spec_zero_word() -> Word {
    Word {
        e0: Felt { value: 0 },
        e1: Felt { value: 0 },
        e2: Felt { value: 0 },
        e3: Felt { value: 0 },
    }
}

/// A key-to-word map held in one contract-storage slot.
pub struct StorageMap {
    entries: Vec<(Word, Word)>,
}

impl StorageMap {
    /// Every key and every stored word is canonical.
    pub closed spec fn inv(self) -> bool {
        forall|i: int|
            0 <= i < self.entries@.len() ==> (#[trigger] self.entries@[i]).0.valid()
                && self.entries@[i].1.valid()
    }

    /// The bindings the map holds.
    pub closed spec fn as_map(self) -> Map<Seq<u64>, Word> {
        storage_entries_map(self.entries@)
    }

    /// The word read under `key`: the bound word, or the zero word where
    /// none is bound.
    pub open spec fn spec_get(self, key: Seq<u64>) -> Word {
        if self.as_map().contains_key(key) {
            self.as_map()[key]
        } else {
            spec_zero_word()
        }
    }

    /// An empty storage map.
    pub fn new() -> (r: StorageMap)
        ensures
            r.inv(),
            r.as_map() == Map::<Seq<u64>, Word>::empty(),
    {
        StorageMap { entries: Vec::new() }
    }

    /// The index of the binding of `key`, if the map holds one.
    fn find(&self, key: &Word) -> (r: Option<usize>)
        requires
            self.inv(),
        ensures
            match r {
                Some(i) => {
                    &&& i < self.entries@.len()
                    &&& self.entries@[i as int].0 == *key
                    &&& self.as_map().contains_key(key@)
                    &&& self.as_map()[key@] == self.entries@[i as int].1
                },
                None => !self.as_map().contains_key(key@),
            },
    {
        let ghost all = self.entries@;
        let n = self.entries.len();
        let mut found: Option<usize> = None;
        for i in 0..n
            invariant
                n == all.len(),
                self.entries@ == all,
                self.inv(),
                match found {
                    Some(j) => {
                        &&& j < i
                        &&& all[j as int].0 == *key
                        &&& storage_entries_map(all.take(i as int)).contains_key(key@)
                        &&& storage_entries_map(all.take(i as int))[key@] == all[j as int].1
                    },
                    None => !storage_entries_map(all.take(i as int)).contains_key(key@),
                },
        {
            proof {
                assert(all.take(i + 1).drop_last() =~= all.take(i as int));
                assert(all.take(i + 1).last() == all[i as int]);
            }
            let cur = &self.entries[i];
            if cur.0 == *key {
                found = Some(i);
            } else {
                proof {
                    if cur.0@ == key@ {
                        crate::field::lemma_word_view_injective(cur.0, *key);
                    }
                }
            }
        }
        proof {
            assert(all.take(n as int) =~= all);
        }
        found
    }

    /// Reads the word bound under `key`, or the zero word where none is.
    pub fn get(&self, key: &Word) -> (r: Word)
        requires
            self.inv(),
        ensures
            r == self.spec_get(key@),
            r.valid(),
    {
        match self.find(key) {
            Some(i) => self.entries[i].1,
            None => Word {
                e0: Felt { value: 0 },
                e1: Felt { value: 0 },
                e2: Felt { value: 0 },
                e3: Felt { value: 0 },
            },
        }
    }

    /// Binds `key` to `value`, shadowing any earlier binding.
    pub fn set(&mut self, key: Word, value: Word)
        requires
            old(self).inv(),
            key.valid(),
            value.valid(),
        ensures
            final(self).inv(),
            final(self).as_map() == old(self).as_map().insert(key@, value),
    {
        let ghost old_entries = self.entries@;
        self.entries.push((key, value));
        proof {
            assert(self.entries@.drop_last() =~= old_entries);
        }
    }
}

/// The fixed key under which the counter keeps its value.
pub open spec fn spec_counter_key() -> Word {
    Word {
        e0: Felt { value: 0 },
        e1: Felt { value: 0 },
        e2: Felt { value: 0 },
        e3: Felt { value: 1 },
    }
}

/// The fixed key under which the counter keeps its value.
pub fn counter_key() -> (r: Word)
    ensures
        r == spec_counter_key(),
        r.valid(),
{
    Word {
        e0: Felt { value: 0 },
        e1: Felt { value: 0 },
        e2: Felt { value: 0 },
        e3: Felt { value: 1 },
    }
}

/// The counter component: a storage map whose fixed key holds the
/// counter's scalar in its last element.
pub struct CounterContract {
    pub count_map: StorageMap,
}

impl CounterContract {
    /// The storage map is well-formed.
    pub open spec fn inv(self) -> bool {
        self.count_map.inv()
    }

    /// The counter's current value: the scalar under the fixed key.
    pub open spec fn spec_count(self) -> u64 {
        self.count_map.spec_get(spec_counter_key()@).e3.value
    }

    /// A counter over an empty storage map, reading zero.
    pub fn new() -> (r: CounterContract)
        ensures
            r.inv(),
            r.spec_count() == 0,
    {
        CounterContract { count_map: StorageMap::new() }
    }

    /// Returns the current counter value stored in the contract's storage
    /// map.
    pub fn get_count(&self) -> (r: Felt)
        requires
            self.inv(),
        ensures
            r.value == self.spec_count(),
            r.valid(),
    {
        let key = counter_key();
        self.count_map.get(&key).e3
    }

    /// Increments the counter value stored in the contract's storage map
    /// by one, wrapping at the field modulus, and returns the new value.
    pub fn increment_count(&mut self) -> (r: Felt)
        requires
            old(self).inv(),
        ensures
            final(self).inv(),
            r.value == final(self).spec_count(),
            final(self).spec_count() == (old(self).spec_count() + 1) % (FIELD_MODULUS as int),
            r.valid(),
    {
        let key = counter_key();
        let current = self.count_map.get(&key).e3;
        let new_value = current.add(Felt::one());
        self.count_map.set(
            key,
            Word {
                e0: Felt { value: 0 },
                e1: Felt { value: 0 },
                e2: Felt { value: 0 },
                e3: new_value,
            },
        );
        new_value
    }
}

/// The counter note script: reads the counter, increments it, and checks
/// that the value read afterwards is the initial value plus one.  The
/// check is discharged by proof rather than at run time.
pub fn run_increment_note(counter: &mut CounterContract)
    requires
        old(counter).inv(),
    ensures
        final(counter).inv(),
        final(counter).spec_count() == (old(counter).spec_count() + 1) % (FIELD_MODULUS as int),
{
    let initial_value = counter.get_count();
    counter.increment_count();
    let expected_value = initial_value.add(Felt::one());
    let final_value = counter.get_count();
    assert(final_value == expected_value);
}

/// Reads are stable: two reads of one counter state, with no intervening
/// increment, return identical values.
pub proof fn lemma_counter_reads_agree(c: CounterContract, r1: Felt, r2: Felt)
    requires
        r1.value == c.spec_count(),
        r2.value == c.spec_count(),
    ensures
        r1 == r2,
{
}

/// Counter arithmetic: an increment followed by a read returns the
/// previous value plus one, wrapped at the field modulus.
pub proof fn lemma_increment_then_get(before: CounterContract, after: CounterContract, read: Felt)
    requires
        after.spec_count() == (before.spec_count() + 1) % (FIELD_MODULUS as int),
        read.value == after.spec_count(),
    ensures
        read.value == (before.spec_count() + 1) % (FIELD_MODULUS as int),
{
}

} // verus!
