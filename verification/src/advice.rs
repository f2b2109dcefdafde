//! The advice map: an untrusted, read-only side-input keyed by digest.
//!
//! The host populates the map before execution begins; the guest reads it
//! through two primitives, `length_of` and `load_preimage`.  The map itself
//! never guarantees that an entry's digest matches its preimage: the guest
//! re-derives the hash while loading, and a [`VerifiedPreimage`] can only
//! be built after that check succeeds, so no code path can consume
//! unchecked advice data.

use vstd::prelude::*;
use crate::error::AbortReason;
use crate::field::{Felt, Word, all_valid, vals, lemma_word_view_injective};
use crate::rpo::{rpo_hash, rpo_hash_elements};

verus! {

/// The mathematical content of a sequence of advice entries: later entries
/// shadow earlier ones with the same digest.
pub open spec fn entries_map(s: Seq<(Word, Vec<Felt>)>) -> Map<Seq<u64>, Seq<u64>>
    decreases s.len(),
{
    if s.len() == 0 {
        Map::empty()
    } else {
        entries_map(s.drop_last()).insert(s.last().0@, vals(s.last().1@))
    }
}

/// An untrusted map from digest to preimage, populated once by the host
/// before execution and immutable thereafter.
pub struct AdviceMap {
    entries: Vec<(Word, Vec<Felt>)>,
}

/// A preimage together with the digest it was loaded under, constructible
/// only after the hash over its elements has been re-derived and found
/// equal to that digest.
pub struct VerifiedPreimage {
    digest: Word,
    elements: Vec<Felt>,
}

impl VerifiedPreimage {
    /// The digest the preimage was authenticated against.
    pub closed spec fn spec_digest(self) -> Word {
        self.digest
    }

    /// The authenticated field elements.
    pub closed spec fn spec_elements(self) -> Seq<Felt> {
        self.elements@
    }

    /// The authenticity invariant: the hash over the elements equals the
    /// digest, and every element is canonical.
    pub open spec fn wf(self) -> bool {
        &&& rpo_hash_elements(vals(self.spec_elements())) == self.spec_digest()@
        &&& all_valid(self.spec_elements())
        &&& self.spec_digest().valid()
    }

    /// The authenticated elements.
    pub fn elements(&self) -> (r: &Vec<Felt>)
        ensures
            r@ == self.spec_elements(),
    {
        &self.elements
    }

    /// The digest the preimage was authenticated against.
    pub fn digest(&self) -> (r: Word)
        ensures
            r == self.spec_digest(),
    {
        self.digest
    }
}

/// What loading `words` words under `key` from advice content `m` yields:
/// the preimage stored under `key`, or the reason the load aborts.  A
/// stored length other than `words * 4` cannot reproduce the digest and
/// surfaces as an integrity violation, exactly as a mismatched hash does.
pub open spec fn spec_load_outcome(
    m: Map<Seq<u64>, Seq<u64>>,
    words: int,
    key: Seq<u64>,
) -> Result<Seq<u64>, AbortReason> {
    if !m.contains_key(key) {
        Err(AbortReason::AbsentEntry)
    } else if m[key].len() != words * 4 {
        Err(AbortReason::IntegrityViolation)
    } else if rpo_hash_elements(m[key]) != key {
        Err(AbortReason::IntegrityViolation)
    } else {
        Ok(m[key])
    }
}

impl AdviceMap {
    /// Every digest and every stored element is a canonical field element.
    pub closed spec fn inv(self) -> bool {
        forall|i: int|
            0 <= i < self.entries@.len() ==> (#[trigger] self.entries@[i]).0.valid() && all_valid(
                self.entries@[i].1@,
            )
    }

    /// The content of the map: each digest bound to its stored preimage
    /// values.
    pub closed spec fn as_map(self) -> Map<Seq<u64>, Seq<u64>> {
        entries_map(self.entries@)
    }

    /// An empty advice map.
    pub fn new() -> (r: AdviceMap)
        ensures
            r.inv(),
            r.as_map() == Map::<Seq<u64>, Seq<u64>>::empty(),
    {
        AdviceMap { entries: Vec::new() }
    }

    /// Binds `digest` to `preimage`, shadowing any earlier binding.
    pub fn insert(&mut self, digest: Word, preimage: Vec<Felt>)
        requires
            old(self).inv(),
            digest.valid(),
            all_valid(preimage@),
        ensures
            final(self).inv(),
            final(self).as_map() == old(self).as_map().insert(digest@, vals(preimage@)),
    {
        let ghost old_entries = self.entries@;
        self.entries.push((digest, preimage));
        proof {
            assert(self.entries@.drop_last() =~= old_entries);
        }
    }

    /// Computes the digest of `preimage`, binds the digest to it, and
    /// returns the digest: how the host publishes a commitment entry for
    /// a raw element sequence.
    pub fn insert_committed(&mut self, preimage: Vec<Felt>) -> (d: Word)
        requires
            old(self).inv(),
            all_valid(preimage@),
        ensures
            final(self).inv(),
            d@ == rpo_hash_elements(vals(preimage@)),
            d.valid(),
            final(self).as_map() == old(self).as_map().insert(d@, vals(preimage@)),
    {
        let digest = rpo_hash(&preimage);
        self.insert(digest, preimage);
        digest
    }

    /// The index of the binding of `digest`, if the map holds one.
    fn find(&self, digest: &Word) -> (r: Option<usize>)
        requires
            self.inv(),
        ensures
            match r {
                Some(i) => {
                    &&& i < self.entries@.len()
                    &&& self.entries@[i as int].0 == *digest
                    &&& self.as_map().contains_key(digest@)
                    &&& self.as_map()[digest@] == vals(self.entries@[i as int].1@)
                },
                None => !self.as_map().contains_key(digest@),
            },
    {
        let ghost all = self.entries@;
        let n = self.entries.len();
        let mut found: Option<usize> = None;
        for i in 0..n
            invariant
                n == all.len(),
                self.entries@ == all,
                self.inv(),
                match found {
                    Some(j) => {
                        &&& j < i
                        &&& all[j as int].0 == *digest
                        &&& entries_map(all.take(i as int)).contains_key(digest@)
                        &&& entries_map(all.take(i as int))[digest@] == vals(all[j as int].1@)
                    },
                    None => !entries_map(all.take(i as int)).contains_key(digest@),
                },
        {
            proof {
                assert(all.take(i + 1).drop_last() =~= all.take(i as int));
                assert(all.take(i + 1).last() == all[i as int]);
            }
            let cur = &self.entries[i];
            if cur.0 == *digest {
                found = Some(i);
            } else {
                proof {
                    if cur.0@ == digest@ {
                        lemma_word_view_injective(cur.0, *digest);
                    }
                }
            }
        }
        proof {
            assert(all.take(n as int) =~= all);
        }
        found
    }

    /// Whether the map holds an entry under `digest`.
    pub fn contains(&self, digest: &Word) -> (r: bool)
        requires
            self.inv(),
        ensures
            r == self.as_map().contains_key(digest@),
    {
        self.find(digest).is_some()
    }

    /// The count of field elements stored under `digest`, or `AbsentEntry`
    /// if no entry exists.
    pub fn length_of(&self, digest: &Word) -> (r: Result<usize, AbortReason>)
        requires
            self.inv(),
        ensures
            match r {
                Ok(n) => self.as_map().contains_key(digest@) && n == self.as_map()[digest@].len(),
                Err(e) => e == AbortReason::AbsentEntry && !self.as_map().contains_key(digest@),
            },
    {
        match self.find(digest) {
            Some(i) => Ok(self.entries[i].1.len()),
            None => Err(AbortReason::AbsentEntry),
        }
    }

    /// Loads the preimage of `words` words stored under `digest`,
    /// re-deriving the hash over the returned elements and aborting if the
    /// re-derived value differs from `digest`.  The guest never consumes an
    /// advice value without this check having succeeded.
    pub fn load_preimage(&self, words: usize, digest: &Word) -> (r: Result<
        VerifiedPreimage,
        AbortReason,
    >)
        requires
            self.inv(),
            digest.valid(),
            words <= usize::MAX / 4,
        ensures
            match r {
                Ok(vp) => {
                    &&& spec_load_outcome(self.as_map(), words as int, digest@) == Ok::<
                        Seq<u64>,
                        AbortReason,
                    >(vals(vp.spec_elements()))
                    &&& vp.wf()
                    &&& vp.spec_digest() == *digest
                    &&& vp.spec_elements().len() == words * 4
                },
                Err(e) => spec_load_outcome(self.as_map(), words as int, digest@) == Err::<
                    Seq<u64>,
                    AbortReason,
                >(e),
            },
    {
        let i = match self.find(digest) {
            Some(i) => i,
            None => {
                return Err(AbortReason::AbsentEntry);
            },
        };
        let stored = &self.entries[i].1;
        if stored.len() != words * 4 {
            return Err(AbortReason::IntegrityViolation);
        }
        let recomputed = rpo_hash(stored);
        if recomputed == *digest {
            let elements = copy_felts(stored);
            Ok(VerifiedPreimage { digest: *digest, elements })
        } else {
            proof {
                if rpo_hash_elements(vals(stored@)) == digest@ {
                    lemma_word_view_injective(recomputed, *digest);
                }
            }
            Err(AbortReason::IntegrityViolation)
        }
    }
}

/// A fresh vector holding the same elements.
fn copy_felts(v: &Vec<Felt>) -> (r: Vec<Felt>)
    ensures
        r@ == v@,
{
    let mut out: Vec<Felt> = Vec::new();
    let n = v.len();
    for i in 0..n
        invariant
            n == v@.len(),
            out@ == v@.take(i as int),
    {
        out.push(v[i]);
    }
    proof {
        assert(v@.take(n as int) =~= v@);
    }
    out
}

} // verus!
