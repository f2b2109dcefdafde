//! Field-element and word primitives.
//!
//! Every identifier, hash digest and packed record in the pipeline is made of
//! field elements: integers modulo the fixed prime `FIELD_MODULUS`, grouped
//! four at a time into words.

use vstd::prelude::*;
use vstd::arithmetic::div_mod::{lemma_mod_multiples_vanish, lemma_small_mod};

verus! {

/// The prime modulus of the field: `2^64 - 2^32 + 1`.
pub const FIELD_MODULUS: u64 = 0xffff_ffff_0000_0001;

/// An integer modulo `FIELD_MODULUS`; all arithmetic wraps at the modulus.
#[derive(Clone, Copy, PartialEq, Eq, Structural, Debug, Hash)]
pub struct Felt {
    pub value: u64,
}

/// The canonical values of a sequence of field elements.
pub open spec fn vals(s: Seq<Felt>) -> Seq<u64> {
    s.map_values(|f: Felt| f.value)
}

/// Every element of the sequence is a canonical field element.
pub open spec fn all_valid(s: Seq<Felt>) -> bool {
    forall|i: int| 0 <= i < s.len() ==> #[trigger] s[i].valid()
}

impl Felt {
    /// The element is in canonical form, below the modulus.
    pub open spec fn valid(self) -> bool {
        self.value < FIELD_MODULUS
    }

    /// The zero element.
    pub fn zero() -> (r: Felt)
        ensures
            r.value == 0,
            r.valid(),
    {
        Felt { value: 0 }
    }

    /// The one element.
    pub fn one() -> (r: Felt)
        ensures
            r.value == 1,
            r.valid(),
    {
        Felt { value: 1 }
    }

    /// Builds the element whose canonical value is `v` reduced at the modulus.
    pub fn from_u64(v: u64) -> (r: Felt)
        ensures
            r.value == v as int % FIELD_MODULUS as int,
            r.valid(),
    {
        if v >= FIELD_MODULUS {
            let r = Felt { value: v - FIELD_MODULUS };
            proof {
                lemma_mod_multiples_vanish(1, r.value as int, FIELD_MODULUS as int);
                lemma_small_mod(r.value as nat, FIELD_MODULUS as nat);
            }
            r
        } else {
            proof {
                lemma_small_mod(v as nat, FIELD_MODULUS as nat);
            }
            Felt { value: v }
        }
    }

    /// The canonical value of the element.
    pub fn as_u64(self) -> (r: u64)
        ensures
            r == self.value,
    {
        self.value
    }

    /// Addition wrapping at the field modulus.
    pub fn add(self, rhs: Felt) -> (r: Felt)
        requires
            self.valid(),
            rhs.valid(),
        ensures
            r.value == (self.value + rhs.value) % (FIELD_MODULUS as int),
            r.valid(),
    {
        if self.value >= FIELD_MODULUS - rhs.value {
            let r = Felt { value: self.value - (FIELD_MODULUS - rhs.value) };
            proof {
                lemma_mod_multiples_vanish(1, r.value as int, FIELD_MODULUS as int);
                lemma_small_mod(r.value as nat, FIELD_MODULUS as nat);
            }
            r
        } else {
            let r = Felt { value: self.value + rhs.value };
            proof {
                lemma_small_mod(r.value as nat, FIELD_MODULUS as nat);
            }
            r
        }
    }
}

/// An ordered 4-tuple of field elements, used for digests, identifiers,
/// recipients and packed asset records.
#[derive(Clone, Copy, PartialEq, Eq, Structural, Debug, Hash)]
pub struct Word {
    pub e0: Felt,
    pub e1: Felt,
    pub e2: Felt,
    pub e3: Felt,
}

impl View for Word {
    type V = Seq<u64>;

    /// The canonical values of the four elements, in order.
    open spec fn view(&self) -> Seq<u64> {
        seq![self.e0.value, self.e1.value, self.e2.value, self.e3.value]
    }
}

impl Word {
    /// All four elements are in canonical form.
    pub open spec fn valid(self) -> bool {
        self.e0.valid() && self.e1.valid() && self.e2.valid() && self.e3.valid()
    }

    /// The word with the given elements, in order.
    pub fn new(e0: Felt, e1: Felt, e2: Felt, e3: Felt) -> (r: Word)
        ensures
            r == (Word { e0, e1, e2, e3 }),
    {
        Word { e0, e1, e2, e3 }
    }

    /// The all-zero word.
    pub fn zero() -> (r: Word)
        ensures
            r@ == seq![0u64, 0u64, 0u64, 0u64],
            r.valid(),
    {
        Word { e0: Felt { value: 0 }, e1: Felt { value: 0 }, e2: Felt { value: 0 }, e3: Felt { value: 0 } }
    }

    /// The elements of the word in reverse order.
    pub open spec fn spec_reversed(self) -> Word {
        Word { e0: self.e3, e1: self.e2, e2: self.e1, e3: self.e0 }
    }

    /// Reverses the order of the four elements.
    pub fn reversed(self) -> (r: Word)
        ensures
            r == self.spec_reversed(),
    {
        Word { e0: self.e3, e1: self.e2, e2: self.e1, e3: self.e0 }
    }
}

/// Reversal is an involution: reversing a word twice gives it back.
pub proof fn lemma_reversed_involution(w: Word)
    ensures
        w.spec_reversed().spec_reversed() == w,
{
}

/// Two words with the same view are the same word.
pub proof fn lemma_word_view_injective(a: Word, b: Word)
    requires
        a@ == b@,
    ensures
        a == b,
{
    assert(a@[0] == b@[0] && a@[1] == b@[1] && a@[2] == b@[2] && a@[3] == b@[3]);
}

} // verus!
