//! The commitment hash.
//!
//! Digests are computed with the RPO sponge over field elements, supplied by
//! an outside crate.  The hash itself is not restated here: its result is
//! given a name, `rpo_hash_elements`, and every contract in the pipeline
//! speaks of that name.

use vstd::prelude::*;
use crate::field::{Felt, Word, all_valid, vals};

verus! {

/// The digest that the RPO hash assigns to a sequence of canonical field
/// element values.  The result depends on the input values alone.
pub uninterp spec fn rpo_hash_elements(input: Seq<u64>) -> Seq<u64>;

/// Relies on `miden_core::crypto::hash::Rpo256::hash_elements`: a hash of
/// the provided field elements, one word of four canonical field elements,
/// determined by the input elements alone.
#[verifier::external_body]
pub(crate) fn rpo_hash(elements: &Vec<Felt>) -> (d: Word)
    requires
        all_valid(elements@),
    ensures
        d@ == rpo_hash_elements(vals(elements@)),
        d.valid(),
{
    let felts: Vec<miden_core::Felt> = elements.iter().map(|f| miden_core::Felt::new(f.value)).collect();
    let digest = miden_core::crypto::hash::Rpo256::hash_elements(&felts);
    let ints: [u64; 4] = digest.into();
    Word {
        e0: Felt { value: ints[0] },
        e1: Felt { value: ints[1] },
        e2: Felt { value: ints[2] },
        e3: Felt { value: ints[3] },
    }
}

} // verus!
