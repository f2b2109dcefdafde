//! The commit/verify/decode pipeline.
//!
//! The host side canonicalizes transfer parameters, computes their digest,
//! publishes the encoding in the advice map under that digest, and hands the
//! digest on with its elements reversed, because the execution environment's
//! argument-passing convention reads the most-recently-pushed element first.
//! The guest side receives the reversed digest as its public argument, looks
//! the preimage up, re-derives the digest while loading, and decodes the
//! preimage into structured parameters.  Any failure aborts the whole
//! execution; no partial effect is observable.

use vstd::prelude::*;
use crate::advice::{spec_load_outcome, AdviceMap};
use crate::error::AbortReason;
use crate::field::{all_valid, lemma_reversed_involution, vals, Felt, Word};
use crate::params::{spec_decode, decode, NoteParameters, ENCODED_LEN};
use crate::params::lemma_codec_round_trip;
use crate::rpo::{rpo_hash, rpo_hash_elements};

verus! {

/// Canonicalizes `params`, publishes (digest -> encoding) into `advice`,
/// and returns the digest -- elements reversed, per the argument-passing
/// convention -- together with the encoding.
///
/// The encoded length is fixed at twelve elements, so the word-alignment
/// invariant holds by construction and the function cannot fail.
pub fn build(params: &NoteParameters, advice: &mut AdviceMap) -> (r: (Word, Vec<Felt>))
    requires
        params.valid(),
        old(advice).inv(),
    ensures
        final(advice).inv(),
        vals(r.1@) == params.spec_encode(),
        r.1@.len() == ENCODED_LEN,
        all_valid(r.1@),
        r.0.spec_reversed()@ == rpo_hash_elements(params.spec_encode()),
        r.0.valid(),
        final(advice).as_map() == old(advice).as_map().insert(
            rpo_hash_elements(params.spec_encode()),
            params.spec_encode(),
        ),
{
    let encoded = params.encode();
    assert(encoded.len() % 4 == 0);
    let digest = rpo_hash(&encoded);
    let stored = params.encode();
    advice.insert(digest, stored);
    proof {
        lemma_reversed_involution(digest);
    }
    (digest.reversed(), encoded)
}

/// What the verifier yields for public argument `arg` over advice content
/// `m`: the decoded parameters, or the reason the execution aborts.  The
/// advice key is the argument with its elements reversed back to canonical
/// order; alignment is checked before the preimage is loaded, and the
/// re-derived hash is checked before anything is decoded.
pub open spec fn spec_run(m: Map<Seq<u64>, Seq<u64>>, arg: Word) -> Result<
    NoteParameters,
    AbortReason,
> {
    let key = arg.spec_reversed()@;
    if !m.contains_key(key) {
        Err(AbortReason::AbsentEntry)
    } else if m[key].len() % 4 != 0 {
        Err(AbortReason::AlignmentViolation)
    } else if rpo_hash_elements(m[key]) != key {
        Err(AbortReason::IntegrityViolation)
    } else if m[key].len() < ENCODED_LEN {
        Err(AbortReason::AlignmentViolation)
    } else {
        spec_decode(m[key])
    }
}

/// The guest entry point: verifies and decodes the preimage committed to
/// by the public argument `arg` (the canonical digest with its elements
/// reversed).
pub fn run(advice: &AdviceMap, arg: Word) -> (r: Result<NoteParameters, AbortReason>)
    requires
        advice.inv(),
        arg.valid(),
    ensures
        r == spec_run(advice.as_map(), arg),
        r matches Ok(p) ==> p.valid(),
{
    let digest = arg.reversed();
    let n = match advice.length_of(&digest) {
        Ok(n) => n,
        Err(e) => {
            return Err(e);
        },
    };
    if n % 4 != 0 {
        return Err(AbortReason::AlignmentViolation);
    }
    let words = n / 4;
    assert(words * 4 == n) by {
        vstd::arithmetic::div_mod::lemma_fundamental_div_mod(n as int, 4);
    };
    let vp = match advice.load_preimage(words, &digest) {
        Ok(vp) => vp,
        Err(e) => {
            assert(spec_load_outcome(advice.as_map(), words as int, digest@) == Err::<
                Seq<u64>,
                AbortReason,
            >(e));
            return Err(e);
        },
    };
    let elements = vp.elements();
    if elements.len() < ENCODED_LEN {
        return Err(AbortReason::AlignmentViolation);
    }
    decode(elements)
}

/// Round trip: for any parameter record, publishing its encoding under its
/// digest and running the verifier on the reversed digest reproduces the
/// record unchanged, whatever else the advice map holds.
pub proof fn lemma_commit_run_round_trip(m: Map<Seq<u64>, Seq<u64>>, p: NoteParameters, d: Word)
    requires
        p.valid(),
        d@ == rpo_hash_elements(p.spec_encode()),
    ensures
        spec_run(m.insert(d@, p.spec_encode()), d.spec_reversed()) == Ok::<
            NoteParameters,
            AbortReason,
        >(p),
{
    lemma_reversed_involution(d);
    lemma_codec_round_trip(p);
}

/// Integrity: a stored preimage over which the re-derived hash does not
/// reproduce the claimed digest -- in particular one altered after the
/// digest was published -- makes the load abort with an integrity
/// violation, whatever word count is requested.
pub proof fn lemma_altered_preimage_rejected(m: Map<Seq<u64>, Seq<u64>>, words: int, key: Seq<u64>)
    requires
        m.contains_key(key),
        rpo_hash_elements(m[key]) != key,
    ensures
        spec_load_outcome(m, words, key) == Err::<Seq<u64>, AbortReason>(
            AbortReason::IntegrityViolation,
        ),
{
}

/// Integrity at the verifier: a word-aligned entry whose re-derived hash
/// differs from its key makes the whole run abort with an integrity
/// violation.
pub proof fn lemma_run_rejects_mismatched_digest(m: Map<Seq<u64>, Seq<u64>>, arg: Word)
    requires
        m.contains_key(arg.spec_reversed()@),
        m[arg.spec_reversed()@].len() % 4 == 0,
        rpo_hash_elements(m[arg.spec_reversed()@]) != arg.spec_reversed()@,
    ensures
        spec_run(m, arg) == Err::<NoteParameters, AbortReason>(AbortReason::IntegrityViolation),
{
}

/// Alignment: an entry whose stored length is not a multiple of the word
/// size makes the run abort with an alignment violation before any load or
/// decode is attempted, whatever the entry's hash.
pub proof fn lemma_run_rejects_misaligned_entry(m: Map<Seq<u64>, Seq<u64>>, arg: Word)
    requires
        m.contains_key(arg.spec_reversed()@),
        m[arg.spec_reversed()@].len() % 4 != 0,
    ensures
        spec_run(m, arg) == Err::<NoteParameters, AbortReason>(AbortReason::AlignmentViolation),
{
}

} // verus!
