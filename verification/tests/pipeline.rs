//! End-to-end tests of the commit/verify/decode pipeline.

use miden_note_core::advice::AdviceMap;
use miden_note_core::commitment::{build, run};
use miden_note_core::error::AbortReason;
use miden_note_core::field::{Felt, Word, FIELD_MODULUS};
use miden_note_core::params::{decode, ExecutionHint, NoteParameters, NoteType};

fn felt(v: u64) -> Felt {
    Felt::from_u64(v)
}

fn word(a: u64, b: u64, c: u64, d: u64) -> Word {
    Word::new(felt(a), felt(b), felt(c), felt(d))
}

fn sample_params() -> NoteParameters {
    NoteParameters {
        tag: felt(7),
        aux: felt(0),
        note_type: NoteType::Public,
        execution_hint: ExecutionHint::Always,
        recipient: word(11, 12, 13, 14),
        asset: word(21, 22, 0, 500),
    }
}

#[test]
fn codec_round_trip() {
    let params = sample_params();
    let encoded = params.encode();
    assert_eq!(encoded.len(), 12);
    assert_eq!(encoded[0].as_u64(), 7);
    assert_eq!(encoded[1].as_u64(), 0);
    assert_eq!(encoded[2].as_u64(), 1);
    assert_eq!(encoded[3].as_u64(), 1);
    assert_eq!(encoded[4].as_u64(), 11);
    assert_eq!(encoded[11].as_u64(), 500);
    let decoded = decode(&encoded).unwrap();
    assert_eq!(decoded, params);
}

#[test]
fn decode_rejects_unknown_note_type() {
    let params = sample_params();
    let mut encoded = params.encode();
    encoded[2] = felt(9);
    assert_eq!(decode(&encoded), Err(AbortReason::EnumDecodeError));
}

#[test]
fn decode_rejects_unknown_execution_hint() {
    let params = sample_params();
    let mut encoded = params.encode();
    encoded[3] = felt(77);
    assert_eq!(decode(&encoded), Err(AbortReason::EnumDecodeError));
}

#[test]
fn build_then_run_round_trip() {
    let params = sample_params();
    let mut advice = AdviceMap::new();
    let (arg, encoded) = build(&params, &mut advice);
    assert_eq!(encoded.len(), 12);
    let decoded = run(&advice, arg).unwrap();
    assert_eq!(decoded, params);
}

#[test]
fn run_needs_the_reversed_digest() {
    // The public argument must carry the digest's elements in reverse
    // order; handing over the canonical digest itself must not find the
    // entry (the digest is never a palindrome for this input).
    let params = sample_params();
    let mut advice = AdviceMap::new();
    let (arg, _) = build(&params, &mut advice);
    let canonical = arg.reversed();
    assert_ne!(arg, canonical);
    assert_eq!(run(&advice, canonical), Err(AbortReason::AbsentEntry));
}

#[test]
fn digest_is_not_a_prefix_of_the_preimage() {
    // The digest must come out of the hash, not out of the encoding
    // itself: for this record the canonical digest differs from the
    // first word of the preimage.
    let params = sample_params();
    let mut advice = AdviceMap::new();
    let (arg, encoded) = build(&params, &mut advice);
    let canonical = arg.reversed();
    let first_word = Word::new(encoded[0], encoded[1], encoded[2], encoded[3]);
    assert_ne!(canonical, first_word);
}

#[test]
fn commitment_is_deterministic() {
    let params = sample_params();
    let mut advice_a = AdviceMap::new();
    let mut advice_b = AdviceMap::new();
    let (arg_a, _) = build(&params, &mut advice_a);
    let (arg_b, _) = build(&params, &mut advice_b);
    assert_eq!(arg_a, arg_b);
}

#[test]
fn altered_preimage_is_rejected() {
    // Keep the claimed digest but change one stored field element: the
    // re-derived hash no longer matches and the load aborts.
    let params = sample_params();
    let mut advice = AdviceMap::new();
    let (arg, encoded) = build(&params, &mut advice);
    let canonical = arg.reversed();

    let mut tampered = AdviceMap::new();
    let mut altered = encoded.clone();
    altered[11] = felt(altered[11].as_u64() + 1);
    tampered.insert(canonical, altered);
    assert_eq!(run(&tampered, arg), Err(AbortReason::IntegrityViolation));
}

#[test]
fn misaligned_entry_is_rejected_before_decode() {
    // A stored length that is not a multiple of 4 aborts with an
    // alignment violation even though the entry's digest is honest.
    let mut advice = AdviceMap::new();
    let preimage = vec![felt(1), felt(2), felt(3), felt(4), felt(5)];
    let digest = advice.insert_committed(preimage);
    assert_eq!(
        run(&advice, digest.reversed()),
        Err(AbortReason::AlignmentViolation)
    );
}

#[test]
fn aligned_but_short_entry_is_rejected() {
    // Two words are word-aligned but shorter than the fixed
    // twelve-element record.
    let mut advice = AdviceMap::new();
    let preimage = vec![
        felt(1),
        felt(2),
        felt(3),
        felt(4),
        felt(5),
        felt(6),
        felt(7),
        felt(8),
    ];
    let digest = advice.insert_committed(preimage);
    assert_eq!(
        run(&advice, digest.reversed()),
        Err(AbortReason::AlignmentViolation)
    );
}

#[test]
fn absent_entry_is_rejected() {
    let advice = AdviceMap::new();
    let arg = word(1, 2, 3, 4);
    assert_eq!(run(&advice, arg), Err(AbortReason::AbsentEntry));
}

#[test]
fn committed_bad_note_type_is_rejected_at_decode() {
    // An honestly committed preimage with an unrecognized note-type code
    // passes the hash check and fails only at decode.
    let params = sample_params();
    let mut encoded = params.encode();
    encoded[2] = felt(9);
    let mut advice = AdviceMap::new();
    let digest = advice.insert_committed(encoded);
    assert_eq!(
        run(&advice, digest.reversed()),
        Err(AbortReason::EnumDecodeError)
    );
}

#[test]
fn longer_aligned_preimage_decodes_from_fixed_offsets() {
    // Sixteen committed elements are word-aligned; the record is read
    // from the fixed offsets and the tail is ignored.
    let params = sample_params();
    let mut encoded = params.encode();
    encoded.push(felt(91));
    encoded.push(felt(92));
    encoded.push(felt(93));
    encoded.push(felt(94));
    let mut advice = AdviceMap::new();
    let digest = advice.insert_committed(encoded);
    let decoded = run(&advice, digest.reversed()).unwrap();
    assert_eq!(decoded, params);
}

#[test]
fn advice_lookup_reports_length() {
    let mut advice = AdviceMap::new();
    let digest = advice.insert_committed(vec![felt(5); 12]);
    assert_eq!(advice.length_of(&digest), Ok(12));
    let other = word(9, 9, 9, 9);
    assert_eq!(advice.length_of(&other), Err(AbortReason::AbsentEntry));
}

#[test]
fn later_binding_shadows_earlier() {
    let mut advice = AdviceMap::new();
    let digest = word(1, 2, 3, 4);
    advice.insert(digest, vec![felt(1); 4]);
    advice.insert(digest, vec![felt(2); 8]);
    assert_eq!(advice.length_of(&digest), Ok(8));
}

#[test]
fn felt_addition_wraps_at_the_modulus() {
    let max = Felt::from_u64(FIELD_MODULUS - 1);
    assert_eq!(max.add(Felt::one()).as_u64(), 0);
    assert_eq!(Felt::from_u64(FIELD_MODULUS).as_u64(), 0);
    assert_eq!(felt(3).add(felt(4)).as_u64(), 7);
}

#[test]
fn word_reversal_is_an_involution() {
    let w = word(1, 2, 3, 4);
    let r = w.reversed();
    assert_eq!(r, word(4, 3, 2, 1));
    assert_eq!(r.reversed(), w);
}
