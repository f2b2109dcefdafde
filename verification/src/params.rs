//! Transfer parameters and their canonical word-aligned encoding.
//!
//! A parameter record is encoded as exactly twelve field elements in fixed
//! order: `[tag, aux, note_type, execution_hint, recipient(4), asset(4)]`.
//! The encoded length is always a multiple of the word size.

use vstd::prelude::*;
use crate::error::AbortReason;
use crate::field::{Felt, Word, all_valid, vals};

verus! {

/// How broadly a note's content is published.
#[derive(Clone, Copy, PartialEq, Eq, Structural, Debug)]
pub enum NoteType {
    Public,
    Private,
    Encrypted,
}

/// When a note is intended to be consumed.
#[derive(Clone, Copy, PartialEq, Eq, Structural, Debug)]
pub enum ExecutionHint {
    Unspecified,
    Always,
    AfterBlock,
    OnBlockSlot,
}

/// The field-element code of a note type.
pub open spec fn note_type_code(t: NoteType) -> u64 {
    match t {
        NoteType::Public => 1,
        NoteType::Private => 2,
        NoteType::Encrypted => 3,
    }
}

/// The note type recognized under a field-element code, if any.
pub open spec fn spec_note_type_of(code: u64) -> Option<NoteType> {
    if code == 1 {
        Some(NoteType::Public)
    } else if code == 2 {
        Some(NoteType::Private)
    } else if code == 3 {
        Some(NoteType::Encrypted)
    } else {
        None
    }
}

/// The field-element code of an execution hint.
pub open spec fn execution_hint_code(h: ExecutionHint) -> u64 {
    match h {
        ExecutionHint::Unspecified => 0,
        ExecutionHint::Always => 1,
        ExecutionHint::AfterBlock => 2,
        ExecutionHint::OnBlockSlot => 3,
    }
}

/// The execution hint recognized under a field-element code, if any.
pub open spec fn spec_execution_hint_of(code: u64) -> Option<ExecutionHint> {
    if code == 0 {
        Some(ExecutionHint::Unspecified)
    } else if code == 1 {
        Some(ExecutionHint::Always)
    } else if code == 2 {
        Some(ExecutionHint::AfterBlock)
    } else if code == 3 {
        Some(ExecutionHint::OnBlockSlot)
    } else {
        None
    }
}

impl NoteType {
    /// The field element carrying this note type's code.
    pub fn to_felt(self) -> (r: Felt)
        ensures
            r.value == note_type_code(self),
            r.valid(),
    {
        match self {
            NoteType::Public => Felt { value: 1 },
            NoteType::Private => Felt { value: 2 },
            NoteType::Encrypted => Felt { value: 3 },
        }
    }

    /// The note type recognized under `code`, or `None` outside the
    /// recognized set.
    pub fn from_code(code: u64) -> (r: Option<NoteType>)
        ensures
            r == spec_note_type_of(code),
    {
        if code == 1 {
            Some(NoteType::Public)
        } else if code == 2 {
            Some(NoteType::Private)
        } else if code == 3 {
            Some(NoteType::Encrypted)
        } else {
            None
        }
    }
}

impl ExecutionHint {
    /// The field element carrying this hint's code.
    pub fn to_felt(self) -> (r: Felt)
        ensures
            r.value == execution_hint_code(self),
            r.valid(),
    {
        match self {
            ExecutionHint::Unspecified => Felt { value: 0 },
            ExecutionHint::Always => Felt { value: 1 },
            ExecutionHint::AfterBlock => Felt { value: 2 },
            ExecutionHint::OnBlockSlot => Felt { value: 3 },
        }
    }

    /// The execution hint recognized under `code`, or `None` outside the
    /// recognized set.
    pub fn from_code(code: u64) -> (r: Option<ExecutionHint>)
        ensures
            r == spec_execution_hint_of(code),
    {
        if code == 0 {
            Some(ExecutionHint::Unspecified)
        } else if code == 1 {
            Some(ExecutionHint::Always)
        } else if code == 2 {
            Some(ExecutionHint::AfterBlock)
        } else if code == 3 {
            Some(ExecutionHint::OnBlockSlot)
        } else {
            None
        }
    }
}

/// The structured parameters of one note transfer.
#[derive(Clone, Copy, PartialEq, Eq, Structural, Debug)]
pub struct NoteParameters {
    pub tag: Felt,
    pub aux: Felt,
    pub note_type: NoteType,
    pub execution_hint: ExecutionHint,
    pub recipient: Word,
    pub asset: Word,
}

/// The number of field elements in a canonical parameter encoding.
pub const ENCODED_LEN: usize = 12;

/// The word built from four consecutive values of a sequence starting at
/// `at`.
pub open spec fn word_at(s: Seq<u64>, at: int) -> Word {
    Word {
        e0: Felt { value: s[at] },
        e1: Felt { value: s[at + 1] },
        e2: Felt { value: s[at + 2] },
        e3: Felt { value: s[at + 3] },
    }
}

impl NoteParameters {
    /// All field elements of the record are canonical.
    pub open spec fn valid(self) -> bool {
        self.tag.valid() && self.aux.valid() && self.recipient.valid() && self.asset.valid()
    }

    /// The canonical encoding: twelve values in fixed order.
    pub open spec fn spec_encode(self) -> Seq<u64> {
        seq![
            self.tag.value,
            self.aux.value,
            note_type_code(self.note_type),
            execution_hint_code(self.execution_hint),
        ] + self.recipient@ + self.asset@
    }

    /// Canonically encodes the record into field elements.
    ///
    /// The result always holds exactly twelve elements, a multiple of the
    /// word size.
    pub fn encode(&self) -> (r: Vec<Felt>)
        requires
            self.valid(),
        ensures
            vals(r@) == self.spec_encode(),
            r@.len() == ENCODED_LEN,
            all_valid(r@),
    {
        let mut out: Vec<Felt> = Vec::new();
        out.push(self.tag);
        out.push(self.aux);
        out.push(self.note_type.to_felt());
        out.push(self.execution_hint.to_felt());
        out.push(self.recipient.e0);
        out.push(self.recipient.e1);
        out.push(self.recipient.e2);
        out.push(self.recipient.e3);
        out.push(self.asset.e0);
        out.push(self.asset.e1);
        out.push(self.asset.e2);
        out.push(self.asset.e3);
        proof {
            assert(vals(out@) =~= self.spec_encode());
        }
        out
    }
}

/// The decode of a word-aligned preimage holding at least a full parameter
/// record: the record read at the fixed offsets, or the reason the record
/// is rejected.
pub open spec fn spec_decode(s: Seq<u64>) -> Result<NoteParameters, AbortReason>
    recommends
        s.len() >= ENCODED_LEN,
{
    match spec_note_type_of(s[2]) {
        Option::None => Err(AbortReason::EnumDecodeError),
        Option::Some(note_type) => match spec_execution_hint_of(s[3]) {
            Option::None => Err(AbortReason::EnumDecodeError),
            Option::Some(execution_hint) => Ok(
                NoteParameters {
                    tag: Felt { value: s[0] },
                    aux: Felt { value: s[1] },
                    note_type,
                    execution_hint,
                    recipient: word_at(s, 4),
                    asset: word_at(s, 8),
                },
            ),
        },
    }
}

/// Decodes a preimage at the fixed offsets.
///
/// Returns the decoded record exactly when the note-type and
/// execution-hint codes are recognized, and `EnumDecodeError` otherwise.
pub fn decode(preimage: &Vec<Felt>) -> (r: Result<NoteParameters, AbortReason>)
    requires
        preimage@.len() >= ENCODED_LEN,
        all_valid(preimage@),
    ensures
        r == spec_decode(vals(preimage@)),
        r matches Ok(p) ==> p.valid(),
{
    let note_type = match NoteType::from_code(preimage[2].value) {
        Option::None => {
            return Err(AbortReason::EnumDecodeError);
        },
        Option::Some(t) => t,
    };
    let execution_hint = match ExecutionHint::from_code(preimage[3].value) {
        Option::None => {
            return Err(AbortReason::EnumDecodeError);
        },
        Option::Some(h) => h,
    };
    let p = NoteParameters {
        tag: preimage[0],
        aux: preimage[1],
        note_type,
        execution_hint,
        recipient: Word {
            e0: preimage[4],
            e1: preimage[5],
            e2: preimage[6],
            e3: preimage[7],
        },
        asset: Word {
            e0: preimage[8],
            e1: preimage[9],
            e2: preimage[10],
            e3: preimage[11],
        },
    };
    Ok(p)
}

/// The canonical encoding is always word-aligned: its length is a
/// multiple of the word size.
pub proof fn lemma_encoding_word_aligned(p: NoteParameters)
    ensures
        p.spec_encode().len() % 4 == 0,
{
}

/// Round trip of the codec: decoding a canonical encoding reproduces the
/// record unchanged.
pub proof fn lemma_codec_round_trip(p: NoteParameters)
    requires
        p.valid(),
    ensures
        spec_decode(p.spec_encode()) == Ok::<NoteParameters, AbortReason>(p),
{
    let s = p.spec_encode();
    assert(spec_note_type_of(s[2]) == Some(p.note_type));
    assert(spec_execution_hint_of(s[3]) == Some(p.execution_hint));
    assert(word_at(s, 4) == p.recipient);
    assert(word_at(s, 8) == p.asset);
}

} // verus!
