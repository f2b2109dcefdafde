//! The failure taxonomy of the pipeline.
//!
//! Every failure is fatal to the surrounding execution: the transaction is
//! rejected and every pending mutation is discarded.  The library's verified
//! functions therefore never panic; they report one of these reasons and
//! leave their state arguments unchanged.

use vstd::prelude::*;

verus! {

/// Why an execution must be aborted.
#[derive(Clone, Copy, PartialEq, Eq, Structural, Debug)]
pub enum AbortReason {
    /// The advice map holds no entry under the requested digest.
    AbsentEntry,
    /// The hash recomputed over a loaded preimage differs from the claimed
    /// digest.
    IntegrityViolation,
    /// A preimage length violates the word-aligned layout: it is not a
    /// multiple of the word size, or it is shorter than the fixed
    /// parameter record.
    AlignmentViolation,
    /// A note-type or execution-hint code lies outside the recognized set.
    EnumDecodeError,
    /// A capability was invoked outside its domain: the requested asset is
    /// absent or insufficient, a note index is unknown, or a consumption
    /// guard saw a target identity that does not match the executing
    /// account.
    CapabilityPrecondition,
}

} // verus!
