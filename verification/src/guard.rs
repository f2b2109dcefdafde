//! The note consumption guard: the identity-matching pattern.
//!
//! A note carries its intended target's identity in its first two inputs.
//! Consumption validates that identity against the executing account
//! before any asset moves; on a mismatch the execution aborts with the
//! vault unchanged -- zero assets transferred.  No path to the
//! asset-receiving capability skips the validation.

use vstd::prelude::*;
use crate::asset::{fungible_total, holds_non_fungible, AccountId, Asset};
use crate::error::AbortReason;
use crate::field::{all_valid, Felt, Word};
use crate::vault::{can_absorb, Account};

verus! {

/// A note as the consuming execution sees it: its inputs and the assets
/// attached to it.
pub struct InputNote {
    pub inputs: Vec<Felt>,
    pub assets: Vec<Asset>,
}

impl InputNote {
    /// The note's inputs are canonical and its assets well-formed.
    pub open spec fn inv(self) -> bool {
        &&& all_valid(self.inputs@)
        &&& forall|i: int| 0 <= i < self.assets@.len() ==> (#[trigger] self.assets@[i]).valid()
    }

    /// The note's inputs.
    pub fn get_inputs(&self) -> (r: &Vec<Felt>)
        ensures
            r@ == self.inputs@,
    {
        &self.inputs
    }

    /// The assets attached to the note.
    pub fn get_assets(&self) -> (r: &Vec<Asset>)
        ensures
            r@ == self.assets@,
    {
        &self.assets
    }
}

/// Whether a note's embedded target identity matches `id`: the note
/// holds at least the two identity inputs, and they equal the account's
/// prefix and suffix.
pub open spec fn guard_matches(inputs: Seq<Felt>, id: AccountId) -> bool {
    inputs.len() >= 2 && inputs[0] == id.prefix && inputs[1] == id.suffix
}

/// Consumes a note: validates the note's embedded target identity
/// against the executing account, then invokes the account's
/// asset-receiving capability for each attached asset, atomically.
///
/// On an identity mismatch -- or a note too short to carry one -- the
/// execution aborts with the vault unchanged: zero assets move.  The
/// transfer happens exactly when the identity matches and the vault can
/// absorb the note's assets.
pub fn consume_note(account: &mut Account, note: &InputNote) -> (r: Result<(), AbortReason>)
    requires
        old(account).inv(),
        note.inv(),
    ensures
        final(account).inv(),
        final(account).id == old(account).id,
        r is Ok <==> (guard_matches(note.inputs@, old(account).id) && can_absorb(
            old(account).vault@,
            note.assets@,
        )),
        match r {
            Ok(()) => {
                &&& forall|g: AccountId| #[trigger]
                    fungible_total(final(account).vault@, g) == fungible_total(
                        old(account).vault@,
                        g,
                    ) + fungible_total(note.assets@, g)
                &&& forall|x: Word| #[trigger]
                    holds_non_fungible(final(account).vault@, x) == (holds_non_fungible(
                        old(account).vault@,
                        x,
                    ) || holds_non_fungible(note.assets@, x))
            },
            Err(e) => e == AbortReason::CapabilityPrecondition && final(account).vault@ == old(
                account,
            ).vault@,
        },
{
    if note.inputs.len() < 2 {
        return Err(AbortReason::CapabilityPrecondition);
    }
    let target_prefix = note.inputs[0];
    let target_suffix = note.inputs[1];
    if target_prefix != account.id.prefix || target_suffix != account.id.suffix {
        return Err(AbortReason::CapabilityPrecondition);
    }
    account.vault.add_assets(&note.assets)
}

} // verus!
