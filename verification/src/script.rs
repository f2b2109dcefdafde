//! The transfer transaction script: the guest-side end of the pipeline.
//!
//! Given the public argument -- the commitment digest with its elements
//! reversed -- the script verifies and decodes the committed parameters,
//! creates a note from the decoded metadata, and moves the decoded asset
//! from the account vault into that note.  Any failure aborts the whole
//! execution: the context is left exactly as it was, no note is created
//! and no asset moves.

use vstd::prelude::*;
use crate::advice::AdviceMap;
use crate::asset::{fungible_contribution, fungible_total, holds_non_fungible, AccountId, Asset};
use crate::commitment::{run, spec_run};
use crate::error::AbortReason;
use crate::field::Word;
use crate::notes::{NoteMetadata, TransactionContext};
use crate::params::NoteParameters;
use crate::vault::covers;

verus! {

/// What the script reads out of the advice content `m` under argument
/// `arg`: the decoded parameters together with the asset unpacked from
/// their asset word, or the reason the execution aborts first.
pub open spec fn spec_transfer_outcome(m: Map<Seq<u64>, Seq<u64>>, arg: Word) -> Result<
    (NoteParameters, Asset),
    AbortReason,
> {
    match spec_run(m, arg) {
        Err(e) => Err(e),
        Ok(p) => match Asset::spec_from_word(p.asset) {
            Err(e) => Err(e),
            Ok(a) => Ok((p, a)),
        },
    }
}

/// Runs the transfer script: verifies and decodes the parameters
/// committed to by `arg`, creates one note from them, and moves the
/// decoded asset from the vault into it.  Returns the new note's handle.
///
/// On any failure the context is unchanged; on success exactly one note
/// exists beyond the old ones, holding exactly the decoded asset, and the
/// vault is reduced by exactly that asset.  The total holdings per faucet
/// across vault and notes are invariant either way.
pub fn run_transfer_script(ctx: &mut TransactionContext, advice: &AdviceMap, arg: Word) -> (r:
    Result<usize, AbortReason>)
    requires
        old(ctx).inv(),
        advice.inv(),
        arg.valid(),
    ensures
        final(ctx).inv(),
        final(ctx).account.id == old(ctx).account.id,
        forall|g: AccountId| #[trigger]
            final(ctx).total_holdings(g) == old(ctx).total_holdings(g),
        match r {
            Ok(idx) => spec_transfer_outcome(advice.as_map(), arg) matches Ok((p, a)) && {
                &&& covers(old(ctx).account.vault@, a)
                &&& idx == old(ctx).notes_seq().len()
                &&& final(ctx).notes_seq().len() == idx + 1
                &&& forall|j: int|
                    0 <= j < idx ==> final(ctx).notes_seq()[j] == old(ctx).notes_seq()[j]
                &&& final(ctx).notes_seq()[idx as int].metadata == (NoteMetadata {
                    tag: p.tag,
                    aux: p.aux,
                    note_type: p.note_type,
                    execution_hint: p.execution_hint,
                })
                &&& final(ctx).notes_seq()[idx as int].recipient == p.recipient
                &&& final(ctx).notes_seq()[idx as int]@ == seq![a]
                &&& forall|g: AccountId| #[trigger]
                    fungible_total(final(ctx).account.vault@, g) == fungible_total(
                        old(ctx).account.vault@,
                        g,
                    ) - fungible_contribution(a, g)
                &&& forall|x: Word| #[trigger]
                    holds_non_fungible(final(ctx).account.vault@, x) == (holds_non_fungible(
                        old(ctx).account.vault@,
                        x,
                    ) && a != (Asset::NonFungible { id: x }))
            },
            Err(e) => {
                &&& final(ctx).account.vault@ == old(ctx).account.vault@
                &&& final(ctx).notes_seq() == old(ctx).notes_seq()
                &&& match spec_transfer_outcome(advice.as_map(), arg) {
                    Err(e0) => e == e0,
                    Ok((p, a)) => e == AbortReason::CapabilityPrecondition && !covers(
                        old(ctx).account.vault@,
                        a,
                    ),
                }
            },
        },
{
    let params = match run(advice, arg) {
        Ok(p) => p,
        Err(e) => {
            return Err(e);
        },
    };
    let asset = match Asset::from_word(params.asset) {
        Ok(a) => a,
        Err(e) => {
            return Err(e);
        },
    };
    if !ctx.account.vault.covers_asset(&asset) {
        return Err(AbortReason::CapabilityPrecondition);
    }
    let note_idx = ctx.create_note(
        params.tag,
        params.aux,
        params.note_type,
        params.execution_hint,
        params.recipient,
    );
    match ctx.move_asset_to_note(asset, note_idx) {
        Ok(()) => Ok(note_idx),
        Err(_) => {
            proof {
                assert(false);
            }
            Err(AbortReason::CapabilityPrecondition)
        },
    }
}

} // verus!
