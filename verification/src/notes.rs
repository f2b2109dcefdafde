//! The note factory and the transaction context it lives in.
//!
//! One execution creates notes from decoded metadata and moves assets out
//! of the account vault into them.  Every move is atomic -- it either
//! fully completes or fails with the vault unchanged -- and removal from
//! the vault strictly precedes attachment to the note, so no intermediate
//! state exposes an asset as present in both places.

use vstd::prelude::*;
use crate::asset::{
    fungible_contribution, fungible_total, holds_non_fungible, AccountId, Asset,
};
use crate::error::AbortReason;
use crate::field::{Felt, Word};
use crate::params::{ExecutionHint, NoteType};
use crate::vault::{covers, Account};

verus! {

/// The metadata of a note created during an execution.
#[derive(Clone, Copy, PartialEq, Eq, Structural, Debug)]
pub struct NoteMetadata {
    pub tag: Felt,
    pub aux: Felt,
    pub note_type: NoteType,
    pub execution_hint: ExecutionHint,
}

impl NoteMetadata {
    /// The metadata's field elements are canonical.
    pub open spec fn valid(self) -> bool {
        self.tag.valid() && self.aux.valid()
    }
}

/// A note under construction in the current execution: metadata, the
/// digest committing to its recipient, and the assets attached so far.
pub struct CreatedNote {
    pub metadata: NoteMetadata,
    pub recipient: Word,
    pub assets: Vec<Asset>,
}

impl View for CreatedNote {
    type V = Seq<Asset>;

    /// The assets attached to the note, in attachment order.
    open spec fn view(&self) -> Seq<Asset> {
        self.assets@
    }
}

impl CreatedNote {
    /// The note's elements are canonical and its assets well-formed.
    pub open spec fn inv(self) -> bool {
        &&& self.metadata.valid()
        &&& self.recipient.valid()
        &&& forall|i: int| 0 <= i < self@.len() ==> (#[trigger] self@[i]).valid()
    }

    /// The assets attached to the note.
    pub fn assets(&self) -> (r: &Vec<Asset>)
        ensures
            r@ == self@,
    {
        &self.assets
    }
}

/// The total fungible amount of faucet `faucet` attached across a
/// sequence of notes.
pub open spec fn notes_fungible_total(s: Seq<CreatedNote>, faucet: AccountId) -> int
    decreases s.len(),
{
    if s.len() == 0 {
        0
    } else {
        notes_fungible_total(s.drop_last(), faucet) + fungible_total(s.last()@, faucet)
    }
}

/// Appending a note raises each faucet's attached total by that note's
/// total.
proof fn lemma_notes_total_push(s: Seq<CreatedNote>, x: CreatedNote, faucet: AccountId)
    ensures
        notes_fungible_total(s.push(x), faucet) == notes_fungible_total(s, faucet)
            + fungible_total(x@, faucet),
{
    assert(s.push(x).drop_last() =~= s);
}

/// Replacing one note shifts each faucet's attached total by the
/// difference of the two notes' totals.
proof fn lemma_notes_total_update(s: Seq<CreatedNote>, i: int, x: CreatedNote, faucet: AccountId)
    requires
        0 <= i < s.len(),
    ensures
        notes_fungible_total(s.update(i, x), faucet) == notes_fungible_total(s, faucet)
            - fungible_total(s[i]@, faucet) + fungible_total(x@, faucet),
    decreases s.len(),
{
    let s2 = s.update(i, x);
    if i == s.len() - 1 {
        assert(s2.drop_last() =~= s.drop_last());
    } else {
        assert(s2.drop_last() =~= s.drop_last().update(i, x));
        assert(s2.last() == s.last());
        lemma_notes_total_update(s.drop_last(), i, x, faucet);
    }
}

/// Conservation across a sequence of movements: every call that moves an
/// asset between the vault and a note preserves the total holdings per
/// faucet, so along any chain of context states whose consecutive steps
/// preserve them -- as `move_asset_to_note` ensures of each call -- the
/// final holdings equal the initial ones.
pub proof fn lemma_conservation_across_sequence(states: Seq<TransactionContext>, faucet: AccountId)
    requires
        states.len() > 0,
        forall|k: int|
            0 <= k < states.len() - 1 ==> #[trigger] states[k + 1].total_holdings(faucet)
                == states[k].total_holdings(faucet),
    ensures
        states.last().total_holdings(faucet) == states.first().total_holdings(faucet),
    decreases states.len(),
{
    if states.len() > 1 {
        let rest = states.drop_first();
        assert forall|k: int|
            0 <= k < rest.len() - 1 implies #[trigger] rest[k + 1].total_holdings(faucet)
            == rest[k].total_holdings(faucet) by {
            assert(rest[k] == states[k + 1]);
            assert(rest[k + 1] == states[k + 2]);
            assert(states[k + 2].total_holdings(faucet) == states[k + 1].total_holdings(faucet));
        }
        lemma_conservation_across_sequence(rest, faucet);
        assert(rest.first() == states[1]);
        assert(rest.last() == states.last());
        assert(states[1].total_holdings(faucet) == states[0].total_holdings(faucet));
    }
}

/// The state of one execution: the executing account and the notes it has
/// created so far.  Note handles are indices into the creation order,
/// valid only within this execution and unique by construction.
pub struct TransactionContext {
    pub account: Account,
    pub notes: Vec<CreatedNote>,
}

impl TransactionContext {
    /// The notes created so far, in creation order.
    pub open spec fn notes_seq(self) -> Seq<CreatedNote> {
        self.notes@
    }

    /// The account and every created note are well-formed.
    pub open spec fn inv(self) -> bool {
        &&& self.account.inv()
        &&& forall|i: int| 0 <= i < self.notes_seq().len() ==> (#[trigger] self.notes_seq()[i]).inv()
    }

    /// The total fungible amount of faucet `faucet` across the vault and
    /// every created note.  Asset movement never changes this quantity.
    pub open spec fn total_holdings(self, faucet: AccountId) -> int {
        fungible_total(self.account.vault@, faucet) + notes_fungible_total(
            self.notes_seq(),
            faucet,
        )
    }

    /// A fresh execution context around `account`, with no notes created
    /// yet.
    pub fn new(account: Account) -> (r: TransactionContext)
        requires
            account.inv(),
        ensures
            r.inv(),
            r.account == account,
            r.notes_seq() == Seq::<CreatedNote>::empty(),
    {
        TransactionContext { account, notes: Vec::new() }
    }

    /// How many notes this execution has created.
    pub fn note_count(&self) -> (r: usize)
        ensures
            r == self.notes_seq().len(),
    {
        self.notes.len()
    }

    /// The note under handle `note_idx`.
    pub fn note(&self, note_idx: usize) -> (r: &CreatedNote)
        requires
            note_idx < self.notes_seq().len(),
        ensures
            *r == self.notes_seq()[note_idx as int],
    {
        &self.notes[note_idx]
    }

    /// Creates a note from decoded metadata and returns its handle: the
    /// next index in creation order, distinct from every handle returned
    /// before, and valid only within this execution.
    pub fn create_note(
        &mut self,
        tag: Felt,
        aux: Felt,
        note_type: NoteType,
        execution_hint: ExecutionHint,
        recipient: Word,
    ) -> (r: usize)
        requires
            old(self).inv(),
            tag.valid(),
            aux.valid(),
            recipient.valid(),
        ensures
            final(self).inv(),
            final(self).account == old(self).account,
            r == old(self).notes_seq().len(),
            final(self).notes_seq().len() == r + 1,
            forall|j: int|
                0 <= j < r ==> final(self).notes_seq()[j] == old(self).notes_seq()[j],
            final(self).notes_seq()[r as int].metadata == (NoteMetadata {
                tag,
                aux,
                note_type,
                execution_hint,
            }),
            final(self).notes_seq()[r as int].recipient == recipient,
            final(self).notes_seq()[r as int]@ == Seq::<Asset>::empty(),
            forall|g: AccountId| #[trigger]
                final(self).total_holdings(g) == old(self).total_holdings(g),
    {
        let ghost notes0 = self.notes@;
        let r = self.notes.len();
        let note = CreatedNote {
            metadata: NoteMetadata { tag, aux, note_type, execution_hint },
            recipient,
            assets: Vec::new(),
        };
        let ghost gnote = note;
        self.notes.push(note);
        proof {
            assert forall|i: int|
                0 <= i < self.notes_seq().len() implies (#[trigger] self.notes_seq()[i]).inv() by {
                if i < notes0.len() {
                    assert(self.notes_seq()[i] == old(self).notes_seq()[i]);
                    assert(old(self).notes_seq()[i].inv());
                } else {
                    assert(self.notes_seq()[i] == gnote);
                    assert(gnote@ =~= Seq::<Asset>::empty());
                }
            }
            assert forall|g: AccountId| #[trigger]
                self.total_holdings(g) == old(self).total_holdings(g) by {
                lemma_notes_total_push(notes0, self.notes@.last(), g);
            }
        }
        r
    }

    /// Attaches `asset` to the note under `note_idx`.  Fails, changing
    /// nothing, exactly when the handle is unknown.
    pub fn add_asset_to_note(&mut self, asset: Asset, note_idx: usize) -> (r: Result<
        (),
        AbortReason,
    >)
        requires
            old(self).inv(),
            asset.valid(),
        ensures
            final(self).inv(),
            final(self).account == old(self).account,
            match r {
                Ok(()) => {
                    &&& final(self).notes_seq().len() == old(self).notes_seq().len()
                    &&& forall|j: int|
                        0 <= j < old(self).notes_seq().len() && j != note_idx ==> final(self).notes_seq()[j] == old(self).notes_seq()[j]
                    &&& final(self).notes_seq()[note_idx as int]@ == old(self).notes_seq()[
                        note_idx as int
                    ]@.push(asset)
                    &&& final(self).notes_seq()[note_idx as int].metadata == old(self).notes_seq()[note_idx as int].metadata
                    &&& final(self).notes_seq()[note_idx as int].recipient == old(self).notes_seq()[note_idx as int].recipient
                    &&& forall|g: AccountId| #[trigger]
                        notes_fungible_total(final(self).notes_seq(), g) == notes_fungible_total(
                            old(self).notes_seq(),
                            g,
                        ) + fungible_contribution(asset, g)
                },
                Err(e) => e == AbortReason::CapabilityPrecondition && final(self).notes_seq()
                    == old(self).notes_seq(),
            },
            r is Ok <==> note_idx < old(self).notes_seq().len(),
    {
        if note_idx >= self.notes.len() {
            return Err(AbortReason::CapabilityPrecondition);
        }
        let ghost notes0 = self.notes@;
        let ghost before = self.notes@[note_idx as int];
        self.notes[note_idx].assets.push(asset);
        proof {
            let after = self.notes@[note_idx as int];
            assert(after@ == before@.push(asset));
            assert forall|g: AccountId| #[trigger]
                notes_fungible_total(self.notes@, g) == notes_fungible_total(notes0, g)
                    + fungible_contribution(asset, g) by {
                lemma_notes_total_update(notes0, note_idx as int, after, g);
                crate::asset::lemma_total_push(before@, asset, g);
            }
        }
        Ok(())
    }

    /// Moves `asset` from the account vault to the note under `note_idx`:
    /// removal from the vault, then attachment to the note, as one atomic
    /// step -- it either fully completes or fails with vault and notes
    /// unchanged.  Across any such calls, the total fungible amount per
    /// faucet held in the vault and the created notes together is
    /// invariant, as the `total_holdings` clause states.
    pub fn move_asset_to_note(&mut self, asset: Asset, note_idx: usize) -> (r: Result<
        (),
        AbortReason,
    >)
        requires
            old(self).inv(),
            asset.valid(),
        ensures
            final(self).inv(),
            final(self).account.id == old(self).account.id,
            forall|g: AccountId| #[trigger]
                final(self).total_holdings(g) == old(self).total_holdings(g),
            match r {
                Ok(()) => {
                    &&& forall|g: AccountId| #[trigger]
                        fungible_total(final(self).account.vault@, g) == fungible_total(
                            old(self).account.vault@,
                            g,
                        ) - fungible_contribution(asset, g)
                    &&& forall|x: Word| #[trigger]
                        holds_non_fungible(final(self).account.vault@, x) == (holds_non_fungible(
                            old(self).account.vault@,
                            x,
                        ) && asset != (Asset::NonFungible { id: x }))
                    &&& final(self).notes_seq().len() == old(self).notes_seq().len()
                    &&& forall|j: int|
                        0 <= j < old(self).notes_seq().len() && j != note_idx ==> final(self).notes_seq()[j] == old(self).notes_seq()[j]
                    &&& final(self).notes_seq()[note_idx as int]@ == old(self).notes_seq()[
                        note_idx as int
                    ]@.push(asset)
                    &&& final(self).notes_seq()[note_idx as int].metadata == old(self).notes_seq()[note_idx as int].metadata
                    &&& final(self).notes_seq()[note_idx as int].recipient == old(self).notes_seq()[note_idx as int].recipient
                },
                Err(e) => {
                    &&& e == AbortReason::CapabilityPrecondition
                    &&& final(self).account.vault@ == old(self).account.vault@
                    &&& final(self).notes_seq() == old(self).notes_seq()
                },
            },
            r is Ok <==> (note_idx < old(self).notes_seq().len() && covers(
                old(self).account.vault@,
                asset,
            )),
    {
        if note_idx >= self.notes.len() {
            return Err(AbortReason::CapabilityPrecondition);
        }
        let removed = match self.account.vault.remove_asset(asset) {
            Ok(a) => a,
            Err(e) => {
                return Err(e);
            },
        };
        let ghost notes0 = self.notes@;
        let ghost before = self.notes@[note_idx as int];
        self.notes[note_idx].assets.push(removed);
        proof {
            let after = self.notes@[note_idx as int];
            assert(after@ == before@.push(asset));
            assert forall|g: AccountId| #[trigger]
                notes_fungible_total(self.notes@, g) == notes_fungible_total(notes0, g)
                    + fungible_contribution(asset, g) by {
                lemma_notes_total_update(notes0, note_idx as int, after, g);
                crate::asset::lemma_total_push(before@, asset, g);
            }
        }
        Ok(())
    }
}

} // verus!
