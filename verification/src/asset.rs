//! Assets and the accounts that issue and hold them.
//!
//! An asset is either fungible -- an amount issued by a faucet account --
//! or non-fungible, identified by a whole word.  Either kind packs into a
//! single word so that it can ride in the fixed parameter record.

use vstd::prelude::*;
use crate::error::AbortReason;
use crate::field::{Felt, Word};

verus! {

/// The identity of an account: a prefix and a suffix field element.
#[derive(Clone, Copy, PartialEq, Eq, Structural, Debug)]
pub struct AccountId {
    pub prefix: Felt,
    pub suffix: Felt,
}

impl AccountId {
    /// Both halves of the identity are canonical field elements.
    pub open spec fn valid(self) -> bool {
        self.prefix.valid() && self.suffix.valid()
    }
}

/// The largest amount a fungible asset can carry.
pub const MAX_AMOUNT: u64 = 0x7fff_ffff_ffff_ffff;

/// A unit of value held in a vault or attached to a note.
#[derive(Clone, Copy, PartialEq, Eq, Structural, Debug)]
pub enum Asset {
    /// An amount of a fungible token, identified by the issuing faucet.
    Fungible { faucet_id: AccountId, amount: u64 },
    /// A non-fungible value; the word both identifies the asset and
    /// carries its data, and its third element is nonzero, which is what
    /// tells a packed non-fungible asset apart from a packed fungible one.
    NonFungible { id: Word },
}

impl Asset {
    /// The asset is well-formed: canonical elements, an amount within
    /// range for a fungible asset, and the nonzero marker element for a
    /// non-fungible one.
    pub open spec fn valid(self) -> bool {
        match self {
            Asset::Fungible { faucet_id, amount } => faucet_id.valid() && amount <= MAX_AMOUNT,
            Asset::NonFungible { id } => id.valid() && id.e2.value != 0,
        }
    }

    /// The word packing of the asset.
    pub open spec fn spec_to_word(self) -> Word {
        match self {
            Asset::Fungible { faucet_id, amount } => Word {
                e0: faucet_id.prefix,
                e1: faucet_id.suffix,
                e2: Felt { value: 0 },
                e3: Felt { value: amount },
            },
            Asset::NonFungible { id } => id,
        }
    }

    /// Packs the asset into a word.
    pub fn to_word(self) -> (r: Word)
        requires
            self.valid(),
        ensures
            r == self.spec_to_word(),
            r.valid(),
    {
        match self {
            Asset::Fungible { faucet_id, amount } => Word {
                e0: faucet_id.prefix,
                e1: faucet_id.suffix,
                e2: Felt { value: 0 },
                e3: Felt { value: amount },
            },
            Asset::NonFungible { id } => id,
        }
    }

    /// The asset a word unpacks to: fungible when the third element is
    /// zero, non-fungible otherwise; rejected when a fungible amount lies
    /// above `MAX_AMOUNT`.
    pub open spec fn spec_from_word(w: Word) -> Result<Asset, AbortReason> {
        if w.e2.value == 0 {
            if w.e3.value <= MAX_AMOUNT {
                Ok(
                    Asset::Fungible {
                        faucet_id: AccountId { prefix: w.e0, suffix: w.e1 },
                        amount: w.e3.value,
                    },
                )
            } else {
                Err(AbortReason::CapabilityPrecondition)
            }
        } else {
            Ok(Asset::NonFungible { id: w })
        }
    }

    /// Unpacks a word into an asset.
    pub fn from_word(w: Word) -> (r: Result<Asset, AbortReason>)
        requires
            w.valid(),
        ensures
            r == Asset::spec_from_word(w),
            r matches Ok(a) ==> a.valid(),
    {
        if w.e2.value == 0 {
            if w.e3.value <= MAX_AMOUNT {
                Ok(
                    Asset::Fungible {
                        faucet_id: AccountId { prefix: w.e0, suffix: w.e1 },
                        amount: w.e3.value,
                    },
                )
            } else {
                Err(AbortReason::CapabilityPrecondition)
            }
        } else {
            Ok(Asset::NonFungible { id: w })
        }
    }
}

/// Packing a valid asset into a word and unpacking it again gives the
/// asset back.
pub proof fn lemma_asset_word_round_trip(a: Asset)
    requires
        a.valid(),
    ensures
        Asset::spec_from_word(a.spec_to_word()) == Ok::<Asset, AbortReason>(a),
{
}

/// What one asset adds to the fungible amount of faucet `faucet`.
pub open spec fn fungible_contribution(a: Asset, faucet: AccountId) -> int {
    match a {
        Asset::Fungible { faucet_id, amount } => if faucet_id == faucet {
            amount as int
        } else {
            0
        },
        Asset::NonFungible { .. } => 0,
    }
}

/// The total fungible amount of faucet `faucet` held in a sequence of
/// assets.
pub open spec fn fungible_total(s: Seq<Asset>, faucet: AccountId) -> int
    decreases s.len(),
{
    if s.len() == 0 {
        0
    } else {
        fungible_total(s.drop_last(), faucet) + fungible_contribution(s.last(), faucet)
    }
}

/// Whether a sequence of assets holds the non-fungible asset `id`.
pub open spec fn holds_non_fungible(s: Seq<Asset>, id: Word) -> bool {
    exists|i: int| 0 <= i < s.len() && s[i] == (Asset::NonFungible { id })
}

/// Appending an asset raises each faucet's total by exactly that asset's
/// contribution.
pub proof fn lemma_total_push(s: Seq<Asset>, x: Asset, faucet: AccountId)
    ensures
        fungible_total(s.push(x), faucet) == fungible_total(s, faucet) + fungible_contribution(
            x,
            faucet,
        ),
{
    assert(s.push(x).drop_last() =~= s);
}

/// Replacing the asset at one index shifts each faucet's total by the
/// difference of the two contributions.
pub proof fn lemma_total_update(s: Seq<Asset>, i: int, x: Asset, faucet: AccountId)
    requires
        0 <= i < s.len(),
    ensures
        fungible_total(s.update(i, x), faucet) == fungible_total(s, faucet)
            - fungible_contribution(s[i], faucet) + fungible_contribution(x, faucet),
    decreases s.len(),
{
    let s2 = s.update(i, x);
    if i == s.len() - 1 {
        assert(s2.drop_last() =~= s.drop_last());
    } else {
        assert(s2.drop_last() =~= s.drop_last().update(i, x));
        assert(s2.last() == s.last());
        lemma_total_update(s.drop_last(), i, x, faucet);
    }
}

/// Removing the asset at one index lowers each faucet's total by exactly
/// that asset's contribution.
pub proof fn lemma_total_remove(s: Seq<Asset>, i: int, faucet: AccountId)
    requires
        0 <= i < s.len(),
    ensures
        fungible_total(s.remove(i), faucet) == fungible_total(s, faucet) - fungible_contribution(
            s[i],
            faucet,
        ),
    decreases s.len(),
{
    if i == s.len() - 1 {
        assert(s.remove(i) =~= s.drop_last());
    } else {
        assert(s.remove(i).drop_last() =~= s.drop_last().remove(i));
        assert(s.remove(i).last() == s.last());
        lemma_total_remove(s.drop_last(), i, faucet);
    }
}

/// A sequence in which no asset is fungible of faucet `faucet` holds a
/// zero total for that faucet.
pub proof fn lemma_total_absent(s: Seq<Asset>, faucet: AccountId)
    requires
        forall|j: int|
            0 <= j < s.len() ==> !((#[trigger] s[j]) matches Asset::Fungible { faucet_id, .. }
                && faucet_id == faucet),
    ensures
        fungible_total(s, faucet) == 0,
    decreases s.len(),
{
    if s.len() > 0 {
        lemma_total_absent(s.drop_last(), faucet);
    }
}

/// The two assets do not share a key: they are not fungible assets of one
/// faucet, nor non-fungible assets with one id.
pub open spec fn key_distinct(a: Asset, b: Asset) -> bool {
    &&& !(a matches Asset::Fungible { faucet_id: f, .. } && b matches Asset::Fungible {
        faucet_id: g,
        ..
    } && f == g)
    &&& !(a matches Asset::NonFungible { id: x } && b matches Asset::NonFungible { id: y } && x
        == y)
}

/// No two assets of the sequence share a key: fungible amounts are merged
/// per faucet and non-fungible ids occur at most once.
pub open spec fn no_duplicate_keys(s: Seq<Asset>) -> bool {
    forall|p: int, q: int|
        0 <= p < q < s.len() ==> key_distinct(#[trigger] s[p], #[trigger] s[q])
}

/// Appending a fungible asset leaves non-fungible holdings unchanged.
pub proof fn lemma_holds_push_fungible(s: Seq<Asset>, x: Asset, id: Word)
    requires
        x matches Asset::Fungible { .. },
    ensures
        holds_non_fungible(s.push(x), id) == holds_non_fungible(s, id),
{
    if holds_non_fungible(s, id) {
        let k = choose|k: int| 0 <= k < s.len() && s[k] == (Asset::NonFungible { id });
        assert(s.push(x)[k] == (Asset::NonFungible { id }));
    }
    if holds_non_fungible(s.push(x), id) {
        let k = choose|k: int|
            0 <= k < s.push(x).len() && s.push(x)[k] == (Asset::NonFungible { id });
        assert(k < s.len());
        assert(s[k] == (Asset::NonFungible { id }));
    }
}

/// Appending a non-fungible asset adds exactly its id to the holdings.
pub proof fn lemma_holds_push_non_fungible(s: Seq<Asset>, added: Word, id: Word)
    ensures
        holds_non_fungible(s.push(Asset::NonFungible { id: added }), id) == (holds_non_fungible(
            s,
            id,
        ) || id == added),
{
    let s2 = s.push(Asset::NonFungible { id: added });
    if holds_non_fungible(s, id) {
        let k = choose|k: int| 0 <= k < s.len() && s[k] == (Asset::NonFungible { id });
        assert(s2[k] == (Asset::NonFungible { id }));
    }
    if id == added {
        assert(s2[s.len() as int] == (Asset::NonFungible { id }));
    }
    if holds_non_fungible(s2, id) {
        let k = choose|k: int| 0 <= k < s2.len() && s2[k] == (Asset::NonFungible { id });
        if k < s.len() {
            assert(s[k] == (Asset::NonFungible { id }));
        }
    }
}

/// Replacing a fungible asset with a fungible asset leaves non-fungible
/// holdings unchanged.
pub proof fn lemma_holds_update_fungible(s: Seq<Asset>, i: int, x: Asset, id: Word)
    requires
        0 <= i < s.len(),
        s[i] matches Asset::Fungible { .. },
        x matches Asset::Fungible { .. },
    ensures
        holds_non_fungible(s.update(i, x), id) == holds_non_fungible(s, id),
{
    let s2 = s.update(i, x);
    if holds_non_fungible(s, id) {
        let k = choose|k: int| 0 <= k < s.len() && s[k] == (Asset::NonFungible { id });
        assert(s2[k] == (Asset::NonFungible { id }));
    }
    if holds_non_fungible(s2, id) {
        let k = choose|k: int| 0 <= k < s2.len() && s2[k] == (Asset::NonFungible { id });
        assert(s[k] == (Asset::NonFungible { id }));
    }
}

/// Removing the non-fungible asset at one index of a duplicate-free
/// sequence removes exactly its id from the holdings.
pub proof fn lemma_holds_remove_non_fungible(s: Seq<Asset>, i: int, id: Word)
    requires
        0 <= i < s.len(),
        s[i] matches Asset::NonFungible { .. },
        no_duplicate_keys(s),
    ensures
        holds_non_fungible(s.remove(i), id) == (holds_non_fungible(s, id) && s[i] != (
        Asset::NonFungible { id })),
{
    let s2 = s.remove(i);
    s.remove_ensures(i);
    if holds_non_fungible(s2, id) {
        let k = choose|k: int| 0 <= k < s2.len() && s2[k] == (Asset::NonFungible { id });
        let k0: int = if k < i {
            k
        } else {
            k + 1
        };
        assert(s[k0] == (Asset::NonFungible { id }));
        if s[i] == (Asset::NonFungible { id }) {
            if k0 < i {
                assert(key_distinct(s[k0], s[i]));
            } else {
                assert(key_distinct(s[i], s[k0]));
            }
        }
    }
    if holds_non_fungible(s, id) && s[i] != (Asset::NonFungible { id }) {
        let k = choose|k: int| 0 <= k < s.len() && s[k] == (Asset::NonFungible { id });
        if k < i {
            assert(s2[k] == (Asset::NonFungible { id }));
        } else {
            assert(s2[k - 1] == (Asset::NonFungible { id }));
        }
    }
}

/// Where exactly one index holds a fungible asset of faucet `faucet`, that
/// asset's amount is the faucet's whole total.
pub proof fn lemma_total_of_unique_entry(s: Seq<Asset>, i: int, faucet: AccountId)
    requires
        0 <= i < s.len(),
        s[i] matches Asset::Fungible { faucet_id, .. } && faucet_id == faucet,
        forall|j: int|
            0 <= j < s.len() && j != i ==> !((#[trigger] s[j]) matches Asset::Fungible {
                faucet_id,
                ..
            } && faucet_id == faucet),
    ensures
        fungible_total(s, faucet) == fungible_contribution(s[i], faucet),
    decreases s.len(),
{
    if i == s.len() - 1 {
        lemma_total_absent(s.drop_last(), faucet);
    } else {
        lemma_total_of_unique_entry(s.drop_last(), i, faucet);
    }
}

} // verus!
