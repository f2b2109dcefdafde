//! The asset vault capability of an account.
//!
//! A vault holds a multiset of assets: fungible amounts merged per faucet
//! and non-fungible assets each at most once.  Adding merges; removing
//! takes an amount or a non-fungible asset out and fails, leaving the
//! vault unchanged, when the requested asset is absent or insufficient.

use vstd::prelude::*;
use crate::asset::{
    fungible_contribution, fungible_total, holds_non_fungible, key_distinct,
    lemma_holds_push_fungible, lemma_holds_push_non_fungible, lemma_holds_remove_non_fungible,
    lemma_holds_update_fungible, lemma_total_absent, lemma_total_of_unique_entry,
    lemma_total_push, lemma_total_remove, lemma_total_update, no_duplicate_keys, AccountId, Asset,
    MAX_AMOUNT,
};
use crate::error::AbortReason;
use crate::field::Word;

verus! {

/// A multiset of assets held by an account.
pub struct Vault {
    assets: Vec<Asset>,
}

impl View for Vault {
    type V = Seq<Asset>;

    closed spec fn view(&self) -> Seq<Asset> {
        self.assets@
    }
}

/// Whether the asset the vault would have to give up for `asset` is
/// present in `held`: the faucet's total covers a fungible amount, or the
/// non-fungible id is held.
pub open spec fn covers(held: Seq<Asset>, asset: Asset) -> bool {
    match asset {
        Asset::Fungible { faucet_id, amount } => fungible_total(held, faucet_id) >= amount,
        Asset::NonFungible { id } => holds_non_fungible(held, id),
    }
}

/// Whether holdings `held` can take in `incoming`, merged one by one in
/// order: no merged fungible amount may pass `MAX_AMOUNT` and no
/// non-fungible id may repeat.
pub open spec fn can_absorb(held: Seq<Asset>, incoming: Seq<Asset>) -> bool
    decreases incoming.len(),
{
    if incoming.len() == 0 {
        true
    } else {
        let x = incoming[0];
        &&& (match x {
            Asset::Fungible { faucet_id, amount } => fungible_total(held, faucet_id) + amount
                <= MAX_AMOUNT,
            Asset::NonFungible { id } => !holds_non_fungible(held, id),
        })
        &&& can_absorb(held.push(x), incoming.drop_first())
    }
}

/// Whether holdings can absorb a batch depends only on their per-faucet
/// totals and their non-fungible ids, not on how they are laid out.
pub proof fn lemma_can_absorb_congruent(h1: Seq<Asset>, h2: Seq<Asset>, incoming: Seq<Asset>)
    requires
        forall|g: AccountId| #[trigger] fungible_total(h1, g) == fungible_total(h2, g),
        forall|x: Word| #[trigger] holds_non_fungible(h1, x) == holds_non_fungible(h2, x),
    ensures
        can_absorb(h1, incoming) == can_absorb(h2, incoming),
    decreases incoming.len(),
{
    if incoming.len() > 0 {
        let x = incoming[0];
        assert forall|g: AccountId| #[trigger]
            fungible_total(h1.push(x), g) == fungible_total(h2.push(x), g) by {
            lemma_total_push(h1, x, g);
            lemma_total_push(h2, x, g);
        }
        assert forall|y: Word| #[trigger]
            holds_non_fungible(h1.push(x), y) == holds_non_fungible(h2.push(x), y) by {
            match x {
                Asset::Fungible { .. } => {
                    lemma_holds_push_fungible(h1, x, y);
                    lemma_holds_push_fungible(h2, x, y);
                },
                Asset::NonFungible { id } => {
                    lemma_holds_push_non_fungible(h1, id, y);
                    lemma_holds_push_non_fungible(h2, id, y);
                },
            }
        }
        lemma_can_absorb_congruent(h1.push(x), h2.push(x), incoming.drop_first());
    }
}

impl Vault {
    /// Every held asset is well-formed, fungible amounts are merged per
    /// faucet, and each non-fungible id occurs at most once.
    pub open spec fn inv(self) -> bool {
        &&& forall|i: int| 0 <= i < self@.len() ==> (#[trigger] self@[i]).valid()
        &&& no_duplicate_keys(self@)
    }

    /// An empty vault.
    pub fn new() -> (r: Vault)
        ensures
            r.inv(),
            r@ == Seq::<Asset>::empty(),
    {
        Vault { assets: Vec::new() }
    }

    /// The index of the fungible entry of `faucet`, if one is held.
    fn find_fungible(&self, faucet: &AccountId) -> (r: Option<usize>)
        ensures
            match r {
                Some(i) => i < self@.len() && (self@[i as int] matches Asset::Fungible {
                    faucet_id,
                    ..
                } && faucet_id == *faucet),
                None => forall|j: int|
                    0 <= j < self@.len() ==> !((#[trigger] self@[j]) matches Asset::Fungible {
                        faucet_id,
                        ..
                    } && faucet_id == *faucet),
            },
    {
        let n = self.assets.len();
        for k in 0..n
            invariant
                n == self@.len(),
                forall|j: int|
                    0 <= j < k ==> !((#[trigger] self@[j]) matches Asset::Fungible {
                        faucet_id,
                        ..
                    } && faucet_id == *faucet),
        {
            match &self.assets[k] {
                Asset::Fungible { faucet_id, .. } => {
                    if *faucet_id == *faucet {
                        return Some(k);
                    }
                },
                Asset::NonFungible { .. } => {},
            }
        }
        None
    }

    /// The index of the non-fungible asset `id`, if it is held.
    fn find_non_fungible(&self, id: &Word) -> (r: Option<usize>)
        ensures
            match r {
                Some(i) => i < self@.len() && self@[i as int] == (Asset::NonFungible { id: *id }),
                None => forall|j: int|
                    0 <= j < self@.len() ==> (#[trigger] self@[j]) != (Asset::NonFungible {
                        id: *id,
                    }),
            },
    {
        let n = self.assets.len();
        for k in 0..n
            invariant
                n == self@.len(),
                forall|j: int|
                    0 <= j < k ==> (#[trigger] self@[j]) != (Asset::NonFungible { id: *id }),
        {
            match &self.assets[k] {
                Asset::NonFungible { id: held } => {
                    if *held == *id {
                        return Some(k);
                    }
                },
                Asset::Fungible { .. } => {},
            }
        }
        None
    }

    /// From the vault invariant: where index `i` holds the fungible entry
    /// of `faucet`, no other index does, so its amount is the whole total.
    proof fn lemma_unique_total(self, i: int, faucet: AccountId)
        requires
            self.inv(),
            0 <= i < self@.len(),
            self@[i] matches Asset::Fungible { faucet_id, .. } && faucet_id == faucet,
        ensures
            fungible_total(self@, faucet) == fungible_contribution(self@[i], faucet),
    {
        assert forall|j: int|
            0 <= j < self@.len() && j != i implies !((#[trigger] self@[j])
            matches Asset::Fungible { faucet_id, .. } && faucet_id == faucet) by {
            if j < i {
                assert(key_distinct(self@[j], self@[i]));
            } else {
                assert(key_distinct(self@[i], self@[j]));
            }
        }
        lemma_total_of_unique_entry(self@, i, faucet);
    }

    /// The total fungible amount the vault holds of faucet `faucet`.
    pub fn fungible_balance(&self, faucet: AccountId) -> (r: u64)
        requires
            self.inv(),
        ensures
            r == fungible_total(self@, faucet),
    {
        match self.find_fungible(&faucet) {
            Some(i) => {
                proof {
                    self.lemma_unique_total(i as int, faucet);
                }
                match self.assets[i] {
                    Asset::Fungible { amount, .. } => amount,
                    Asset::NonFungible { .. } => {
                        proof {
                            assert(false);
                        }
                        0
                    },
                }
            },
            None => {
                proof {
                    lemma_total_absent(self@, faucet);
                }
                0
            },
        }
    }

    /// Whether the vault holds the non-fungible asset `id`.
    pub fn holds(&self, id: Word) -> (r: bool)
        ensures
            r == holds_non_fungible(self@, id),
    {
        self.find_non_fungible(&id).is_some()
    }

    /// Whether the vault covers `asset`: the faucet's total reaches a
    /// fungible amount, or the non-fungible id is held.
    pub fn covers_asset(&self, asset: &Asset) -> (r: bool)
        requires
            self.inv(),
            asset.valid(),
        ensures
            r == covers(self@, *asset),
    {
        match asset {
            Asset::Fungible { faucet_id, amount } => self.fungible_balance(*faucet_id) >= *amount,
            Asset::NonFungible { id } => self.holds(*id),
        }
    }

    /// Merges `asset` into the vault: same-faucet fungible amounts
    /// accumulate.  Fails, leaving the vault unchanged, exactly when a
    /// merged fungible amount would exceed `MAX_AMOUNT` or the
    /// non-fungible id is already held.
    pub fn add_asset(&mut self, asset: Asset) -> (r: Result<(), AbortReason>)
        requires
            old(self).inv(),
            asset.valid(),
        ensures
            final(self).inv(),
            match r {
                Ok(()) => {
                    &&& forall|g: AccountId| #[trigger]
                        fungible_total(final(self)@, g) == fungible_total(old(self)@, g)
                            + fungible_contribution(asset, g)
                    &&& forall|x: Word| #[trigger]
                        holds_non_fungible(final(self)@, x) == (holds_non_fungible(old(self)@, x)
                            || asset == (Asset::NonFungible { id: x }))
                },
                Err(e) => e == AbortReason::CapabilityPrecondition && final(self)@ == old(self)@,
            },
            r is Ok <==> (match asset {
                Asset::Fungible { faucet_id, amount } => fungible_total(old(self)@, faucet_id)
                    + amount <= MAX_AMOUNT,
                Asset::NonFungible { id } => !holds_non_fungible(old(self)@, id),
            }),
    {
        let ghost s0 = self@;
        match asset {
            Asset::Fungible { faucet_id, amount } => {
                match self.find_fungible(&faucet_id) {
                    Some(i) => {
                        proof {
                            self.lemma_unique_total(i as int, faucet_id);
                        }
                        match self.assets[i] {
                            Asset::Fungible { amount: held, .. } => {
                                if amount > MAX_AMOUNT - held {
                                    Err(AbortReason::CapabilityPrecondition)
                                } else {
                                    let merged = Asset::Fungible {
                                        faucet_id,
                                        amount: held + amount,
                                    };
                                    self.assets.set(i, merged);
                                    proof {
                                        assert forall|g: AccountId| #[trigger]
                                            fungible_total(self@, g) == fungible_total(s0, g)
                                                + fungible_contribution(asset, g) by {
                                            lemma_total_update(s0, i as int, merged, g);
                                        }
                                        assert forall|x: Word| #[trigger]
                                            holds_non_fungible(self@, x) == (holds_non_fungible(
                                                s0,
                                                x,
                                            ) || asset == (Asset::NonFungible { id: x })) by {
                                            lemma_holds_update_fungible(s0, i as int, merged, x);
                                        }
                                        assert forall|p: int, q: int|
                                            0 <= p < q < self@.len() implies key_distinct(
                                            #[trigger] self@[p],
                                            #[trigger] self@[q],
                                        ) by {
                                            assert(key_distinct(s0[p], s0[q]));
                                        }
                                    }
                                    Ok(())
                                }
                            },
                            Asset::NonFungible { .. } => {
                                proof {
                                    assert(false);
                                }
                                Err(AbortReason::CapabilityPrecondition)
                            },
                        }
                    },
                    None => {
                        proof {
                            lemma_total_absent(s0, faucet_id);
                        }
                        let added = Asset::Fungible { faucet_id, amount };
                        self.assets.push(added);
                        proof {
                            assert forall|g: AccountId| #[trigger]
                                fungible_total(self@, g) == fungible_total(s0, g)
                                    + fungible_contribution(asset, g) by {
                                lemma_total_push(s0, added, g);
                            }
                            assert forall|x: Word| #[trigger]
                                holds_non_fungible(self@, x) == (holds_non_fungible(s0, x) || asset
                                    == (Asset::NonFungible { id: x })) by {
                                lemma_holds_push_fungible(s0, added, x);
                            }
                            assert forall|p: int, q: int|
                                0 <= p < q < self@.len() implies key_distinct(
                                #[trigger] self@[p],
                                #[trigger] self@[q],
                            ) by {
                                if q < s0.len() {
                                    assert(key_distinct(s0[p], s0[q]));
                                }
                            }
                        }
                        Ok(())
                    },
                }
            },
            Asset::NonFungible { id } => {
                match self.find_non_fungible(&id) {
                    Some(i) => {
                        proof {
                            assert(s0[i as int] == (Asset::NonFungible { id }));
                        }
                        Err(AbortReason::CapabilityPrecondition)
                    },
                    None => {
                        let added = Asset::NonFungible { id };
                        self.assets.push(added);
                        proof {
                            assert forall|g: AccountId| #[trigger]
                                fungible_total(self@, g) == fungible_total(s0, g)
                                    + fungible_contribution(asset, g) by {
                                lemma_total_push(s0, added, g);
                            }
                            assert forall|x: Word| #[trigger]
                                holds_non_fungible(self@, x) == (holds_non_fungible(s0, x) || asset
                                    == (Asset::NonFungible { id: x })) by {
                                lemma_holds_push_non_fungible(s0, id, x);
                            }
                            assert forall|p: int, q: int|
                                0 <= p < q < self@.len() implies key_distinct(
                                #[trigger] self@[p],
                                #[trigger] self@[q],
                            ) by {
                                if q < s0.len() {
                                    assert(key_distinct(s0[p], s0[q]));
                                }
                            }
                        }
                        Ok(())
                    },
                }
            },
        }
    }

    /// Removes `asset` from the vault and returns it.  Fails, leaving the
    /// vault unchanged, exactly when the vault does not cover the asset:
    /// the faucet's total is below a fungible amount, or the non-fungible
    /// id is not held.
    pub fn remove_asset(&mut self, asset: Asset) -> (r: Result<Asset, AbortReason>)
        requires
            old(self).inv(),
            asset.valid(),
        ensures
            final(self).inv(),
            match r {
                Ok(returned) => {
                    &&& returned == asset
                    &&& forall|g: AccountId| #[trigger]
                        fungible_total(final(self)@, g) == fungible_total(old(self)@, g)
                            - fungible_contribution(asset, g)
                    &&& forall|x: Word| #[trigger]
                        holds_non_fungible(final(self)@, x) == (holds_non_fungible(old(self)@, x)
                            && asset != (Asset::NonFungible { id: x }))
                },
                Err(e) => e == AbortReason::CapabilityPrecondition && final(self)@ == old(self)@,
            },
            r is Ok <==> covers(old(self)@, asset),
    {
        let ghost s0 = self@;
        match asset {
            Asset::Fungible { faucet_id, amount } => {
                match self.find_fungible(&faucet_id) {
                    Some(i) => {
                        proof {
                            self.lemma_unique_total(i as int, faucet_id);
                        }
                        match self.assets[i] {
                            Asset::Fungible { amount: held, .. } => {
                                if held >= amount {
                                    let rest = Asset::Fungible {
                                        faucet_id,
                                        amount: held - amount,
                                    };
                                    self.assets.set(i, rest);
                                    proof {
                                        assert forall|g: AccountId| #[trigger]
                                            fungible_total(self@, g) == fungible_total(s0, g)
                                                - fungible_contribution(asset, g) by {
                                            lemma_total_update(s0, i as int, rest, g);
                                        }
                                        assert forall|x: Word| #[trigger]
                                            holds_non_fungible(self@, x) == (holds_non_fungible(
                                                s0,
                                                x,
                                            ) && asset != (Asset::NonFungible { id: x })) by {
                                            lemma_holds_update_fungible(s0, i as int, rest, x);
                                        }
                                        assert forall|p: int, q: int|
                                            0 <= p < q < self@.len() implies key_distinct(
                                            #[trigger] self@[p],
                                            #[trigger] self@[q],
                                        ) by {
                                            assert(key_distinct(s0[p], s0[q]));
                                        }
                                    }
                                    Ok(asset)
                                } else {
                                    Err(AbortReason::CapabilityPrecondition)
                                }
                            },
                            Asset::NonFungible { .. } => {
                                proof {
                                    assert(false);
                                }
                                Err(AbortReason::CapabilityPrecondition)
                            },
                        }
                    },
                    None => {
                        proof {
                            lemma_total_absent(s0, faucet_id);
                        }
                        if amount == 0 {
                            Ok(asset)
                        } else {
                            Err(AbortReason::CapabilityPrecondition)
                        }
                    },
                }
            },
            Asset::NonFungible { id } => {
                match self.find_non_fungible(&id) {
                    Some(i) => {
                        self.assets.remove(i);
                        proof {
                            assert forall|g: AccountId| #[trigger]
                                fungible_total(self@, g) == fungible_total(s0, g)
                                    - fungible_contribution(asset, g) by {
                                lemma_total_remove(s0, i as int, g);
                            }
                            assert forall|x: Word| #[trigger]
                                holds_non_fungible(self@, x) == (holds_non_fungible(s0, x) && asset
                                    != (Asset::NonFungible { id: x })) by {
                                lemma_holds_remove_non_fungible(s0, i as int, x);
                            }
                            s0.remove_ensures(i as int);
                            assert forall|k: int|
                                0 <= k < self@.len() implies (#[trigger] self@[k]).valid() by {
                                if k < i as int {
                                    assert(self@[k] == s0[k]);
                                } else {
                                    assert(self@[k] == s0[k + 1]);
                                }
                            }
                            assert forall|p: int, q: int|
                                0 <= p < q < self@.len() implies key_distinct(
                                #[trigger] self@[p],
                                #[trigger] self@[q],
                            ) by {
                                let p0: int = if p < i as int {
                                    p
                                } else {
                                    p + 1
                                };
                                let q0: int = if q < i as int {
                                    q
                                } else {
                                    q + 1
                                };
                                assert(self@[p] == s0[p0]);
                                assert(self@[q] == s0[q0]);
                                assert(key_distinct(s0[p0], s0[q0]));
                            }
                        }
                        Ok(asset)
                    },
                    None => Err(AbortReason::CapabilityPrecondition),
                }
            },
        }
    }
}

/// A fresh vector holding the same assets.
fn copy_assets(v: &Vec<Asset>) -> (r: Vec<Asset>)
    ensures
        r@ == v@,
{
    let mut out: Vec<Asset> = Vec::new();
    let n = v.len();
    for i in 0..n
        invariant
            n == v@.len(),
            out@ == v@.take(i as int),
    {
        out.push(v[i]);
    }
    proof {
        assert(v@.take(n as int) =~= v@);
    }
    out
}

impl Vault {
    /// Merges every asset of `incoming`, in order, into the vault as one
    /// atomic step: either all are merged, or -- when the batch cannot be
    /// absorbed -- none is and the vault is unchanged.
    pub fn add_assets(&mut self, incoming: &Vec<Asset>) -> (r: Result<(), AbortReason>)
        requires
            old(self).inv(),
            forall|i: int| 0 <= i < incoming@.len() ==> (#[trigger] incoming@[i]).valid(),
        ensures
            final(self).inv(),
            match r {
                Ok(()) => {
                    &&& forall|g: AccountId| #[trigger]
                        fungible_total(final(self)@, g) == fungible_total(old(self)@, g)
                            + fungible_total(incoming@, g)
                    &&& forall|x: Word| #[trigger]
                        holds_non_fungible(final(self)@, x) == (holds_non_fungible(old(self)@, x)
                            || holds_non_fungible(incoming@, x))
                },
                Err(e) => e == AbortReason::CapabilityPrecondition && final(self)@ == old(self)@,
            },
            r is Ok <==> can_absorb(old(self)@, incoming@),
    {
        let ghost held0 = self@;
        let mut scratch = Vault { assets: copy_assets(&self.assets) };
        let n = incoming.len();
        proof {
            assert(incoming@.skip(0) =~= incoming@);
            assert(incoming@.take(0) =~= Seq::<Asset>::empty());
        }
        for k in 0..n
            invariant
                n == incoming@.len(),
                self@ == held0,
                self.inv(),
                scratch.inv(),
                forall|i: int| 0 <= i < incoming@.len() ==> (#[trigger] incoming@[i]).valid(),
                forall|g: AccountId| #[trigger]
                    fungible_total(scratch@, g) == fungible_total(held0, g) + fungible_total(
                        incoming@.take(k as int),
                        g,
                    ),
                forall|x: Word| #[trigger]
                    holds_non_fungible(scratch@, x) == (holds_non_fungible(held0, x)
                        || holds_non_fungible(incoming@.take(k as int), x)),
                can_absorb(held0, incoming@) == can_absorb(scratch@, incoming@.skip(k as int)),
        {
            let ghost before = scratch@;
            let ghost rest = incoming@.skip(k as int);
            proof {
                assert(rest[0] == incoming@[k as int]);
                assert(rest.drop_first() =~= incoming@.skip(k + 1));
            }
            match scratch.add_asset(incoming[k]) {
                Ok(()) => {},
                Err(e) => {
                    proof {
                        assert(!can_absorb(before, rest));
                    }
                    return Err(e);
                },
            }
            proof {
                let x = incoming@[k as int];
                assert forall|g: AccountId| #[trigger]
                    fungible_total(scratch@, g) == fungible_total(held0, g) + fungible_total(
                        incoming@.take(k + 1),
                        g,
                    ) by {
                    assert(incoming@.take(k + 1).drop_last() =~= incoming@.take(k as int));
                }
                assert forall|y: Word| #[trigger]
                    holds_non_fungible(scratch@, y) == (holds_non_fungible(held0, y)
                        || holds_non_fungible(incoming@.take(k + 1), y)) by {
                    match x {
                        Asset::Fungible { .. } => {
                            lemma_holds_push_fungible(incoming@.take(k as int), x, y);
                        },
                        Asset::NonFungible { id } => {
                            lemma_holds_push_non_fungible(incoming@.take(k as int), id, y);
                        },
                    }
                    assert(incoming@.take(k + 1) =~= incoming@.take(k as int).push(x));
                }
                assert forall|g: AccountId| #[trigger]
                    fungible_total(scratch@, g) == fungible_total(before.push(x), g) by {
                    lemma_total_push(before, x, g);
                }
                assert forall|y: Word| #[trigger]
                    holds_non_fungible(scratch@, y) == holds_non_fungible(before.push(x), y) by {
                    match x {
                        Asset::Fungible { .. } => {
                            lemma_holds_push_fungible(before, x, y);
                        },
                        Asset::NonFungible { id } => {
                            lemma_holds_push_non_fungible(before, id, y);
                        },
                    }
                }
                lemma_can_absorb_congruent(scratch@, before.push(x), incoming@.skip(k + 1));
            }
        }
        proof {
            assert(incoming@.skip(n as int) =~= Seq::<Asset>::empty());
            assert(incoming@.take(n as int) =~= incoming@);
        }
        self.assets = scratch.assets;
        Ok(())
    }
}

/// An account: an identity together with the vault it controls.
pub struct Account {
    pub id: AccountId,
    pub vault: Vault,
}

impl Account {
    /// The identity is canonical and the vault well-formed.
    pub open spec fn inv(self) -> bool {
        self.id.valid() && self.vault.inv()
    }

    /// An account with the given identity and an empty vault.
    pub fn new(id: AccountId) -> (r: Account)
        requires
            id.valid(),
        ensures
            r.inv(),
            r.id == id,
            r.vault@ == Seq::<Asset>::empty(),
    {
        Account { id, vault: Vault::new() }
    }

    /// The identity of the executing account.
    pub fn get_id(&self) -> (r: AccountId)
        ensures
            r == self.id,
    {
        self.id
    }

    /// Adds an asset to the account: the asset-receiving capability a
    /// consumption guard invokes for each asset of a validated note.
    pub fn receive_asset(&mut self, asset: Asset) -> (r: Result<(), AbortReason>)
        requires
            old(self).inv(),
            asset.valid(),
        ensures
            final(self).inv(),
            final(self).id == old(self).id,
            match r {
                Ok(()) => {
                    &&& forall|g: AccountId| #[trigger]
                        fungible_total(final(self).vault@, g) == fungible_total(
                            old(self).vault@,
                            g,
                        ) + fungible_contribution(asset, g)
                    &&& forall|x: Word| #[trigger]
                        holds_non_fungible(final(self).vault@, x) == (holds_non_fungible(
                            old(self).vault@,
                            x,
                        ) || asset == (Asset::NonFungible { id: x }))
                },
                Err(e) => e == AbortReason::CapabilityPrecondition && final(self).vault@ == old(
                    self,
                ).vault@,
            },
            r is Ok <==> (match asset {
                Asset::Fungible { faucet_id, amount } => fungible_total(old(self).vault@, faucet_id)
                    + amount <= MAX_AMOUNT,
                Asset::NonFungible { id } => !holds_non_fungible(old(self).vault@, id),
            }),
    {
        self.vault.add_asset(asset)
    }
}

} // verus!
