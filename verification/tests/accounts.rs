//! Tests of the vault, note, guard and counter components.

use miden_note_core::advice::AdviceMap;
use miden_note_core::asset::{AccountId, Asset, MAX_AMOUNT};
use miden_note_core::build_config::CargoTest;
use miden_note_core::commitment::build;
use miden_note_core::counter::{counter_key, run_increment_note, CounterContract};
use miden_note_core::error::AbortReason;
use miden_note_core::field::{Felt, Word, FIELD_MODULUS};
use miden_note_core::guard::{consume_note, InputNote};
use miden_note_core::notes::TransactionContext;
use miden_note_core::params::{ExecutionHint, NoteParameters, NoteType};
use miden_note_core::script::run_transfer_script;
use miden_note_core::vault::Account;

fn felt(v: u64) -> Felt {
    Felt::from_u64(v)
}

fn word(a: u64, b: u64, c: u64, d: u64) -> Word {
    Word::new(felt(a), felt(b), felt(c), felt(d))
}

fn account_id(prefix: u64, suffix: u64) -> AccountId {
    AccountId {
        prefix: felt(prefix),
        suffix: felt(suffix),
    }
}

fn fungible(prefix: u64, suffix: u64, amount: u64) -> Asset {
    Asset::Fungible {
        faucet_id: account_id(prefix, suffix),
        amount,
    }
}

#[test]
fn fungible_amounts_accumulate() {
    let mut account = Account::new(account_id(1, 2));
    let faucet = account_id(5, 6);
    account.vault.add_asset(fungible(5, 6, 100)).unwrap();
    account.vault.add_asset(fungible(5, 6, 25)).unwrap();
    account.vault.add_asset(fungible(7, 8, 3)).unwrap();
    assert_eq!(account.vault.fungible_balance(faucet), 125);
    assert_eq!(account.vault.fungible_balance(account_id(7, 8)), 3);
    assert_eq!(account.vault.fungible_balance(account_id(9, 9)), 0);
}

#[test]
fn merged_amount_cannot_pass_the_cap() {
    let mut account = Account::new(account_id(1, 2));
    account.vault.add_asset(fungible(5, 6, MAX_AMOUNT)).unwrap();
    assert_eq!(
        account.vault.add_asset(fungible(5, 6, 1)),
        Err(AbortReason::CapabilityPrecondition)
    );
    assert_eq!(account.vault.fungible_balance(account_id(5, 6)), MAX_AMOUNT);
}

#[test]
fn removing_more_than_held_fails_and_changes_nothing() {
    let mut account = Account::new(account_id(1, 2));
    account.vault.add_asset(fungible(5, 6, 40)).unwrap();
    assert_eq!(
        account.vault.remove_asset(fungible(5, 6, 41)),
        Err(AbortReason::CapabilityPrecondition)
    );
    assert_eq!(account.vault.fungible_balance(account_id(5, 6)), 40);
    let removed = account.vault.remove_asset(fungible(5, 6, 15)).unwrap();
    assert_eq!(removed, fungible(5, 6, 15));
    assert_eq!(account.vault.fungible_balance(account_id(5, 6)), 25);
}

#[test]
fn non_fungible_assets_move_whole() {
    let mut account = Account::new(account_id(1, 2));
    let gem = Asset::NonFungible {
        id: word(3, 4, 5, 6),
    };
    account.vault.add_asset(gem).unwrap();
    assert!(account.vault.holds(word(3, 4, 5, 6)));
    assert_eq!(
        account.vault.add_asset(gem),
        Err(AbortReason::CapabilityPrecondition)
    );
    let removed = account.vault.remove_asset(gem).unwrap();
    assert_eq!(removed, gem);
    assert!(!account.vault.holds(word(3, 4, 5, 6)));
    assert_eq!(
        account.vault.remove_asset(gem),
        Err(AbortReason::CapabilityPrecondition)
    );
}

#[test]
fn asset_word_packing_round_trips() {
    let coin = fungible(5, 6, 77);
    let packed = coin.to_word();
    assert_eq!(Asset::from_word(packed), Ok(coin));
    let gem = Asset::NonFungible {
        id: word(3, 4, 5, 6),
    };
    assert_eq!(Asset::from_word(gem.to_word()), Ok(gem));
    let oversized = word(5, 6, 0, MAX_AMOUNT + 1);
    assert_eq!(
        Asset::from_word(oversized),
        Err(AbortReason::CapabilityPrecondition)
    );
}

#[test]
fn moving_an_asset_conserves_totals() {
    let mut account = Account::new(account_id(1, 2));
    account.vault.add_asset(fungible(5, 6, 100)).unwrap();
    let mut ctx = TransactionContext::new(account);
    let idx = ctx.create_note(
        felt(7),
        felt(0),
        NoteType::Public,
        ExecutionHint::Always,
        word(11, 12, 13, 14),
    );
    assert_eq!(idx, 0);
    ctx.move_asset_to_note(fungible(5, 6, 40), idx).unwrap();
    assert_eq!(ctx.account.vault.fungible_balance(account_id(5, 6)), 60);
    let note_assets = &ctx.note(idx).assets;
    assert_eq!(note_assets.len(), 1);
    assert_eq!(note_assets[0], fungible(5, 6, 40));
}

#[test]
fn moving_to_an_unknown_note_fails() {
    let mut account = Account::new(account_id(1, 2));
    account.vault.add_asset(fungible(5, 6, 100)).unwrap();
    let mut ctx = TransactionContext::new(account);
    assert_eq!(
        ctx.move_asset_to_note(fungible(5, 6, 40), 3),
        Err(AbortReason::CapabilityPrecondition)
    );
    assert_eq!(ctx.account.vault.fungible_balance(account_id(5, 6)), 100);
}

#[test]
fn moving_an_uncovered_asset_fails_atomically() {
    let mut account = Account::new(account_id(1, 2));
    account.vault.add_asset(fungible(5, 6, 10)).unwrap();
    let mut ctx = TransactionContext::new(account);
    let idx = ctx.create_note(
        felt(7),
        felt(0),
        NoteType::Public,
        ExecutionHint::Always,
        word(11, 12, 13, 14),
    );
    assert_eq!(
        ctx.move_asset_to_note(fungible(5, 6, 11), idx),
        Err(AbortReason::CapabilityPrecondition)
    );
    assert_eq!(ctx.account.vault.fungible_balance(account_id(5, 6)), 10);
    assert_eq!(ctx.note(idx).assets.len(), 0);
}

#[test]
fn mismatched_target_moves_zero_assets() {
    let mut account = Account::new(account_id(1, 2));
    let note = InputNote {
        inputs: vec![felt(9), felt(2)],
        assets: vec![fungible(5, 6, 50)],
    };
    assert_eq!(
        consume_note(&mut account, &note),
        Err(AbortReason::CapabilityPrecondition)
    );
    assert_eq!(account.vault.fungible_balance(account_id(5, 6)), 0);
}

#[test]
fn note_without_identity_inputs_is_rejected() {
    let mut account = Account::new(account_id(1, 2));
    let note = InputNote {
        inputs: vec![felt(1)],
        assets: vec![fungible(5, 6, 50)],
    };
    assert_eq!(
        consume_note(&mut account, &note),
        Err(AbortReason::CapabilityPrecondition)
    );
    assert_eq!(account.vault.fungible_balance(account_id(5, 6)), 0);
}

#[test]
fn matched_target_receives_every_asset() {
    let mut account = Account::new(account_id(1, 2));
    account.vault.add_asset(fungible(5, 6, 5)).unwrap();
    let note = InputNote {
        inputs: vec![felt(1), felt(2), felt(99)],
        assets: vec![
            fungible(5, 6, 50),
            Asset::NonFungible {
                id: word(3, 4, 5, 6),
            },
        ],
    };
    consume_note(&mut account, &note).unwrap();
    assert_eq!(account.vault.fungible_balance(account_id(5, 6)), 55);
    assert!(account.vault.holds(word(3, 4, 5, 6)));
}

#[test]
fn counter_starts_at_zero_and_counts_up() {
    let mut counter = CounterContract::new();
    assert_eq!(counter.get_count().as_u64(), 0);
    assert_eq!(counter.increment_count().as_u64(), 1);
    assert_eq!(counter.get_count().as_u64(), 1);
    assert_eq!(counter.get_count().as_u64(), 1);
    assert_eq!(counter.increment_count().as_u64(), 2);
    assert_eq!(counter.get_count().as_u64(), 2);
}

#[test]
fn counter_wraps_at_the_field_modulus() {
    let mut counter = CounterContract::new();
    counter.count_map.set(
        counter_key(),
        Word::new(felt(0), felt(0), felt(0), felt(FIELD_MODULUS - 1)),
    );
    assert_eq!(counter.get_count().as_u64(), FIELD_MODULUS - 1);
    assert_eq!(counter.increment_count().as_u64(), 0);
    assert_eq!(counter.get_count().as_u64(), 0);
}

#[test]
fn increment_note_script_adds_one() {
    let mut counter = CounterContract::new();
    counter.increment_count();
    counter.increment_count();
    run_increment_note(&mut counter);
    assert_eq!(counter.get_count().as_u64(), 3);
}

#[test]
fn transfer_script_end_to_end() {
    // Build parameters, publish the commitment, run the verifier with
    // the reversed digest: the decoded record equals the committed one,
    // exactly one note is created, and the vault is reduced by exactly
    // the committed asset.
    let faucet = account_id(21, 22);
    let recipient_digest = word(11, 12, 13, 14);
    let params = NoteParameters {
        tag: felt(7),
        aux: felt(0),
        note_type: NoteType::Public,
        execution_hint: ExecutionHint::Always,
        recipient: recipient_digest,
        asset: fungible(21, 22, 500).to_word(),
    };
    let mut advice = AdviceMap::new();
    let (arg, _encoded) = build(&params, &mut advice);

    let mut account = Account::new(account_id(1, 2));
    account.vault.add_asset(fungible(21, 22, 800)).unwrap();
    let mut ctx = TransactionContext::new(account);

    let idx = run_transfer_script(&mut ctx, &advice, arg).unwrap();
    assert_eq!(idx, 0);
    assert_eq!(ctx.note_count(), 1);
    let note = ctx.note(idx);
    assert_eq!(note.metadata.tag, felt(7));
    assert_eq!(note.metadata.aux, felt(0));
    assert_eq!(note.metadata.note_type, NoteType::Public);
    assert_eq!(note.metadata.execution_hint, ExecutionHint::Always);
    assert_eq!(note.recipient, recipient_digest);
    assert_eq!(note.assets.len(), 1);
    assert_eq!(note.assets[0], fungible(21, 22, 500));
    assert_eq!(ctx.account.vault.fungible_balance(faucet), 300);
}

#[test]
fn transfer_script_leaves_everything_on_failure() {
    let params = NoteParameters {
        tag: felt(7),
        aux: felt(0),
        note_type: NoteType::Public,
        execution_hint: ExecutionHint::Always,
        recipient: word(11, 12, 13, 14),
        asset: fungible(21, 22, 500).to_word(),
    };
    let mut advice = AdviceMap::new();
    let (arg, _) = build(&params, &mut advice);

    // The vault holds less than the committed asset.
    let mut account = Account::new(account_id(1, 2));
    account.vault.add_asset(fungible(21, 22, 100)).unwrap();
    let mut ctx = TransactionContext::new(account);

    assert_eq!(
        run_transfer_script(&mut ctx, &advice, arg),
        Err(AbortReason::CapabilityPrecondition)
    );
    assert_eq!(ctx.note_count(), 0);
    assert_eq!(ctx.account.vault.fungible_balance(account_id(21, 22)), 100);
}

#[test]
fn build_config_defaults_to_release() {
    let cfg = CargoTest::new(String::from("counter"), String::from("examples/counter"));
    assert_eq!(cfg.name().as_str(), "counter");
    assert_eq!(cfg.project_dir().as_str(), "examples/counter");
    assert!(cfg.release());
}
