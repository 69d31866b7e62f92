use casier::batch::{decode_batch_resources, ResourceSlot};
use casier::state::{Config, CustodyAccounts, ErrorCode, HoldingAccount, Locker, WithdrawType};
use casier::utils::{classify_withdrawal, perform_deposit_v2, perform_withdraw_v2};
use casier::{deposit_batch, inc_nonce, init_config, init_locker_v2, withdraw_v2_batch};

const OWNER: u64 = 1;
const ADMIN: u64 = 5;
const OTHER: u64 = 9;
const ASSET: u64 = 7;

fn config() -> Config {
    init_config(ADMIN)
}

fn account(authority: u64, asset: u64, amount: u64) -> Option<HoldingAccount> {
    Some(HoldingAccount { authority, asset, amount })
}

/// A ledger that already tracks one entry, with a matching primary
/// holding account.
fn tracked_locker(balance: u64) -> Locker {
    let mut locker = init_locker_v2(OWNER);
    let cfg = config();
    let mut accounts = CustodyAccounts {
        vault: None,
        burn: None,
        user: account(OTHER, ASSET, balance),
    };
    let r = perform_deposit_v2(&mut locker, &cfg, &mut accounts, ASSET, balance, 0, false);
    assert_eq!(r, Ok(()));
    locker
}

#[test]
fn init_config_sets_admin_and_releases_gate() {
    let cfg = init_config(42);
    assert_eq!(cfg.admin, 42);
    assert!(!cfg.is_frozen);
}

#[test]
fn init_locker_starts_empty_with_sequence_zero() {
    let locker = init_locker_v2(OWNER);
    assert_eq!(locker.owner, OWNER);
    assert_eq!(locker.mints.len(), 0);
    assert_eq!(locker.amounts.len(), 0);
    assert_eq!(locker.space, 0);
}

#[test]
fn deposit_cas_applies_then_rejects_stale_expectation() {
    let mut locker = tracked_locker(100);
    let cfg = config();
    let mut accounts = CustodyAccounts {
        vault: account(OWNER, ASSET, 100),
        burn: None,
        user: account(OTHER, ASSET, 500),
    };
    let r = perform_deposit_v2(&mut locker, &cfg, &mut accounts, ASSET, 10, 100, false);
    assert_eq!(r, Ok(()));
    assert_eq!(locker.mints, vec![ASSET]);
    assert_eq!(locker.amounts, vec![110]);
    assert_eq!(accounts.vault, account(OWNER, ASSET, 110));
    assert_eq!(accounts.user, account(OTHER, ASSET, 490));

    let mut stale = CustodyAccounts {
        vault: accounts.vault,
        burn: None,
        user: accounts.user,
    };
    let r2 = perform_deposit_v2(&mut locker, &cfg, &mut stale, ASSET, 10, 100, false);
    assert_eq!(r2, Err(ErrorCode::PriorBalanceMismatch));
    assert_eq!(locker.amounts, vec![110]);
    assert_eq!(stale.vault, account(OWNER, ASSET, 110));
}

#[test]
fn deposit_of_untracked_asset_needs_zero_expectation() {
    let mut locker = init_locker_v2(OWNER);
    let cfg = config();
    let mut accounts = CustodyAccounts {
        vault: None,
        burn: None,
        user: account(OTHER, ASSET, 50),
    };
    let r = perform_deposit_v2(&mut locker, &cfg, &mut accounts, ASSET, 50, 3, false);
    assert_eq!(r, Err(ErrorCode::InvalidPriorState));
    assert_eq!(locker.mints.len(), 0);
    assert_eq!(accounts.user, account(OTHER, ASSET, 50));
}

#[test]
fn deposit_rejects_mismatched_destination() {
    let mut locker = init_locker_v2(OWNER);
    let cfg = config();
    let mut accounts = CustodyAccounts {
        vault: account(OWNER, ASSET + 1, 0),
        burn: None,
        user: account(OTHER, ASSET, 50),
    };
    let r = perform_deposit_v2(&mut locker, &cfg, &mut accounts, ASSET, 50, 0, false);
    assert_eq!(r, Err(ErrorCode::InvalidDestination));
    assert_eq!(locker.mints.len(), 0);
}

#[test]
fn deposit_fails_when_source_cannot_cover_it() {
    let mut locker = init_locker_v2(OWNER);
    let cfg = config();
    let mut accounts = CustodyAccounts {
        vault: None,
        burn: None,
        user: account(OTHER, ASSET, 30),
    };
    let r = perform_deposit_v2(&mut locker, &cfg, &mut accounts, ASSET, 40, 0, false);
    assert_eq!(r, Err(ErrorCode::TransferFailed));
    assert_eq!(locker.mints.len(), 0);
    assert_eq!(accounts.user, account(OTHER, ASSET, 30));
}

#[test]
fn escalated_deposit_sweeps_and_closes_primary_account() {
    let mut locker = tracked_locker(25);
    let cfg = config();
    let mut accounts = CustodyAccounts {
        vault: account(OWNER, ASSET, 25),
        burn: account(ADMIN, ASSET, 0),
        user: account(OTHER, ASSET, 100),
    };
    let r = perform_deposit_v2(&mut locker, &cfg, &mut accounts, ASSET, 60, 25, true);
    assert_eq!(r, Ok(()));
    assert_eq!(locker.amounts, vec![85]);
    // the deposited 60 and the swept 25 both sit in escalation now
    assert_eq!(accounts.burn, account(ADMIN, ASSET, 85));
    assert_eq!(accounts.vault, None);
    assert_eq!(accounts.user, account(OTHER, ASSET, 40));
}

#[test]
fn escalated_deposit_provisions_missing_escalation_account() {
    let mut locker = init_locker_v2(OWNER);
    let cfg = config();
    let mut accounts = CustodyAccounts {
        vault: None,
        burn: None,
        user: account(OTHER, ASSET, 100),
    };
    let r = perform_deposit_v2(&mut locker, &cfg, &mut accounts, ASSET, 100, 0, true);
    assert_eq!(r, Ok(()));
    assert_eq!(accounts.burn, account(ADMIN, ASSET, 100));
    assert_eq!(accounts.vault, None);
    assert_eq!(locker.mints, vec![ASSET]);
    assert_eq!(locker.amounts, vec![100]);
}

#[test]
fn classification_follows_escalation_rule() {
    // needs_escalation = 50 < 100 - 30, so the burn variant is chosen
    assert_eq!(classify_withdrawal(OWNER, OWNER, 50, 100, 30), WithdrawType::OwnerBurn);
    assert_eq!(classify_withdrawal(OWNER, OTHER, 50, 100, 30), WithdrawType::NonOwnerBurn);
    assert_eq!(classify_withdrawal(OWNER, OWNER, 70, 100, 30), WithdrawType::Owner);
    assert_eq!(classify_withdrawal(OWNER, OTHER, 70, 100, 30), WithdrawType::NonOwner);
    assert_eq!(classify_withdrawal(OWNER, OWNER, 0, 50, 50), WithdrawType::Owner);
}

#[test]
fn withdrawal_drains_entry_and_closes_primary_account() {
    let mut locker = tracked_locker(50);
    let cfg = config();
    let mut accounts = CustodyAccounts {
        vault: account(OWNER, ASSET, 50),
        burn: None,
        user: account(OWNER, ASSET, 0),
    };
    let r = perform_withdraw_v2(&mut locker, &cfg, &mut accounts, ASSET, 50, 50, 0, OWNER, false);
    assert_eq!(r, Ok(()));
    assert_eq!(locker.mints.len(), 0);
    assert_eq!(locker.amounts.len(), 0);
    assert_eq!(accounts.vault, None);
    assert_eq!(accounts.user, account(OWNER, ASSET, 50));
}

#[test]
fn withdrawal_rejects_insufficient_source_funds() {
    let mut locker = tracked_locker(30);
    let cfg = config();
    let mut accounts = CustodyAccounts {
        vault: account(OWNER, ASSET, 30),
        burn: None,
        user: account(OWNER, ASSET, 0),
    };
    let r = perform_withdraw_v2(&mut locker, &cfg, &mut accounts, ASSET, 40, 30, 0, OWNER, false);
    assert_eq!(r, Err(ErrorCode::InsufficientFunds));
    assert_eq!(locker.mints, vec![ASSET]);
    assert_eq!(locker.amounts, vec![30]);
    assert_eq!(accounts.vault, account(OWNER, ASSET, 30));
    assert_eq!(accounts.user, account(OWNER, ASSET, 0));
}

#[test]
fn withdrawal_rejects_stale_expectation() {
    let mut locker = tracked_locker(80);
    let cfg = config();
    let mut accounts = CustodyAccounts {
        vault: account(OWNER, ASSET, 80),
        burn: None,
        user: account(OWNER, ASSET, 0),
    };
    let r = perform_withdraw_v2(&mut locker, &cfg, &mut accounts, ASSET, 10, 70, 70, OWNER, false);
    assert_eq!(r, Err(ErrorCode::PriorBalanceMismatch));
    assert_eq!(locker.amounts, vec![80]);
}

#[test]
fn withdrawal_of_untracked_asset_from_primary_is_rejected() {
    let mut locker = init_locker_v2(OWNER);
    let cfg = config();
    let mut accounts = CustodyAccounts {
        vault: account(OWNER, ASSET, 20),
        burn: None,
        user: account(OWNER, ASSET, 0),
    };
    let r = perform_withdraw_v2(&mut locker, &cfg, &mut accounts, ASSET, 10, 0, 5, OWNER, false);
    assert_eq!(r, Err(ErrorCode::WithdrawForUntrackedAsset));
    assert_eq!(locker.mints.len(), 0);
    assert_eq!(accounts.vault, account(OWNER, ASSET, 20));
}

#[test]
fn withdrawal_from_escalation_may_create_entry() {
    let mut locker = init_locker_v2(OWNER);
    let cfg = config();
    let mut accounts = CustodyAccounts {
        vault: None,
        burn: account(ADMIN, ASSET, 100),
        user: account(OTHER, ASSET, 0),
    };
    let r = perform_withdraw_v2(&mut locker, &cfg, &mut accounts, ASSET, 40, 0, 60, OTHER, true);
    assert_eq!(r, Ok(()));
    assert_eq!(locker.mints, vec![ASSET]);
    assert_eq!(locker.amounts, vec![60]);
    assert_eq!(accounts.burn, account(ADMIN, ASSET, 60));
    assert_eq!(accounts.user, account(OTHER, ASSET, 40));
    assert_eq!(accounts.vault, None);
}

#[test]
fn withdrawal_rejects_foreign_destination_account() {
    let mut locker = tracked_locker(60);
    let cfg = config();
    let mut accounts = CustodyAccounts {
        vault: account(OWNER, ASSET, 60),
        burn: None,
        user: account(OTHER, ASSET, 0),
    };
    let r = perform_withdraw_v2(&mut locker, &cfg, &mut accounts, ASSET, 10, 60, 50, OWNER, false);
    assert_eq!(r, Err(ErrorCode::InvalidVault));
    assert_eq!(locker.amounts, vec![60]);
}

#[test]
fn burn_classified_withdrawal_sweeps_residue_into_escalation() {
    let mut locker = tracked_locker(100);
    let cfg = config();
    let mut accounts = CustodyAccounts {
        vault: account(OWNER, ASSET, 100),
        burn: account(ADMIN, ASSET, 0),
        user: account(OWNER, ASSET, 0),
    };
    // needs_escalation: 50 < 100 - 30
    let r = perform_withdraw_v2(&mut locker, &cfg, &mut accounts, ASSET, 30, 100, 50, OWNER, false);
    assert_eq!(r, Ok(()));
    assert_eq!(locker.amounts, vec![50]);
    // the payout of 30 left 70; the sweep moved 100 - 50 = 50 of it
    assert_eq!(accounts.vault, account(OWNER, ASSET, 20));
    assert_eq!(accounts.burn, account(ADMIN, ASSET, 50));
    assert_eq!(accounts.user, account(OWNER, ASSET, 30));
}

#[test]
fn deposit_then_partial_withdrawal_keeps_custody_in_primary() {
    let mut locker = init_locker_v2(OWNER);
    let cfg = config();
    let mut accounts = CustodyAccounts {
        vault: None,
        burn: None,
        user: account(OWNER, ASSET, 100),
    };
    let r = perform_deposit_v2(&mut locker, &cfg, &mut accounts, ASSET, 100, 0, false);
    assert_eq!(r, Ok(()));
    assert_eq!(accounts.vault, account(OWNER, ASSET, 100));

    // final balance equals what remains, so no escalation happens
    let r2 = perform_withdraw_v2(&mut locker, &cfg, &mut accounts, ASSET, 40, 100, 60, OWNER, false);
    assert_eq!(r2, Ok(()));
    assert_eq!(locker.mints, vec![ASSET]);
    assert_eq!(locker.amounts, vec![60]);
    assert_eq!(accounts.vault, account(OWNER, ASSET, 60));
    assert_eq!(accounts.burn, None);
    assert_eq!(accounts.user, account(OWNER, ASSET, 40));
}

#[test]
fn inc_nonce_advances_once_and_rejects_replay() {
    let mut locker = init_locker_v2(OWNER);
    assert_eq!(inc_nonce(&mut locker, 0), Ok(()));
    assert_eq!(locker.space, 1);
    assert_eq!(inc_nonce(&mut locker, 0), Err(ErrorCode::SequenceMismatch));
    assert_eq!(locker.space, 1);
    assert_eq!(inc_nonce(&mut locker, 1), Ok(()));
    assert_eq!(locker.space, 2);
}

fn normal_chunk(asset: u64, user: Option<HoldingAccount>, vault: Option<HoldingAccount>, burn: Option<HoldingAccount>) -> Vec<ResourceSlot> {
    vec![
        ResourceSlot::AssetRef(asset),
        ResourceSlot::AccountSlot(user),
        ResourceSlot::AccountSlot(vault),
        ResourceSlot::AccountSlot(burn),
    ]
}

#[test]
fn batch_sequence_advances_once_and_rejects_replay() {
    let mut locker = init_locker_v2(OWNER);
    let cfg = config();
    let resources = normal_chunk(ASSET, account(OTHER, ASSET, 100), None, None);
    let r = deposit_batch(&mut locker, &cfg, &resources, &vec![100], &vec![0], false, 0, 0);
    assert!(r.is_ok());
    assert_eq!(locker.space, 1);
    assert_eq!(locker.mints, vec![ASSET]);
    assert_eq!(locker.amounts, vec![100]);
    let outs = r.unwrap();
    assert_eq!(outs.len(), 1);
    assert_eq!(outs[0].vault, account(OWNER, ASSET, 100));

    let r2 = deposit_batch(&mut locker, &cfg, &resources, &vec![100], &vec![0], false, 0, 0);
    assert_eq!(r2, Err(ErrorCode::SequenceMismatch));
    assert_eq!(locker.space, 1);
    assert_eq!(locker.amounts, vec![100]);
}

#[test]
fn batch_applies_items_in_order_against_evolving_state() {
    let mut locker = init_locker_v2(OWNER);
    let cfg = config();
    let mut resources = normal_chunk(ASSET, account(OTHER, ASSET, 100), None, None);
    resources.extend(normal_chunk(ASSET, account(OTHER, ASSET, 40), account(OWNER, ASSET, 60), None));
    // the second item must expect the balance the first one left behind
    let r = deposit_batch(&mut locker, &cfg, &resources, &vec![60, 40], &vec![0, 60], false, 0, 0);
    assert!(r.is_ok());
    assert_eq!(locker.amounts, vec![100]);
    let outs = r.unwrap();
    assert_eq!(outs[1].vault, account(OWNER, ASSET, 100));
}

#[test]
fn failing_item_aborts_whole_batch() {
    let mut locker = tracked_locker(10);
    let cfg = config();
    let mut resources = normal_chunk(ASSET, account(OTHER, ASSET, 100), account(OWNER, ASSET, 10), None);
    resources.extend(normal_chunk(ASSET, account(OTHER, ASSET, 100), account(OWNER, ASSET, 10), None));
    // first item fine, second carries a stale expectation
    let r = deposit_batch(&mut locker, &cfg, &resources, &vec![5, 5], &vec![10, 10], false, 0, 0);
    assert_eq!(r, Err(ErrorCode::PriorBalanceMismatch));
    assert_eq!(locker.space, 0);
    assert_eq!(locker.amounts, vec![10]);
}

#[test]
fn batch_rejects_inconsistent_resource_list() {
    let mut locker = init_locker_v2(OWNER);
    let cfg = config();
    let mut resources = normal_chunk(ASSET, account(OTHER, ASSET, 100), None, None);
    resources.pop();
    let r = deposit_batch(&mut locker, &cfg, &resources, &vec![100], &vec![0], false, 0, 0);
    assert_eq!(r, Err(ErrorCode::MalformedBatchLayout));
    assert_eq!(locker.space, 0);

    // per-item arrays must agree in length as well
    let resources2 = normal_chunk(ASSET, account(OTHER, ASSET, 100), None, None);
    let r2 = deposit_batch(&mut locker, &cfg, &resources2, &vec![100], &vec![0, 0], false, 0, 0);
    assert_eq!(r2, Err(ErrorCode::MalformedBatchLayout));
}

#[test]
fn extended_items_come_first_with_their_aux_references() {
    let mut resources = vec![
        ResourceSlot::AssetRef(ASSET),
        ResourceSlot::AccountSlot(account(OTHER, ASSET, 100)),
        ResourceSlot::AccountSlot(None),
        ResourceSlot::AccountSlot(None),
        ResourceSlot::AuxRef(11),
        ResourceSlot::AuxRef(12),
        ResourceSlot::AuxRef(13),
        ResourceSlot::AuxRef(14),
    ];
    resources.extend(normal_chunk(ASSET + 1, account(OTHER, ASSET + 1, 5), None, None));
    let decoded = decode_batch_resources(&resources, 2, 1).unwrap();
    assert_eq!(decoded.len(), 2);
    assert_eq!(decoded[0].asset, ASSET);
    let ext = decoded[0].extended.unwrap();
    assert_eq!(ext.metadata, 11);
    assert_eq!(ext.edition, 14);
    assert_eq!(decoded[1].asset, ASSET + 1);
    assert!(decoded[1].extended.is_none());

    // an extended item that is not first misaligns the chunks
    let mut wrong = normal_chunk(ASSET + 1, account(OTHER, ASSET + 1, 5), None, None);
    wrong.extend(resources[0..8].to_vec());
    assert_eq!(decode_batch_resources(&wrong, 2, 1), Err(ErrorCode::MalformedBatchLayout));

    // a declared extended count needs the extra slots to be present
    let plain = normal_chunk(ASSET, account(OTHER, ASSET, 5), None, None);
    assert_eq!(decode_batch_resources(&plain, 1, 1), Err(ErrorCode::MalformedBatchLayout));
}

#[test]
fn withdraw_batch_advances_sequence_and_pays_out() {
    let mut locker = tracked_locker(50);
    let cfg = config();
    let resources = normal_chunk(
        ASSET,
        account(OWNER, ASSET, 0),
        account(OWNER, ASSET, 50),
        None,
    );
    let r = withdraw_v2_batch(
        &mut locker,
        &cfg,
        &resources,
        &vec![20],
        &vec![50],
        &vec![30],
        OWNER,
        false,
        0,
        0,
    );
    assert!(r.is_ok());
    assert_eq!(locker.space, 1);
    assert_eq!(locker.amounts, vec![30]);
    let outs = r.unwrap();
    assert_eq!(outs[0].vault, account(OWNER, ASSET, 30));
    assert_eq!(outs[0].user, account(OWNER, ASSET, 20));

    let r2 = withdraw_v2_batch(
        &mut locker,
        &cfg,
        &resources,
        &vec![20],
        &vec![50],
        &vec![30],
        OWNER,
        false,
        0,
        0,
    );
    assert_eq!(r2, Err(ErrorCode::SequenceMismatch));
}

#[test]
fn empty_batch_still_advances_sequence() {
    let mut locker = init_locker_v2(OWNER);
    let cfg = config();
    let resources: Vec<ResourceSlot> = vec![];
    let r = deposit_batch(&mut locker, &cfg, &resources, &vec![], &vec![], false, 0, 0);
    assert_eq!(r, Ok(vec![]));
    assert_eq!(locker.space, 1);
    assert_eq!(locker.mints.len(), 0);
}

#[test]
fn zero_deposit_of_untracked_asset_creates_no_entry() {
    let mut locker = init_locker_v2(OWNER);
    let cfg = config();
    let mut accounts = CustodyAccounts {
        vault: None,
        burn: None,
        user: account(OTHER, ASSET, 10),
    };
    let r = perform_deposit_v2(&mut locker, &cfg, &mut accounts, ASSET, 0, 0, false);
    assert_eq!(r, Ok(()));
    assert_eq!(locker.mints.len(), 0);
    assert_eq!(accounts.vault, account(OWNER, ASSET, 0));
    assert_eq!(accounts.user, account(OTHER, ASSET, 10));
}

#[test]
fn ledger_store_keeps_assets_unique_and_balances_positive() {
    let mut locker = init_locker_v2(OWNER);
    locker.upsert(ASSET, 10);
    locker.upsert(ASSET + 1, 20);
    locker.upsert(ASSET, 15);
    assert_eq!(locker.mints, vec![ASSET, ASSET + 1]);
    assert_eq!(locker.amounts, vec![15, 20]);
    assert_eq!(locker.find(ASSET + 1), Some(1));
    assert_eq!(locker.find(ASSET + 2), None);
    locker.remove(ASSET);
    assert_eq!(locker.mints, vec![ASSET + 1]);
    assert_eq!(locker.amounts, vec![20]);
    locker.remove(ASSET + 2);
    assert_eq!(locker.mints, vec![ASSET + 1]);
}
