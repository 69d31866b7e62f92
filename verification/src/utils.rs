//! The deposit and withdraw engines, the custody router they share, and
//! the model of the external transfer executor.
//!
//! Each engine is transactional: it checks every contract in algorithm
//! order and commits the ledger and account updates only when all of
//! them hold, so a failed request leaves both untouched. The exact
//! outcome of an engine, result and new state together, is stated by a
//! spec-level transition function that its `ensures` pins down.

use vstd::prelude::*;

verus! {

use crate::state::{
    Config, CustodyAccounts, ErrorCode, HoldingAccount, Locker, LockerV, WithdrawType,
};

/// Whether the residue a withdrawal leaves in its source must be moved
/// to the escalation account: more would remain there than the caller
/// declared as the final balance.
pub open spec fn spec_needs_escalation(
    final_balance: u64,
    source_amount: u64,
    withdraw_amount: u64,
) -> bool {
    (final_balance as int) < source_amount - withdraw_amount
}

/// The four-way withdrawal classification: requester identity crossed
/// with the escalation decision.
pub open spec fn spec_classify(
    ledger_owner: u64,
    requesting_principal: u64,
    final_balance: u64,
    source_amount: u64,
    withdraw_amount: u64,
) -> WithdrawType {
    if requesting_principal == ledger_owner {
        if spec_needs_escalation(final_balance, source_amount, withdraw_amount) {
            WithdrawType::OwnerBurn
        } else {
            WithdrawType::Owner
        }
    } else {
        if spec_needs_escalation(final_balance, source_amount, withdraw_amount) {
            WithdrawType::NonOwnerBurn
        } else {
            WithdrawType::NonOwner
        }
    }
}

/// Pure custody-router decision for a withdrawal.
pub fn classify_withdrawal(
    ledger_owner: u64,
    requesting_principal: u64,
    final_balance: u64,
    source_amount: u64,
    withdraw_amount: u64,
) -> (r: WithdrawType)
    requires
        withdraw_amount <= source_amount,
    ensures
        r == spec_classify(
            ledger_owner,
            requesting_principal,
            final_balance,
            source_amount,
            withdraw_amount,
        ),
        (r is OwnerBurn || r is NonOwnerBurn) <==> spec_needs_escalation(
            final_balance,
            source_amount,
            withdraw_amount,
        ),
{
    let needs_escalation: bool = final_balance < source_amount - withdraw_amount;
    if requesting_principal == ledger_owner {
        if needs_escalation {
            WithdrawType::OwnerBurn
        } else {
            WithdrawType::Owner
        }
    } else {
        if needs_escalation {
            WithdrawType::NonOwnerBurn
        } else {
            WithdrawType::NonOwner
        }
    }
}

/// A fresh holding account as the provisioner would create it: the
/// requested authority marker and asset type, holding nothing yet.
pub open spec fn spec_fresh_account(authority: u64, asset: u64) -> HoldingAccount {
    HoldingAccount { authority, asset, amount: 0 }
}

/// The account itself when it exists, and a freshly provisioned one
/// otherwise.
pub open spec fn spec_ensure_account(
    account: Option<HoldingAccount>,
    authority: u64,
    asset: u64,
) -> HoldingAccount {
    match account {
        Some(a) => a,
        None => spec_fresh_account(authority, asset),
    }
}

/// What the transfer executor does when asked to move `amount` between
/// two accounts: it succeeds exactly when the accounts hold the same
/// asset, the source covers the amount, and the destination's balance
/// does not overflow; otherwise it reports failure and moves nothing.
pub open spec fn spec_transfer(
    source: HoldingAccount,
    destination: HoldingAccount,
    amount: u64,
) -> Option<(HoldingAccount, HoldingAccount)> {
    if source.asset == destination.asset && source.amount >= amount && destination.amount
        + amount <= u64::MAX {
        Some(
            (
                HoldingAccount {
                    authority: source.authority,
                    asset: source.asset,
                    amount: (source.amount - amount) as u64,
                },
                HoldingAccount {
                    authority: destination.authority,
                    asset: destination.asset,
                    amount: (destination.amount + amount) as u64,
                },
            ),
        )
    } else {
        None
    }
}

/// Applies one transfer to plain account state, mirroring
/// [`spec_transfer`]; `None` means the executor would have failed.
pub fn transfer_between(
    source: HoldingAccount,
    destination: HoldingAccount,
    amount: u64,
) -> (r: Option<(HoldingAccount, HoldingAccount)>)
    ensures
        r == spec_transfer(source, destination, amount),
{
    if source.asset == destination.asset && source.amount >= amount && amount <= u64::MAX
        - destination.amount {
        Some(
            (
                HoldingAccount {
                    authority: source.authority,
                    asset: source.asset,
                    amount: source.amount - amount,
                },
                HoldingAccount {
                    authority: destination.authority,
                    asset: destination.asset,
                    amount: destination.amount + amount,
                },
            ),
        )
    } else {
        None
    }
}

/// Outcome of one deposit: the result code together with the ledger and
/// account state after the operation. Errors leave both unchanged.
///
/// In order: the optimistic-concurrency guard on the entry, provisioning
/// and validation of the chosen destination, the transfer of the
/// deposited amount, and, when routing to escalation, the sweep that
/// empties and closes the primary holding account.
pub open spec fn spec_deposit(
    l: LockerV,
    cfg: Config,
    a: CustodyAccounts,
    asset: u64,
    deposit_amount: u64,
    expected_prior_balance: u64,
    route_to_escalation: bool,
) -> (Result<(), ErrorCode>, LockerV, CustodyAccounts) {
    if l.tracks(asset) && l.balance_of(asset) != expected_prior_balance {
        (Err(ErrorCode::PriorBalanceMismatch), l, a)
    } else if !l.tracks(asset) && expected_prior_balance != 0 {
        (Err(ErrorCode::InvalidPriorState), l, a)
    } else {
        let dest_authority = if route_to_escalation {
            cfg.admin
        } else {
            l.owner
        };
        let dest0 = if route_to_escalation {
            spec_ensure_account(a.burn, cfg.admin, asset)
        } else {
            spec_ensure_account(a.vault, l.owner, asset)
        };
        if !(dest0.authority == dest_authority && dest0.asset == asset) {
            (Err(ErrorCode::InvalidDestination), l, a)
        } else {
            let prior: int = if l.tracks(asset) {
                l.balance_of(asset) as int
            } else {
                0
            };
            if prior + deposit_amount > u64::MAX {
                (Err(ErrorCode::TransferFailed), l, a)
            } else {
                match a.user {
                    None => (Err(ErrorCode::TransferFailed), l, a),
                    Some(user0) => match spec_transfer(user0, dest0, deposit_amount) {
                        None => (Err(ErrorCode::TransferFailed), l, a),
                        Some((user1, dest1)) => {
                            let l1 = if l.tracks(asset) {
                                l.with_balance(asset, (prior + deposit_amount) as u64)
                            } else if deposit_amount > 0 {
                                l.with_entry_added(asset, deposit_amount)
                            } else {
                                l
                            };
                            if route_to_escalation {
                                match a.vault {
                                    Some(v) => if v.amount > 0 {
                                        match spec_transfer(v, dest1, v.amount) {
                                            None => (Err(ErrorCode::TransferFailed), l, a),
                                            Some((_, dest2)) => (
                                                Ok(()),
                                                l1,
                                                CustodyAccounts {
                                                    vault: None,
                                                    burn: Some(dest2),
                                                    user: Some(user1),
                                                },
                                            ),
                                        }
                                    } else {
                                        (
                                            Ok(()),
                                            l1,
                                            CustodyAccounts {
                                                vault: a.vault,
                                                burn: Some(dest1),
                                                user: Some(user1),
                                            },
                                        )
                                    },
                                    None => (
                                        Ok(()),
                                        l1,
                                        CustodyAccounts {
                                            vault: None,
                                            burn: Some(dest1),
                                            user: Some(user1),
                                        },
                                    ),
                                }
                            } else {
                                (
                                    Ok(()),
                                    l1,
                                    CustodyAccounts {
                                        vault: Some(dest1),
                                        burn: a.burn,
                                        user: Some(user1),
                                    },
                                )
                            }
                        },
                    },
                }
            }
        }
    }
}

/// Applies one deposit against the ledger and the custodial accounts it
/// touches.
///
/// The caller states the balance it expects the entry to hold
/// (`expected_prior_balance`, zero for an untracked asset); a stale
/// expectation is rejected, which makes racing or replayed deposits
/// fail instead of stacking. `route_to_escalation` picks the
/// administrator's escalation account over the owner's primary holding
/// account as the destination, and sweeps any leftover primary balance
/// into it. The exact outcome is [`spec_deposit`]; on any error the
/// ledger and the accounts are left unchanged.
pub fn perform_deposit_v2(
    locker: &mut Locker,
    config: &Config,
    accounts: &mut CustodyAccounts,
    asset: u64,
    deposit_amount: u64,
    expected_prior_balance: u64,
    route_to_escalation: bool,
) -> (r: Result<(), ErrorCode>)
    requires
        old(locker)@.wf(),
    ensures
        final(locker)@.wf(),
        (r, final(locker)@, *final(accounts)) == spec_deposit(
            old(locker)@,
            *config,
            *old(accounts),
            asset,
            deposit_amount,
            expected_prior_balance,
            route_to_escalation,
        ),
        r is Err ==> final(locker)@ == old(locker)@ && *final(accounts) == *old(accounts),
        final(locker)@.owner == old(locker)@.owner,
        final(locker)@.space == old(locker)@.space,
{
    let idx_opt = locker.find(asset);
    let prior: u64 = match idx_opt {
        Some(i) => {
            let b = balance_at(locker, i);
            if b != expected_prior_balance {
                return Err(ErrorCode::PriorBalanceMismatch);
            }
            b
        }
        None => {
            if expected_prior_balance != 0 {
                return Err(ErrorCode::InvalidPriorState);
            }
            0
        }
    };
    let dest_authority: u64 = if route_to_escalation {
        config.admin
    } else {
        locker.owner
    };
    let dest0: HoldingAccount = if route_to_escalation {
        match accounts.burn {
            Some(b) => b,
            None => HoldingAccount { authority: config.admin, asset, amount: 0 },
        }
    } else {
        match accounts.vault {
            Some(v) => v,
            None => HoldingAccount { authority: locker.owner, asset, amount: 0 },
        }
    };
    if !(dest0.authority == dest_authority && dest0.asset == asset) {
        return Err(ErrorCode::InvalidDestination);
    }
    if deposit_amount > u64::MAX - prior {
        return Err(ErrorCode::TransferFailed);
    }
    let new_balance: u64 = prior + deposit_amount;
    let user0: HoldingAccount = match accounts.user {
        Some(u) => u,
        None => {
            return Err(ErrorCode::TransferFailed);
        }
    };
    let (user1, dest1): (HoldingAccount, HoldingAccount) = match transfer_between(
        user0,
        dest0,
        deposit_amount,
    ) {
        Some(p) => p,
        None => {
            return Err(ErrorCode::TransferFailed);
        }
    };
    let committed: CustodyAccounts = if route_to_escalation {
        match accounts.vault {
            Some(v) => {
                if v.amount > 0 {
                    match transfer_between(v, dest1, v.amount) {
                        Some((_, dest2)) => CustodyAccounts {
                            vault: None,
                            burn: Some(dest2),
                            user: Some(user1),
                        },
                        None => {
                            return Err(ErrorCode::TransferFailed);
                        }
                    }
                } else {
                    CustodyAccounts { vault: accounts.vault, burn: Some(dest1), user: Some(user1) }
                }
            }
            None => CustodyAccounts { vault: None, burn: Some(dest1), user: Some(user1) },
        }
    } else {
        CustodyAccounts { vault: Some(dest1), burn: accounts.burn, user: Some(user1) }
    };
    match idx_opt {
        Some(_) => {
            locker.upsert(asset, new_balance);
        }
        None => {
            if deposit_amount > 0 {
                locker.upsert(asset, new_balance);
            }
        }
    }
    *accounts = committed;
    Ok(())
}

/// The optimistic-concurrency guard is effective: once a deposit of a
/// positive amount has been applied, replaying a deposit that carries
/// the same expected prior balance is rejected with
/// `PriorBalanceMismatch`, whatever amount, accounts, configuration or
/// routing the replay carries.
pub proof fn lemma_replayed_deposit_rejected(
    l: LockerV,
    cfg: Config,
    a: CustodyAccounts,
    asset: u64,
    deposit_amount: u64,
    expected_prior_balance: u64,
    route_to_escalation: bool,
    cfg2: Config,
    a2: CustodyAccounts,
    deposit_amount2: u64,
    route_to_escalation2: bool,
)
    requires
        l.wf(),
        deposit_amount > 0,
        spec_deposit(
            l,
            cfg,
            a,
            asset,
            deposit_amount,
            expected_prior_balance,
            route_to_escalation,
        ).0 is Ok,
    ensures
        spec_deposit(
            spec_deposit(
                l,
                cfg,
                a,
                asset,
                deposit_amount,
                expected_prior_balance,
                route_to_escalation,
            ).1,
            cfg2,
            a2,
            asset,
            deposit_amount2,
            expected_prior_balance,
            route_to_escalation2,
        ).0 == Err::<(), ErrorCode>(ErrorCode::PriorBalanceMismatch),
{
    let l1 = spec_deposit(
        l,
        cfg,
        a,
        asset,
        deposit_amount,
        expected_prior_balance,
        route_to_escalation,
    ).1;
    if l.tracks(asset) {
        crate::state::lemma_asset_index_valid(l, asset);
        assert(l1.mints == l.mints);
        assert(l1.tracks(asset));
        assert(l1.balance_of(asset) == expected_prior_balance + deposit_amount);
    } else {
        let len = l.mints.len() as int;
        assert(l1.mints == l.mints.push(asset));
        assert(l1.mints[len] == asset);
        assert(l1.tracks(asset));
        assert forall|i: int, j: int|
            0 <= i < j < l1.mints.len() implies l1.mints[i] != l1.mints[j] by {
            if j == len {
                assert(l1.mints[i] == l.mints[i]);
                assert(!l.mints.contains(asset));
            } else {
                assert(l1.mints[i] == l.mints[i]);
                assert(l1.mints[j] == l.mints[j]);
            }
        }
        assert forall|i: int| 0 <= i < l1.amounts.len() implies l1.amounts[i] > 0 by {
            if i < len {
                assert(l1.amounts[i] == l.amounts[i]);
            }
        }
        assert(l1.wf());
        crate::state::lemma_asset_index_unique(l1, asset, len);
        assert(l1.balance_of(asset) == deposit_amount);
        assert(expected_prior_balance == 0);
    }
}

/// The entry update a withdrawal makes under its optimistic-concurrency
/// guard: the entry must hold exactly the expected balance (an untracked
/// asset counts as zero), and it is then set to the caller's declared
/// final balance, or removed when that is zero. Only escalation-sourced
/// withdrawals may create an entry for an asset the ledger does not
/// track yet.
pub open spec fn spec_withdraw_entry(
    l: LockerV,
    asset: u64,
    expected_prior_balance: u64,
    final_balance: u64,
    vault_is_escalation: bool,
) -> Result<LockerV, ErrorCode> {
    if l.tracks(asset) {
        if l.balance_of(asset) != expected_prior_balance {
            Err(ErrorCode::PriorBalanceMismatch)
        } else if final_balance > 0 {
            Ok(l.with_balance(asset, final_balance))
        } else {
            Ok(l.with_entry_removed(asset))
        }
    } else {
        if expected_prior_balance != 0 {
            Err(ErrorCode::PriorBalanceMismatch)
        } else if !vault_is_escalation {
            Err(ErrorCode::WithdrawForUntrackedAsset)
        } else if final_balance > 0 {
            Ok(l.with_entry_added(asset, final_balance))
        } else {
            Ok(l)
        }
    }
}

/// Outcome of one withdrawal: the result code together with the ledger
/// and account state after the operation. Errors leave both unchanged.
///
/// In order: the funds check against the source, the guarded entry
/// update, the router classification, provisioning and validation of
/// the requester's destination account, the payout transfer, the
/// escalation sweep for the burn classifications, and the closure of a
/// drained primary holding account.
pub open spec fn spec_withdraw(
    l: LockerV,
    cfg: Config,
    a: CustodyAccounts,
    asset: u64,
    withdraw_amount: u64,
    expected_prior_balance: u64,
    final_balance: u64,
    principal: u64,
    vault_is_escalation: bool,
) -> (Result<(), ErrorCode>, LockerV, CustodyAccounts) {
    let source0 = if vault_is_escalation {
        a.burn
    } else {
        a.vault
    };
    let source_amount = match source0 {
        Some(s) => s.amount,
        None => 0u64,
    };
    if source_amount < withdraw_amount {
        (Err(ErrorCode::InsufficientFunds), l, a)
    } else {
        match spec_withdraw_entry(l, asset, expected_prior_balance, final_balance, vault_is_escalation) {
            Err(e) => (Err(e), l, a),
            Ok(l1) => {
                let wt = spec_classify(
                    l.owner,
                    principal,
                    final_balance,
                    source_amount,
                    withdraw_amount,
                );
                let user0 = spec_ensure_account(a.user, principal, asset);
                if !(user0.authority == principal && user0.asset == asset) {
                    (Err(ErrorCode::InvalidVault), l, a)
                } else {
                    let moved = if withdraw_amount > 0 {
                        match source0 {
                            Some(s) => spec_transfer(s, user0, withdraw_amount),
                            None => None,
                        }
                    } else {
                        Some((spec_fresh_account(0, 0), user0))
                    };
                    let source1 = if withdraw_amount > 0 {
                        match moved {
                            Some((s1, _)) => Some(s1),
                            None => None,
                        }
                    } else {
                        source0
                    };
                    match moved {
                        None => (Err(ErrorCode::TransferFailed), l, a),
                        Some((_, user1)) => {
                            let vault1 = if vault_is_escalation {
                                a.vault
                            } else {
                                source1
                            };
                            let burn1 = if vault_is_escalation {
                                source1
                            } else {
                                a.burn
                            };
                            if (wt is OwnerBurn || wt is NonOwnerBurn) && !vault_is_escalation {
                                let b0 = spec_ensure_account(burn1, cfg.admin, asset);
                                if !(b0.authority == cfg.admin && b0.asset == asset) {
                                    (Err(ErrorCode::InvalidVault), l, a)
                                } else {
                                    let sweep_amount = (source_amount - final_balance) as u64;
                                    match vault1 {
                                        None => (Err(ErrorCode::TransferFailed), l, a),
                                        Some(v1) => match spec_transfer(v1, b0, sweep_amount) {
                                            None => (Err(ErrorCode::TransferFailed), l, a),
                                            Some((v2, b2)) => (
                                                Ok(()),
                                                l1,
                                                CustodyAccounts {
                                                    vault: if v2.amount == 0 {
                                                        None
                                                    } else {
                                                        Some(v2)
                                                    },
                                                    burn: Some(b2),
                                                    user: Some(user1),
                                                },
                                            ),
                                        },
                                    }
                                }
                            } else {
                                let vault2 = if vault_is_escalation {
                                    vault1
                                } else {
                                    match vault1 {
                                        Some(v) => if v.amount == 0 {
                                            None
                                        } else {
                                            Some(v)
                                        },
                                        None => None,
                                    }
                                };
                                (
                                    Ok(()),
                                    l1,
                                    CustodyAccounts { vault: vault2, burn: burn1, user: Some(user1) },
                                )
                            }
                        },
                    }
                }
            },
        }
    }
}

/// Applies one withdrawal against the ledger and the custodial accounts
/// it touches.
///
/// The source is the escalation account when `vault_is_escalation`
/// holds and the owner's primary holding account otherwise. The caller
/// states the entry balance it expects and the balance that must remain
/// (`final_balance`); the router classifies the request from those and
/// the source's holdings, and the burn classifications additionally
/// sweep the undeclared residue of the primary account into escalation.
/// A primary source drained to zero is closed. The exact outcome is
/// [`spec_withdraw`]; on any error the ledger and the accounts are left
/// unchanged.
#[verifier::rlimit(60)]
pub fn perform_withdraw_v2(
    locker: &mut Locker,
    config: &Config,
    accounts: &mut CustodyAccounts,
    asset: u64,
    withdraw_amount: u64,
    expected_prior_balance: u64,
    final_balance: u64,
    principal: u64,
    vault_is_escalation: bool,
) -> (r: Result<(), ErrorCode>)
    requires
        old(locker)@.wf(),
    ensures
        final(locker)@.wf(),
        (r, final(locker)@, *final(accounts)) == spec_withdraw(
            old(locker)@,
            *config,
            *old(accounts),
            asset,
            withdraw_amount,
            expected_prior_balance,
            final_balance,
            principal,
            vault_is_escalation,
        ),
        r is Err ==> final(locker)@ == old(locker)@ && *final(accounts) == *old(accounts),
        final(locker)@.owner == old(locker)@.owner,
        final(locker)@.space == old(locker)@.space,
{
    let source0: Option<HoldingAccount> = if vault_is_escalation {
        accounts.burn
    } else {
        accounts.vault
    };
    let source_amount: u64 = match source0 {
        Some(s) => s.amount,
        None => 0,
    };
    if source_amount < withdraw_amount {
        return Err(ErrorCode::InsufficientFunds);
    }
    let idx_opt = locker.find(asset);
    match idx_opt {
        Some(i) => {
            let b = balance_at(locker, i);
            if b != expected_prior_balance {
                return Err(ErrorCode::PriorBalanceMismatch);
            }
        }
        None => {
            if expected_prior_balance != 0 {
                return Err(ErrorCode::PriorBalanceMismatch);
            }
            if !vault_is_escalation {
                return Err(ErrorCode::WithdrawForUntrackedAsset);
            }
        }
    }
    let wt = classify_withdrawal(
        locker.owner,
        principal,
        final_balance,
        source_amount,
        withdraw_amount,
    );
    let user0: HoldingAccount = match accounts.user {
        Some(u) => u,
        None => HoldingAccount { authority: principal, asset, amount: 0 },
    };
    if !(user0.authority == principal && user0.asset == asset) {
        return Err(ErrorCode::InvalidVault);
    }
    let (source1, user1): (Option<HoldingAccount>, HoldingAccount) = if withdraw_amount > 0 {
        match source0 {
            Some(s) => match transfer_between(s, user0, withdraw_amount) {
                Some((s1, u1)) => (Some(s1), u1),
                None => {
                    return Err(ErrorCode::TransferFailed);
                }
            },
            None => {
                return Err(ErrorCode::TransferFailed);
            }
        }
    } else {
        (source0, user0)
    };
    let vault1: Option<HoldingAccount> = if vault_is_escalation {
        accounts.vault
    } else {
        source1
    };
    let burn1: Option<HoldingAccount> = if vault_is_escalation {
        source1
    } else {
        accounts.burn
    };
    let escalates: bool = match wt {
        WithdrawType::OwnerBurn | WithdrawType::NonOwnerBurn => true,
        WithdrawType::Owner | WithdrawType::NonOwner => false,
    };
    let committed: CustodyAccounts = if escalates && !vault_is_escalation {
        let b0: HoldingAccount = match burn1 {
            Some(b) => b,
            None => HoldingAccount { authority: config.admin, asset, amount: 0 },
        };
        if !(b0.authority == config.admin && b0.asset == asset) {
            return Err(ErrorCode::InvalidVault);
        }
        assert(final_balance < source_amount);
        let sweep_amount: u64 = source_amount - final_balance;
        let v1: HoldingAccount = match vault1 {
            Some(v) => v,
            None => {
                return Err(ErrorCode::TransferFailed);
            }
        };
        match transfer_between(v1, b0, sweep_amount) {
            Some((v2, b2)) => CustodyAccounts {
                vault: if v2.amount == 0 {
                    None
                } else {
                    Some(v2)
                },
                burn: Some(b2),
                user: Some(user1),
            },
            None => {
                return Err(ErrorCode::TransferFailed);
            }
        }
    } else {
        let vault2: Option<HoldingAccount> = if vault_is_escalation {
            vault1
        } else {
            match vault1 {
                Some(v) => {
                    if v.amount == 0 {
                        None
                    } else {
                        Some(v)
                    }
                }
                None => None,
            }
        };
        CustodyAccounts { vault: vault2, burn: burn1, user: Some(user1) }
    };
    match idx_opt {
        Some(_) => {
            if final_balance > 0 {
                locker.upsert(asset, final_balance);
            } else {
                locker.remove(asset);
            }
        }
        None => {
            if final_balance > 0 {
                locker.upsert(asset, final_balance);
            }
        }
    }
    *accounts = committed;
    Ok(())
}

/// Reads the balance column at a position `find` produced.
fn balance_at(locker: &Locker, i: usize) -> (r: u64)
    requires
        i < locker.amounts.len(),
    ensures
        r == locker@.amounts[i as int],
{
    locker.amounts[i]
}

} // verus!
