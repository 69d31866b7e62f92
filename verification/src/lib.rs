//! A custodial asset ledger with optimistic-concurrency guards.
//!
//! For each owner, a [`state::Locker`] tracks how much value of each asset
//! type is held in custody, together with a monotonically increasing
//! sequence number that guards batches against replay. Deposits and
//! withdrawals carry the balance the caller expects to find, so stale or
//! reordered requests are rejected instead of silently applied. The token
//! movements themselves (account creation, transfer, closure) are the job
//! of an external executor; this crate decides when they must happen and
//! models their effect on plain account state.

pub mod batch;
pub mod state;
pub mod utils;

use vstd::prelude::*;

verus! {

use crate::batch::{decode_batch_resources, layout_wf, spec_items, BatchItem, ResourceSlot};
use crate::state::{Config, CustodyAccounts, ErrorCode, Locker, LockerV};
use crate::utils::{perform_deposit_v2, perform_withdraw_v2, spec_deposit, spec_withdraw};

/// Creates the global configuration with the given administrator and the
/// freeze gate released.
pub fn init_config(admin: u64) -> (r: Config)
    ensures
        r.admin == admin,
        !r.is_frozen,
{
    Config { admin, is_frozen: false }
}

/// Creates an empty ledger for `owner`: no entries, sequence number zero.
pub fn init_locker_v2(owner: u64) -> (r: Locker)
    ensures
        r@.wf(),
        r@.owner == owner,
        r@.mints.len() == 0,
        r@.amounts.len() == 0,
        r@.space == 0,
{
    Locker { owner, mints: Vec::new(), amounts: Vec::new(), version: 0, space: 0 }
}

/// Advances the replay-guard sequence number by one, provided the
/// caller knows its current value; a stale caller is rejected and the
/// ledger is left as it is.
pub fn inc_nonce(locker: &mut Locker, nonce: u64) -> (r: Result<(), ErrorCode>)
    requires
        old(locker)@.wf(),
        old(locker)@.space < u64::MAX,
    ensures
        final(locker)@.wf(),
        old(locker)@.space == nonce ==> r is Ok && final(locker)@ == old(locker)@.with_space(
            (old(locker)@.space + 1) as u64,
        ),
        old(locker)@.space != nonce ==> r == Err::<(), ErrorCode>(ErrorCode::SequenceMismatch)
            && final(locker)@ == old(locker)@,
{
    if locker.space != nonce {
        return Err(ErrorCode::SequenceMismatch);
    }
    locker.space = locker.space + 1;
    Ok(())
}

/// Sequential application of decoded deposit items: the first failing
/// item's error is the batch's, and a success carries the final ledger
/// together with each item's resulting account states, in item order.
pub open spec fn spec_deposit_items(
    l: LockerV,
    cfg: Config,
    items: Seq<BatchItem>,
    deposit_amounts: Seq<u64>,
    expected_prior_balances: Seq<u64>,
    route_to_escalation: bool,
) -> Result<(LockerV, Seq<CustodyAccounts>), ErrorCode>
    decreases items.len(),
{
    if items.len() == 0 {
        Ok((l, Seq::empty()))
    } else {
        let step = spec_deposit(
            l,
            cfg,
            items[0].accounts,
            items[0].asset,
            deposit_amounts[0],
            expected_prior_balances[0],
            route_to_escalation,
        );
        match step.0 {
            Err(e) => Err(e),
            Ok(_) => match spec_deposit_items(
                step.1,
                cfg,
                items.drop_first(),
                deposit_amounts.drop_first(),
                expected_prior_balances.drop_first(),
                route_to_escalation,
            ) {
                Err(e) => Err(e),
                Ok(rest) => Ok((rest.0, seq![step.2] + rest.1)),
            },
        }
    }
}

/// A successful run of deposit items never touches the owner or the
/// sequence number, and yields one account state per item.
pub proof fn lemma_deposit_items_stable(
    l: LockerV,
    cfg: Config,
    items: Seq<BatchItem>,
    deposit_amounts: Seq<u64>,
    expected_prior_balances: Seq<u64>,
    route_to_escalation: bool,
)
    ensures
        spec_deposit_items(
            l,
            cfg,
            items,
            deposit_amounts,
            expected_prior_balances,
            route_to_escalation,
        ) matches Ok(p) ==> p.0.space == l.space && p.0.owner == l.owner && p.1.len()
            == items.len(),
    decreases items.len(),
{
    if items.len() > 0 {
        let step = spec_deposit(
            l,
            cfg,
            items[0].accounts,
            items[0].asset,
            deposit_amounts[0],
            expected_prior_balances[0],
            route_to_escalation,
        );
        if step.0 is Ok {
            lemma_deposit_items_stable(
                step.1,
                cfg,
                items.drop_first(),
                deposit_amounts.drop_first(),
                expected_prior_balances.drop_first(),
                route_to_escalation,
            );
        }
    }
}

/// Outcome of a whole deposit batch: the replay guard, the per-item
/// array agreement, the resource-list decode, and then the items in
/// order, all-or-nothing.
pub open spec fn spec_deposit_batch(
    l: LockerV,
    cfg: Config,
    resources: Seq<ResourceSlot>,
    deposit_amounts: Seq<u64>,
    expected_prior_balances: Seq<u64>,
    route_to_escalation: bool,
    extended_count: int,
    nonce: u64,
) -> Result<(LockerV, Seq<CustodyAccounts>), ErrorCode> {
    if l.space != nonce {
        Err(ErrorCode::SequenceMismatch)
    } else if expected_prior_balances.len() != deposit_amounts.len() {
        Err(ErrorCode::MalformedBatchLayout)
    } else if !layout_wf(resources, deposit_amounts.len() as int, extended_count) {
        Err(ErrorCode::MalformedBatchLayout)
    } else {
        spec_deposit_items(
            l.with_space((l.space + 1) as u64),
            cfg,
            spec_items(resources, deposit_amounts.len() as int, extended_count),
            deposit_amounts,
            expected_prior_balances,
            route_to_escalation,
        )
    }
}

/// Applies a batch of deposits as one atomic request.
///
/// The batch is accepted only when `nonce` equals the ledger's current
/// sequence number, which then advances by exactly one for the whole
/// batch; resubmitting the batch afterwards is rejected. Each decoded
/// item carries its own amount and expected prior balance and is
/// deposited as by [`perform_deposit_v2`]; the first failing item
/// aborts the batch and leaves the ledger unchanged. On success the
/// returned vector holds each item's resulting account states, in item
/// order.
pub fn deposit_batch(
    locker: &mut Locker,
    config: &Config,
    resources: &Vec<ResourceSlot>,
    deposit_amounts: &Vec<u64>,
    expected_prior_balances: &Vec<u64>,
    route_to_escalation: bool,
    extended_count: usize,
    nonce: u64,
) -> (r: Result<Vec<CustodyAccounts>, ErrorCode>)
    requires
        old(locker)@.wf(),
        old(locker)@.space < u64::MAX,
    ensures
        final(locker)@.wf(),
        final(locker)@.owner == old(locker)@.owner,
        match spec_deposit_batch(
            old(locker)@,
            *config,
            resources@,
            deposit_amounts@,
            expected_prior_balances@,
            route_to_escalation,
            extended_count as int,
            nonce,
        ) {
            Ok(p) => r matches Ok(out) && final(locker)@ == p.0 && out@ == p.1,
            Err(e) => r == Err::<Vec<CustodyAccounts>, ErrorCode>(e) && final(locker)@ == old(
                locker,
            )@,
        },
        r is Ok ==> final(locker)@.space == old(locker)@.space + 1,
        r is Err ==> final(locker)@ == old(locker)@,
{
    if locker.space != nonce {
        return Err(ErrorCode::SequenceMismatch);
    }
    if expected_prior_balances.len() != deposit_amounts.len() {
        return Err(ErrorCode::MalformedBatchLayout);
    }
    let n: usize = deposit_amounts.len();
    let items: Vec<BatchItem> = match decode_batch_resources(resources, n, extended_count) {
        Ok(it) => it,
        Err(e) => {
            return Err(e);
        }
    };
    let snapshot: Locker = duplicate_locker(locker);
    locker.space = locker.space + 1;
    let ghost l_start: LockerV = locker@;
    assert(l_start == old(locker)@.with_space((old(locker)@.space + 1) as u64));
    let mut outs: Vec<CustodyAccounts> = Vec::new();
    let mut i: usize = 0;
    proof {
        assert(items@.skip(0) =~= items@);
        assert(deposit_amounts@.skip(0) =~= deposit_amounts@);
        assert(expected_prior_balances@.skip(0) =~= expected_prior_balances@);
        let full = spec_deposit_items(
            l_start,
            *config,
            items@,
            deposit_amounts@,
            expected_prior_balances@,
            route_to_escalation,
        );
        match full {
            Ok(p) => {
                assert(Seq::<CustodyAccounts>::empty() + p.1 =~= p.1);
            }
            Err(_) => {}
        }
    }
    while i < n
        invariant
            locker@.wf(),
            i <= n,
            n == deposit_amounts@.len(),
            expected_prior_balances@.len() == n,
            items@.len() == n,
            outs@.len() == i as int,
            snapshot@ == old(locker)@,
            old(locker)@.wf(),
            old(locker)@.space < u64::MAX,
            old(locker)@.space == nonce,
            layout_wf(resources@, n as int, extended_count as int),
            items@ == spec_items(resources@, n as int, extended_count as int),
            l_start == old(locker)@.with_space((old(locker)@.space + 1) as u64),
            ({
                let full = spec_deposit_items(
                    l_start,
                    *config,
                    items@,
                    deposit_amounts@,
                    expected_prior_balances@,
                    route_to_escalation,
                );
                let rest = spec_deposit_items(
                    locker@,
                    *config,
                    items@.skip(i as int),
                    deposit_amounts@.skip(i as int),
                    expected_prior_balances@.skip(i as int),
                    route_to_escalation,
                );
                full == match rest {
                    Ok(p) => Ok::<(LockerV, Seq<CustodyAccounts>), ErrorCode>(
                        (p.0, outs@ + p.1),
                    ),
                    Err(e) => Err(e),
                }
            }),
        decreases n - i,
    {
        let ghost ii = i as int;
        let ghost pre = locker@;
        let ghost outs_old = outs@;
        let it: BatchItem = items[i];
        let mut acc: CustodyAccounts = it.accounts;
        let r0 = perform_deposit_v2(
            locker,
            config,
            &mut acc,
            it.asset,
            deposit_amounts[i],
            expected_prior_balances[i],
            route_to_escalation,
        );
        proof {
            assert(items@.skip(ii)[0] == items@[ii]);
            assert(deposit_amounts@.skip(ii)[0] == deposit_amounts@[ii]);
            assert(expected_prior_balances@.skip(ii)[0] == expected_prior_balances@[ii]);
            assert(items@.skip(ii).drop_first() =~= items@.skip(ii + 1));
            assert(deposit_amounts@.skip(ii).drop_first() =~= deposit_amounts@.skip(ii + 1));
            assert(expected_prior_balances@.skip(ii).drop_first() =~= expected_prior_balances@.skip(
                ii + 1,
            ));
        }
        match r0 {
            Ok(_) => {
                outs.push(acc);
                proof {
                    let step = spec_deposit(
                        pre,
                        *config,
                        items@[ii].accounts,
                        items@[ii].asset,
                        deposit_amounts@[ii],
                        expected_prior_balances@[ii],
                        route_to_escalation,
                    );
                    assert(step.0 == Ok::<(), ErrorCode>(()));
                    assert(step.1 == locker@);
                    assert(step.2 == acc);
                    assert(outs@ =~= outs_old + seq![acc]);
                    let rest_new = spec_deposit_items(
                        locker@,
                        *config,
                        items@.skip(ii + 1),
                        deposit_amounts@.skip(ii + 1),
                        expected_prior_balances@.skip(ii + 1),
                        route_to_escalation,
                    );
                    match rest_new {
                        Ok(p) => {
                            assert((outs_old + seq![acc]) + p.1 =~= outs_old + (seq![acc] + p.1));
                        }
                        Err(_) => {}
                    }
                }
            }
            Err(e) => {
                *locker = snapshot;
                return Err(e);
            }
        }
        i += 1;
    }
    proof {
        assert(items@.skip(n as int) =~= Seq::<BatchItem>::empty());
        assert(outs@ + Seq::<CustodyAccounts>::empty() =~= outs@);
        lemma_deposit_items_stable(
            l_start,
            *config,
            items@,
            deposit_amounts@,
            expected_prior_balances@,
            route_to_escalation,
        );
    }
    Ok(outs)
}

/// Sequential application of decoded withdrawal items: the first
/// failing item's error is the batch's, and a success carries the final
/// ledger together with each item's resulting account states, in item
/// order.
pub open spec fn spec_withdraw_items(
    l: LockerV,
    cfg: Config,
    items: Seq<BatchItem>,
    withdraw_amounts: Seq<u64>,
    expected_prior_balances: Seq<u64>,
    final_balances: Seq<u64>,
    principal: u64,
    vault_is_escalation: bool,
) -> Result<(LockerV, Seq<CustodyAccounts>), ErrorCode>
    decreases items.len(),
{
    if items.len() == 0 {
        Ok((l, Seq::empty()))
    } else {
        let step = spec_withdraw(
            l,
            cfg,
            items[0].accounts,
            items[0].asset,
            withdraw_amounts[0],
            expected_prior_balances[0],
            final_balances[0],
            principal,
            vault_is_escalation,
        );
        match step.0 {
            Err(e) => Err(e),
            Ok(_) => match spec_withdraw_items(
                step.1,
                cfg,
                items.drop_first(),
                withdraw_amounts.drop_first(),
                expected_prior_balances.drop_first(),
                final_balances.drop_first(),
                principal,
                vault_is_escalation,
            ) {
                Err(e) => Err(e),
                Ok(rest) => Ok((rest.0, seq![step.2] + rest.1)),
            },
        }
    }
}

/// A successful run of withdrawal items never touches the owner or the
/// sequence number, and yields one account state per item.
pub proof fn lemma_withdraw_items_stable(
    l: LockerV,
    cfg: Config,
    items: Seq<BatchItem>,
    withdraw_amounts: Seq<u64>,
    expected_prior_balances: Seq<u64>,
    final_balances: Seq<u64>,
    principal: u64,
    vault_is_escalation: bool,
)
    ensures
        spec_withdraw_items(
            l,
            cfg,
            items,
            withdraw_amounts,
            expected_prior_balances,
            final_balances,
            principal,
            vault_is_escalation,
        ) matches Ok(p) ==> p.0.space == l.space && p.0.owner == l.owner && p.1.len()
            == items.len(),
    decreases items.len(),
{
    if items.len() > 0 {
        let step = spec_withdraw(
            l,
            cfg,
            items[0].accounts,
            items[0].asset,
            withdraw_amounts[0],
            expected_prior_balances[0],
            final_balances[0],
            principal,
            vault_is_escalation,
        );
        if step.0 is Ok {
            lemma_withdraw_items_stable(
                step.1,
                cfg,
                items.drop_first(),
                withdraw_amounts.drop_first(),
                expected_prior_balances.drop_first(),
                final_balances.drop_first(),
                principal,
                vault_is_escalation,
            );
        }
    }
}

/// Outcome of a whole withdrawal batch: the replay guard, the per-item
/// array agreement, the resource-list decode, and then the items in
/// order, all-or-nothing.
pub open spec fn spec_withdraw_batch(
    l: LockerV,
    cfg: Config,
    resources: Seq<ResourceSlot>,
    withdraw_amounts: Seq<u64>,
    expected_prior_balances: Seq<u64>,
    final_balances: Seq<u64>,
    principal: u64,
    vault_is_escalation: bool,
    extended_count: int,
    nonce: u64,
) -> Result<(LockerV, Seq<CustodyAccounts>), ErrorCode> {
    if l.space != nonce {
        Err(ErrorCode::SequenceMismatch)
    } else if expected_prior_balances.len() != withdraw_amounts.len() || final_balances.len()
        != withdraw_amounts.len() {
        Err(ErrorCode::MalformedBatchLayout)
    } else if !layout_wf(resources, withdraw_amounts.len() as int, extended_count) {
        Err(ErrorCode::MalformedBatchLayout)
    } else {
        spec_withdraw_items(
            l.with_space((l.space + 1) as u64),
            cfg,
            spec_items(resources, withdraw_amounts.len() as int, extended_count),
            withdraw_amounts,
            expected_prior_balances,
            final_balances,
            principal,
            vault_is_escalation,
        )
    }
}

/// Applies a batch of withdrawals as one atomic request.
///
/// The batch is accepted only when `nonce` equals the ledger's current
/// sequence number, which then advances by exactly one for the whole
/// batch; resubmitting the batch afterwards is rejected. Each decoded
/// item carries its own amount, expected prior balance and declared
/// final balance, and is withdrawn as by [`perform_withdraw_v2`]; the
/// first failing item aborts the batch and leaves the ledger unchanged.
/// On success the returned vector holds each item's resulting account
/// states, in item order.
pub fn withdraw_v2_batch(
    locker: &mut Locker,
    config: &Config,
    resources: &Vec<ResourceSlot>,
    withdraw_amounts: &Vec<u64>,
    expected_prior_balances: &Vec<u64>,
    final_balances: &Vec<u64>,
    principal: u64,
    vault_is_escalation: bool,
    extended_count: usize,
    nonce: u64,
) -> (r: Result<Vec<CustodyAccounts>, ErrorCode>)
    requires
        old(locker)@.wf(),
        old(locker)@.space < u64::MAX,
    ensures
        final(locker)@.wf(),
        final(locker)@.owner == old(locker)@.owner,
        match spec_withdraw_batch(
            old(locker)@,
            *config,
            resources@,
            withdraw_amounts@,
            expected_prior_balances@,
            final_balances@,
            principal,
            vault_is_escalation,
            extended_count as int,
            nonce,
        ) {
            Ok(p) => r matches Ok(out) && final(locker)@ == p.0 && out@ == p.1,
            Err(e) => r == Err::<Vec<CustodyAccounts>, ErrorCode>(e) && final(locker)@ == old(
                locker,
            )@,
        },
        r is Ok ==> final(locker)@.space == old(locker)@.space + 1,
        r is Err ==> final(locker)@ == old(locker)@,
{
    if locker.space != nonce {
        return Err(ErrorCode::SequenceMismatch);
    }
    if expected_prior_balances.len() != withdraw_amounts.len() || final_balances.len()
        != withdraw_amounts.len() {
        return Err(ErrorCode::MalformedBatchLayout);
    }
    let n: usize = withdraw_amounts.len();
    let items: Vec<BatchItem> = match decode_batch_resources(resources, n, extended_count) {
        Ok(it) => it,
        Err(e) => {
            return Err(e);
        }
    };
    let snapshot: Locker = duplicate_locker(locker);
    locker.space = locker.space + 1;
    let ghost l_start: LockerV = locker@;
    assert(l_start == old(locker)@.with_space((old(locker)@.space + 1) as u64));
    let mut outs: Vec<CustodyAccounts> = Vec::new();
    let mut i: usize = 0;
    proof {
        assert(items@.skip(0) =~= items@);
        assert(withdraw_amounts@.skip(0) =~= withdraw_amounts@);
        assert(expected_prior_balances@.skip(0) =~= expected_prior_balances@);
        assert(final_balances@.skip(0) =~= final_balances@);
        let full = spec_withdraw_items(
            l_start,
            *config,
            items@,
            withdraw_amounts@,
            expected_prior_balances@,
            final_balances@,
            principal,
            vault_is_escalation,
        );
        match full {
            Ok(p) => {
                assert(Seq::<CustodyAccounts>::empty() + p.1 =~= p.1);
            }
            Err(_) => {}
        }
    }
    while i < n
        invariant
            locker@.wf(),
            i <= n,
            n == withdraw_amounts@.len(),
            expected_prior_balances@.len() == n,
            final_balances@.len() == n,
            items@.len() == n,
            outs@.len() == i as int,
            snapshot@ == old(locker)@,
            old(locker)@.wf(),
            old(locker)@.space < u64::MAX,
            old(locker)@.space == nonce,
            layout_wf(resources@, n as int, extended_count as int),
            items@ == spec_items(resources@, n as int, extended_count as int),
            l_start == old(locker)@.with_space((old(locker)@.space + 1) as u64),
            ({
                let full = spec_withdraw_items(
                    l_start,
                    *config,
                    items@,
                    withdraw_amounts@,
                    expected_prior_balances@,
                    final_balances@,
                    principal,
                    vault_is_escalation,
                );
                let rest = spec_withdraw_items(
                    locker@,
                    *config,
                    items@.skip(i as int),
                    withdraw_amounts@.skip(i as int),
                    expected_prior_balances@.skip(i as int),
                    final_balances@.skip(i as int),
                    principal,
                    vault_is_escalation,
                );
                full == match rest {
                    Ok(p) => Ok::<(LockerV, Seq<CustodyAccounts>), ErrorCode>(
                        (p.0, outs@ + p.1),
                    ),
                    Err(e) => Err(e),
                }
            }),
        decreases n - i,
    {
        let ghost ii = i as int;
        let ghost pre = locker@;
        let ghost outs_old = outs@;
        let it: BatchItem = items[i];
        let mut acc: CustodyAccounts = it.accounts;
        let r0 = perform_withdraw_v2(
            locker,
            config,
            &mut acc,
            it.asset,
            withdraw_amounts[i],
            expected_prior_balances[i],
            final_balances[i],
            principal,
            vault_is_escalation,
        );
        proof {
            assert(items@.skip(ii)[0] == items@[ii]);
            assert(withdraw_amounts@.skip(ii)[0] == withdraw_amounts@[ii]);
            assert(expected_prior_balances@.skip(ii)[0] == expected_prior_balances@[ii]);
            assert(final_balances@.skip(ii)[0] == final_balances@[ii]);
            assert(items@.skip(ii).drop_first() =~= items@.skip(ii + 1));
            assert(withdraw_amounts@.skip(ii).drop_first() =~= withdraw_amounts@.skip(ii + 1));
            assert(expected_prior_balances@.skip(ii).drop_first() =~= expected_prior_balances@.skip(
                ii + 1,
            ));
            assert(final_balances@.skip(ii).drop_first() =~= final_balances@.skip(ii + 1));
        }
        match r0 {
            Ok(_) => {
                outs.push(acc);
                proof {
                    let step = spec_withdraw(
                        pre,
                        *config,
                        items@[ii].accounts,
                        items@[ii].asset,
                        withdraw_amounts@[ii],
                        expected_prior_balances@[ii],
                        final_balances@[ii],
                        principal,
                        vault_is_escalation,
                    );
                    assert(step.0 == Ok::<(), ErrorCode>(()));
                    assert(step.1 == locker@);
                    assert(step.2 == acc);
                    assert(outs@ =~= outs_old + seq![acc]);
                    let rest_new = spec_withdraw_items(
                        locker@,
                        *config,
                        items@.skip(ii + 1),
                        withdraw_amounts@.skip(ii + 1),
                        expected_prior_balances@.skip(ii + 1),
                        final_balances@.skip(ii + 1),
                        principal,
                        vault_is_escalation,
                    );
                    match rest_new {
                        Ok(p) => {
                            assert((outs_old + seq![acc]) + p.1 =~= outs_old + (seq![acc] + p.1));
                        }
                        Err(_) => {}
                    }
                }
            }
            Err(e) => {
                *locker = snapshot;
                return Err(e);
            }
        }
        i += 1;
    }
    proof {
        assert(items@.skip(n as int) =~= Seq::<BatchItem>::empty());
        assert(outs@ + Seq::<CustodyAccounts>::empty() =~= outs@);
        lemma_withdraw_items_stable(
            l_start,
            *config,
            items@,
            withdraw_amounts@,
            expected_prior_balances@,
            final_balances@,
            principal,
            vault_is_escalation,
        );
    }
    Ok(outs)
}

/// The replay guard is effective: a deposit batch accepted under some
/// sequence number leaves the ledger one past it, so resubmitting any
/// deposit batch under the same number is rejected with
/// `SequenceMismatch`.
pub proof fn lemma_replayed_deposit_batch_rejected(
    l: LockerV,
    cfg: Config,
    resources: Seq<ResourceSlot>,
    deposit_amounts: Seq<u64>,
    expected_prior_balances: Seq<u64>,
    route_to_escalation: bool,
    extended_count: int,
    nonce: u64,
    cfg2: Config,
    resources2: Seq<ResourceSlot>,
    deposit_amounts2: Seq<u64>,
    expected_prior_balances2: Seq<u64>,
    route_to_escalation2: bool,
    extended_count2: int,
)
    ensures
        ({
            let first = spec_deposit_batch(
                l,
                cfg,
                resources,
                deposit_amounts,
                expected_prior_balances,
                route_to_escalation,
                extended_count,
                nonce,
            );
            first matches Ok(p) ==> spec_deposit_batch(
                p.0,
                cfg2,
                resources2,
                deposit_amounts2,
                expected_prior_balances2,
                route_to_escalation2,
                extended_count2,
                nonce,
            ) == Err::<(LockerV, Seq<CustodyAccounts>), ErrorCode>(ErrorCode::SequenceMismatch)
        }),
{
    let first = spec_deposit_batch(
        l,
        cfg,
        resources,
        deposit_amounts,
        expected_prior_balances,
        route_to_escalation,
        extended_count,
        nonce,
    );
    if first is Ok {
        assert(l.space == nonce);
        let sp = l.space;
        let advanced = (sp + 1) as u64;
        assert((sp + 1) as u64 != sp) by (bit_vector);
        assert(advanced != nonce);
        lemma_deposit_items_stable(
            l.with_space(advanced),
            cfg,
            spec_items(resources, deposit_amounts.len() as int, extended_count),
            deposit_amounts,
            expected_prior_balances,
            route_to_escalation,
        );
        match first {
            Ok(p) => {
                assert(p.0.space == advanced);
            }
            Err(_) => {}
        }
    }
}

/// The replay guard is effective for withdrawal batches in the same
/// way: a batch accepted under some sequence number leaves the ledger
/// one past it, and resubmission under that number is rejected with
/// `SequenceMismatch`.
pub proof fn lemma_replayed_withdraw_batch_rejected(
    l: LockerV,
    cfg: Config,
    resources: Seq<ResourceSlot>,
    withdraw_amounts: Seq<u64>,
    expected_prior_balances: Seq<u64>,
    final_balances: Seq<u64>,
    principal: u64,
    vault_is_escalation: bool,
    extended_count: int,
    nonce: u64,
    cfg2: Config,
    resources2: Seq<ResourceSlot>,
    withdraw_amounts2: Seq<u64>,
    expected_prior_balances2: Seq<u64>,
    final_balances2: Seq<u64>,
    principal2: u64,
    vault_is_escalation2: bool,
    extended_count2: int,
)
    ensures
        ({
            let first = spec_withdraw_batch(
                l,
                cfg,
                resources,
                withdraw_amounts,
                expected_prior_balances,
                final_balances,
                principal,
                vault_is_escalation,
                extended_count,
                nonce,
            );
            first matches Ok(p) ==> spec_withdraw_batch(
                p.0,
                cfg2,
                resources2,
                withdraw_amounts2,
                expected_prior_balances2,
                final_balances2,
                principal2,
                vault_is_escalation2,
                extended_count2,
                nonce,
            ) == Err::<(LockerV, Seq<CustodyAccounts>), ErrorCode>(ErrorCode::SequenceMismatch)
        }),
{
    let first = spec_withdraw_batch(
        l,
        cfg,
        resources,
        withdraw_amounts,
        expected_prior_balances,
        final_balances,
        principal,
        vault_is_escalation,
        extended_count,
        nonce,
    );
    if first is Ok {
        assert(l.space == nonce);
        let sp = l.space;
        let advanced = (sp + 1) as u64;
        assert((sp + 1) as u64 != sp) by (bit_vector);
        assert(advanced != nonce);
        lemma_withdraw_items_stable(
            l.with_space(advanced),
            cfg,
            spec_items(resources, withdraw_amounts.len() as int, extended_count),
            withdraw_amounts,
            expected_prior_balances,
            final_balances,
            principal,
            vault_is_escalation,
        );
        match first {
            Ok(p) => {
                assert(p.0.space == advanced);
            }
            Err(_) => {}
        }
    }
}

/// An element-for-element copy of the ledger, so a failing batch can
/// put the original back.
fn duplicate_locker(locker: &Locker) -> (r: Locker)
    ensures
        r@ == locker@,
{
    Locker {
        owner: locker.owner,
        mints: copy_u64_vec(&locker.mints),
        amounts: copy_u64_vec(&locker.amounts),
        version: locker.version,
        space: locker.space,
    }
}

fn copy_u64_vec(v: &Vec<u64>) -> (r: Vec<u64>)
    ensures
        r@ == v@,
{
    let mut r: Vec<u64> = Vec::new();
    let mut i: usize = 0;
    while i < v.len()
        invariant
            i <= v.len(),
            r@ == v@.take(i as int),
        decreases v.len() - i,
    {
        r.push(v[i]);
        proof {
            assert(r@ =~= v@.take(i as int + 1));
        }
        i += 1;
    }
    proof {
        assert(v@.take(v@.len() as int) =~= v@);
    }
    r
}

} // verus!
