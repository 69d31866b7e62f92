//! Data model: the per-owner ledger, the global configuration, the plain
//! state of custodial holding accounts, and the error and classification
//! enums shared by the deposit and withdraw engines.

use vstd::prelude::*;

verus! {

/// Global configuration: the administrator's identity and a freeze gate.
/// While `is_frozen` holds, the surrounding environment refuses every
/// ledger-mutating request before it reaches this crate.
pub struct Config {
    pub admin: u64,
    pub is_frozen: bool,
}

/// Error taxonomy. Every operation reports exactly one code, the first
/// violated contract in algorithm order; batches report the first failing
/// item's code.
#[derive(Clone, Copy, Debug, PartialEq, Eq)]
pub enum ErrorCode {
    /// A deposit found no entry for the asset, but the caller expected a
    /// nonzero prior balance.
    InvalidPriorState,
    /// The caller's expected prior balance disagrees with the entry.
    PriorBalanceMismatch,
    /// The ledger's sequence number disagrees with the caller's.
    SequenceMismatch,
    /// The withdrawal source holds less than the requested amount.
    InsufficientFunds,
    /// A deposit destination account exists with the wrong authority or
    /// asset type.
    InvalidDestination,
    /// A withdrawal destination account exists with the wrong authority
    /// or asset type.
    InvalidVault,
    /// Only escalation-account withdrawals may touch an asset the ledger
    /// does not track.
    WithdrawForUntrackedAsset,
    /// The flat resource list cannot be split into the declared chunks.
    MalformedBatchLayout,
    /// The transfer executor reported failure (missing or mismatched
    /// source account, insufficient source funds, or a destination whose
    /// balance would overflow).
    TransferFailed,
}

/// Four-way classification of a withdrawal: who asked, and whether the
/// residue left in the source must be escalated.
#[derive(Clone, Copy, Debug, PartialEq, Eq)]
pub enum WithdrawType {
    Owner,
    OwnerBurn,
    NonOwner,
    NonOwnerBurn,
}

/// Plain state of one custodial holding account: whose authority marker
/// it carries, which asset it holds, and how much.
#[derive(Clone, Copy, Debug, PartialEq, Eq)]
pub struct HoldingAccount {
    pub authority: u64,
    pub asset: u64,
    pub amount: u64,
}

/// The custodial accounts one deposit or withdrawal touches. `None`
/// means the account does not exist yet; the engines create it on demand
/// and close it when it is drained.
#[derive(Clone, Copy, Debug, PartialEq, Eq)]
pub struct CustodyAccounts {
    /// Primary holding account, keyed by (asset, ledger owner).
    pub vault: Option<HoldingAccount>,
    /// Escalation account, keyed by asset alone and controlled by the
    /// administrator; shared across owners.
    pub burn: Option<HoldingAccount>,
    /// The requesting principal's own account for the asset: the source
    /// of a deposit, the destination of a withdrawal.
    pub user: Option<HoldingAccount>,
}

/// Mathematical view of a [`Locker`].
pub struct LockerV {
    pub owner: u64,
    pub mints: Seq<u64>,
    pub amounts: Seq<u64>,
    pub version: u8,
    pub space: u64,
}

impl LockerV {
    /// Well-formedness of a ledger: the two columns have equal length,
    /// every balance is strictly positive, and no two entries share an
    /// asset type. Every constructor establishes this and every mutation
    /// preserves it.
    pub open spec fn wf(self) -> bool {
        &&& self.mints.len() == self.amounts.len()
        &&& forall|i: int| 0 <= i < self.amounts.len() ==> self.amounts[i] > 0
        &&& forall|i: int, j: int|
            0 <= i < j < self.mints.len() ==> self.mints[i] != self.mints[j]
    }

    /// Whether the ledger has an entry for `asset`.
    pub open spec fn tracks(self, asset: u64) -> bool {
        self.mints.contains(asset)
    }

    /// The index of the entry for `asset`; meaningful only when
    /// `tracks(asset)` holds, and unique when `wf()` holds.
    pub open spec fn asset_index(self, asset: u64) -> int {
        self.mints.index_of(asset)
    }

    /// The balance recorded for `asset`; meaningful only when
    /// `tracks(asset)` holds.
    pub open spec fn balance_of(self, asset: u64) -> u64 {
        self.amounts[self.asset_index(asset)]
    }

    /// The ledger with the entry for `asset` set to `balance`.
    pub open spec fn with_balance(self, asset: u64, balance: u64) -> LockerV {
        LockerV { amounts: self.amounts.update(self.asset_index(asset), balance), ..self }
    }

    /// The ledger with a fresh entry `(asset, balance)` appended.
    pub open spec fn with_entry_added(self, asset: u64, balance: u64) -> LockerV {
        LockerV {
            mints: self.mints.push(asset),
            amounts: self.amounts.push(balance),
            ..self
        }
    }

    /// The ledger with the entry for `asset` removed; the order of the
    /// remaining entries is preserved.
    pub open spec fn with_entry_removed(self, asset: u64) -> LockerV {
        LockerV {
            mints: self.mints.remove(self.asset_index(asset)),
            amounts: self.amounts.remove(self.asset_index(asset)),
            ..self
        }
    }

    /// The ledger with its sequence number set to `space`.
    pub open spec fn with_space(self, space: u64) -> LockerV {
        LockerV { space, ..self }
    }
}

/// In a well-formed ledger the entry index is pinned: any position that
/// holds `asset` is `asset_index(asset)`.
pub proof fn lemma_asset_index_unique(l: LockerV, asset: u64, i: int)
    requires
        l.wf(),
        0 <= i < l.mints.len(),
        l.mints[i] == asset,
    ensures
        l.tracks(asset),
        l.asset_index(asset) == i,
        0 <= l.asset_index(asset) < l.mints.len(),
{
    assert(l.tracks(asset));
    let k = l.asset_index(asset);
    assert(0 <= k < l.mints.len() && l.mints[k] == asset);
    if k < i {
        assert(l.mints[k] != l.mints[i]);
    } else if i < k {
        assert(l.mints[i] != l.mints[k]);
    }
}

/// In a well-formed ledger that tracks `asset`, `asset_index` is a real
/// position holding `asset`.
pub proof fn lemma_asset_index_valid(l: LockerV, asset: u64)
    requires
        l.wf(),
        l.tracks(asset),
    ensures
        0 <= l.asset_index(asset) < l.mints.len(),
        l.mints[l.asset_index(asset)] == asset,
{
    let w = choose|i: int| 0 <= i < l.mints.len() && l.mints[i] == asset;
    assert(l.mints[w] == asset);
    lemma_asset_index_unique(l, asset, w);
}

/// Per-owner ledger: parallel columns of asset types and balances, plus
/// the replay-guard sequence number `space` and an opaque storage version
/// tag for the external provisioner.
pub struct Locker {
    pub owner: u64,
    pub mints: Vec<u64>,
    pub amounts: Vec<u64>,
    pub version: u8,
    pub space: u64,
}

impl View for Locker {
    type V = LockerV;

    open spec fn view(&self) -> LockerV {
        LockerV {
            owner: self.owner,
            mints: self.mints@,
            amounts: self.amounts@,
            version: self.version,
            space: self.space,
        }
    }
}

impl Locker {
    /// Index of the entry for `asset`, if the ledger tracks it.
    pub fn find(&self, asset: u64) -> (r: Option<usize>)
        requires
            self@.wf(),
        ensures
            match r {
                Some(i) => {
                    &&& self@.tracks(asset)
                    &&& i as int == self@.asset_index(asset)
                    &&& i < self.mints.len()
                    &&& i < self.amounts.len()
                    &&& self.mints@[i as int] == asset
                },
                None => !self@.tracks(asset),
            },
    {
        let n: usize = self.mints.len();
        let mut i: usize = 0;
        while i < n
            invariant
                n == self.mints.len(),
                0 <= i <= n,
                self@.wf(),
                forall|j: int| 0 <= j < i ==> self.mints@[j] != asset,
            decreases n - i,
        {
            if self.mints[i] == asset {
                proof {
                    lemma_asset_index_unique(self@, asset, i as int);
                }
                return Some(i);
            }
            i += 1;
        }
        assert(!self@.tracks(asset));
        None
    }

    /// Sets the balance of `asset` to `new_balance` if the ledger tracks
    /// it, and appends a fresh entry otherwise. `new_balance` must be
    /// positive, or the no-zero-residue invariant would break.
    pub fn upsert(&mut self, asset: u64, new_balance: u64)
        requires
            old(self)@.wf(),
            new_balance > 0,
        ensures
            final(self)@.wf(),
            final(self)@ == if old(self)@.tracks(asset) {
                old(self)@.with_balance(asset, new_balance)
            } else {
                old(self)@.with_entry_added(asset, new_balance)
            },
    {
        match self.find(asset) {
            Some(i) => {
                self.amounts.set(i, new_balance);
                assert(self@ == old(self)@.with_balance(asset, new_balance));
            }
            None => {
                self.mints.push(asset);
                self.amounts.push(new_balance);
                assert(self@ == old(self)@.with_entry_added(asset, new_balance));
                proof {
                    let l0 = old(self)@;
                    assert forall|i: int, j: int|
                        0 <= i < j < self@.mints.len() implies self@.mints[i] != self@.mints[j] by {
                        if j == l0.mints.len() {
                            assert(self@.mints[i] == l0.mints[i]);
                        }
                    }
                }
            }
        }
    }

    /// Removes the entry for `asset` if the ledger tracks it; the other
    /// entries keep their order. Without an entry, the ledger is left as
    /// it is.
    pub fn remove(&mut self, asset: u64)
        requires
            old(self)@.wf(),
        ensures
            final(self)@.wf(),
            final(self)@ == if old(self)@.tracks(asset) {
                old(self)@.with_entry_removed(asset)
            } else {
                old(self)@
            },
    {
        match self.find(asset) {
            Some(i) => {
                self.mints.remove(i);
                self.amounts.remove(i);
                assert(self@ == old(self)@.with_entry_removed(asset));
                proof {
                    let l0 = old(self)@;
                    let k = i as int;
                    assert forall|p: int, q: int|
                        0 <= p < q < self@.mints.len() implies self@.mints[p] != self@.mints[q] by {
                        let p0 = if p < k { p } else { p + 1 };
                        let q0 = if q < k { q } else { q + 1 };
                        assert(self@.mints[p] == l0.mints[p0]);
                        assert(self@.mints[q] == l0.mints[q0]);
                    }
                    assert forall|p: int| 0 <= p < self@.amounts.len()
                        implies self@.amounts[p] > 0 by {
                        let p0 = if p < k { p } else { p + 1 };
                        assert(self@.amounts[p] == l0.amounts[p0]);
                    }
                }
            }
            None => {}
        }
    }
}

} // verus!
