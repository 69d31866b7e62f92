//! Decoding of the flat, variably-chunked resource list a batch request
//! carries into one typed request struct per item.
//!
//! A normal item occupies four consecutive slots: the asset type, the
//! requesting principal's account, the primary holding account, and the
//! escalation account. An extended item, used for the asset class that
//! needs an auditable ownership-transfer record, carries four auxiliary
//! resource references more. The batch declares how many of its items
//! are extended; those come first, contiguously, and any list whose
//! length or slot shapes disagree with the declared counts is rejected
//! as a whole.

use vstd::prelude::*;

verus! {

use crate::state::{CustodyAccounts, ErrorCode, HoldingAccount};

/// One position of the flat resource list handed in with a batch.
#[derive(Clone, Copy, Debug, PartialEq, Eq)]
pub enum ResourceSlot {
    /// The asset type an item concerns.
    AssetRef(u64),
    /// A custodial account's state; `None` when the account does not
    /// exist yet.
    AccountSlot(Option<HoldingAccount>),
    /// An auxiliary provenance resource reference, present in extended
    /// items only.
    AuxRef(u64),
}

/// The auxiliary provenance references of an extended item.
#[derive(Clone, Copy, Debug, PartialEq, Eq)]
pub struct ExtendedRefs {
    pub metadata: u64,
    pub token_record: u64,
    pub destination_token_record: u64,
    pub edition: u64,
}

/// One decoded per-item request: the asset it concerns, the custodial
/// accounts it touches, and, for extended items, the provenance
/// references the executor needs.
#[derive(Clone, Copy, Debug, PartialEq, Eq)]
pub struct BatchItem {
    pub asset: u64,
    pub accounts: CustodyAccounts,
    pub extended: Option<ExtendedRefs>,
}

/// Slots of a normal item's chunk.
pub const NORMAL_CHUNK_SIZE: usize = 4;

/// Slots of an extended item's chunk.
pub const EXTENDED_CHUNK_SIZE: usize = 8;

/// First slot of item `i`'s chunk, extended items coming first.
pub open spec fn chunk_base(extended_count: int, i: int) -> int {
    if i < extended_count {
        8 * i
    } else {
        8 * extended_count + 4 * (i - extended_count)
    }
}

/// Whether item `i`'s chunk has the required slot shapes.
pub open spec fn chunk_wf(resources: Seq<ResourceSlot>, extended_count: int, i: int) -> bool {
    let b = chunk_base(extended_count, i);
    &&& resources[b] is AssetRef
    &&& resources[b + 1] is AccountSlot
    &&& resources[b + 2] is AccountSlot
    &&& resources[b + 3] is AccountSlot
    &&& i < extended_count ==> {
        &&& resources[b + 4] is AuxRef
        &&& resources[b + 5] is AuxRef
        &&& resources[b + 6] is AuxRef
        &&& resources[b + 7] is AuxRef
    }
}

/// Whether the whole list is consistent with the declared item and
/// extended-item counts: the extended items fit within the batch, the
/// length matches the chunk sizes exactly, and every chunk is shaped
/// as declared.
pub open spec fn layout_wf(resources: Seq<ResourceSlot>, item_count: int, extended_count: int) -> bool {
    &&& 0 <= extended_count <= item_count
    &&& resources.len() == 8 * extended_count + 4 * (item_count - extended_count)
    &&& forall|i: int| 0 <= i < item_count ==> chunk_wf(resources, extended_count, i)
}

/// The request struct encoded by item `i`'s chunk; meaningful only when
/// the chunk is well shaped.
pub open spec fn spec_item_at(resources: Seq<ResourceSlot>, extended_count: int, i: int) -> BatchItem {
    let b = chunk_base(extended_count, i);
    BatchItem {
        asset: match resources[b] {
            ResourceSlot::AssetRef(a) => a,
            _ => 0,
        },
        accounts: CustodyAccounts {
            user: match resources[b + 1] {
                ResourceSlot::AccountSlot(a) => a,
                _ => None,
            },
            vault: match resources[b + 2] {
                ResourceSlot::AccountSlot(a) => a,
                _ => None,
            },
            burn: match resources[b + 3] {
                ResourceSlot::AccountSlot(a) => a,
                _ => None,
            },
        },
        extended: if i < extended_count {
            Some(
                ExtendedRefs {
                    metadata: match resources[b + 4] {
                        ResourceSlot::AuxRef(x) => x,
                        _ => 0,
                    },
                    token_record: match resources[b + 5] {
                        ResourceSlot::AuxRef(x) => x,
                        _ => 0,
                    },
                    destination_token_record: match resources[b + 6] {
                        ResourceSlot::AuxRef(x) => x,
                        _ => 0,
                    },
                    edition: match resources[b + 7] {
                        ResourceSlot::AuxRef(x) => x,
                        _ => 0,
                    },
                },
            )
        } else {
            None
        },
    }
}

/// The sequence of request structs a well-shaped list encodes.
pub open spec fn spec_items(resources: Seq<ResourceSlot>, item_count: int, extended_count: int) -> Seq<BatchItem> {
    Seq::new(item_count as nat, |i: int| spec_item_at(resources, extended_count, i))
}

/// One badly shaped chunk inside the declared range spoils the whole
/// layout.
proof fn lemma_bad_chunk(resources: Seq<ResourceSlot>, item_count: int, extended_count: int, i: int)
    requires
        0 <= i < item_count,
        !chunk_wf(resources, extended_count, i),
    ensures
        !layout_wf(resources, item_count, extended_count),
{
}

/// Splits the flat resource list into one request struct per item.
/// Succeeds exactly when the list is consistent with the declared
/// counts; any inconsistency rejects the whole list.
pub fn decode_batch_resources(
    resources: &Vec<ResourceSlot>,
    item_count: usize,
    extended_count: usize,
) -> (r: Result<Vec<BatchItem>, ErrorCode>)
    ensures
        match r {
            Ok(items) => {
                &&& layout_wf(resources@, item_count as int, extended_count as int)
                &&& items@ == spec_items(resources@, item_count as int, extended_count as int)
            },
            Err(e) => {
                &&& e == ErrorCode::MalformedBatchLayout
                &&& !layout_wf(resources@, item_count as int, extended_count as int)
            },
        },
{
    if extended_count > item_count {
        return Err(ErrorCode::MalformedBatchLayout);
    }
    let expected_len: u128 = 8u128 * (extended_count as u128) + 4u128 * ((item_count
        - extended_count) as u128);
    if (resources.len() as u128) != expected_len {
        assert(resources@.len() != 8 * (extended_count as int) + 4 * (item_count as int
            - extended_count as int));
        return Err(ErrorCode::MalformedBatchLayout);
    }
    let total_len: usize = resources.len();
    let mut items: Vec<BatchItem> = Vec::new();
    let mut i: usize = 0;
    let mut base: usize = 0;
    while i < item_count
        invariant
            i <= item_count,
            extended_count <= item_count,
            total_len == resources@.len(),
            resources@.len() == 8 * (extended_count as int) + 4 * (item_count as int
                - extended_count as int),
            base as int == chunk_base(extended_count as int, i as int),
            items@.len() == i as int,
            forall|j: int| 0 <= j < i ==> chunk_wf(resources@, extended_count as int, j),
            forall|j: int|
                0 <= j < i ==> items@[j] == spec_item_at(resources@, extended_count as int, j),
        decreases item_count - i,
    {
        let ghost e = extended_count as int;
        let ghost n = item_count as int;
        let is_extended: bool = i < extended_count;
        proof {
            if is_extended {
                assert(base + 8 <= resources@.len());
            } else {
                assert(base + 4 <= resources@.len());
            }
        }
        let slot0: ResourceSlot = resources[base];
        let slot1: ResourceSlot = resources[base + 1];
        let slot2: ResourceSlot = resources[base + 2];
        let slot3: ResourceSlot = resources[base + 3];
        let asset: u64 = match slot0 {
            ResourceSlot::AssetRef(a) => a,
            _ => {
                proof {
                    lemma_bad_chunk(resources@, n, e, i as int);
                }
                return Err(ErrorCode::MalformedBatchLayout);
            }
        };
        let user: Option<HoldingAccount> = match slot1 {
            ResourceSlot::AccountSlot(a) => a,
            _ => {
                proof {
                    lemma_bad_chunk(resources@, n, e, i as int);
                }
                return Err(ErrorCode::MalformedBatchLayout);
            }
        };
        let vault: Option<HoldingAccount> = match slot2 {
            ResourceSlot::AccountSlot(a) => a,
            _ => {
                proof {
                    lemma_bad_chunk(resources@, n, e, i as int);
                }
                return Err(ErrorCode::MalformedBatchLayout);
            }
        };
        let burn: Option<HoldingAccount> = match slot3 {
            ResourceSlot::AccountSlot(a) => a,
            _ => {
                proof {
                    lemma_bad_chunk(resources@, n, e, i as int);
                }
                return Err(ErrorCode::MalformedBatchLayout);
            }
        };
        let extended: Option<ExtendedRefs> = if is_extended {
            let slot4: ResourceSlot = resources[base + 4];
            let slot5: ResourceSlot = resources[base + 5];
            let slot6: ResourceSlot = resources[base + 6];
            let slot7: ResourceSlot = resources[base + 7];
            let metadata: u64 = match slot4 {
                ResourceSlot::AuxRef(x) => x,
                _ => {
                    proof {
                        lemma_bad_chunk(resources@, n, e, i as int);
                    }
                    return Err(ErrorCode::MalformedBatchLayout);
                }
            };
            let token_record: u64 = match slot5 {
                ResourceSlot::AuxRef(x) => x,
                _ => {
                    proof {
                        lemma_bad_chunk(resources@, n, e, i as int);
                    }
                    return Err(ErrorCode::MalformedBatchLayout);
                }
            };
            let destination_token_record: u64 = match slot6 {
                ResourceSlot::AuxRef(x) => x,
                _ => {
                    proof {
                        lemma_bad_chunk(resources@, n, e, i as int);
                    }
                    return Err(ErrorCode::MalformedBatchLayout);
                }
            };
            let edition: u64 = match slot7 {
                ResourceSlot::AuxRef(x) => x,
                _ => {
                    proof {
                        lemma_bad_chunk(resources@, n, e, i as int);
                    }
                    return Err(ErrorCode::MalformedBatchLayout);
                }
            };
            Some(ExtendedRefs { metadata, token_record, destination_token_record, edition })
        } else {
            None
        };
        let item = BatchItem {
            asset,
            accounts: CustodyAccounts { user, vault, burn },
            extended,
        };
        assert(item == spec_item_at(resources@, e, i as int));
        items.push(item);
        base = if is_extended {
            base + EXTENDED_CHUNK_SIZE
        } else {
            base + NORMAL_CHUNK_SIZE
        };
        i += 1;
    }
    assert(items@ =~= spec_items(resources@, item_count as int, extended_count as int));
    Ok(items)
}

} // verus!
