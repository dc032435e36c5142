//! Deterministic derivation of custodial accounts and storage-partition
//! identifiers from campaign identifiers.
//!
//! Derivation is pure: the module identifier that separates this module's
//! accounts from everything else in the system is an explicit configuration
//! value handed in at construction, not ambient global state.

use crate::types::{AccountId, FundIndex};
use vstd::prelude::*;

verus! {

/// The eight ASCII bytes of the domain-separation tag "crowdfnd", packed
/// little-endian. Partitions derived here can never collide with partitions
/// derived under any other tag elsewhere in the system.
pub const PARTITION_TAG: u64 = 0x646e_6664_776f_7263;

/// Identifier of one isolated storage partition: the domain-separation tag
/// together with the campaign index the partition was derived from.
#[derive(Clone, Copy, Debug, PartialEq, Eq, Structural)]
pub struct PartitionId {
    /// The domain-separation tag.
    pub tag: u64,
    /// The campaign the partition belongs to.
    pub fund: FundIndex,
}

/// The custodial account of campaign `index` under module `module_id`: the
/// module identifier fills the high half, the campaign index the low half.
pub open spec fn account_of(module_id: u32, index: FundIndex) -> AccountId {
    ((module_id as int) * 0x1_0000_0000 + (index as int)) as AccountId
}

/// The storage-partition identifier of campaign `index`.
pub open spec fn partition_of(index: FundIndex) -> PartitionId {
    PartitionId { tag: PARTITION_TAG, fund: index }
}

/// Maps campaign identifiers to custodial accounts and to storage-partition
/// identifiers. Both mappings are pure and collision-free; recomputing for
/// the same identifier always yields the same result.
pub struct AccountDeriver {
    /// The configured module identifier.
    pub module_id: u32,
}

impl AccountDeriver {
    /// The configured module identifier.
    pub open spec fn spec_module_id(self) -> u32 {
        self.module_id
    }

    pub fn new(module_id: u32) -> (r: AccountDeriver)
        ensures
            r.spec_module_id() == module_id,
    {
        AccountDeriver { module_id }
    }

    /// The account ID of the fund pot of campaign `index`.
    pub fn fund_account_id(&self, index: FundIndex) -> (r: AccountId)
        ensures
            r == account_of(self.spec_module_id(), index),
    {
        (self.module_id as u64) * 0x1_0000_0000u64 + (index as u64)
    }

    /// Find the ID associated with the storage partition of campaign `index`.
    pub fn id_from_index(&self, index: FundIndex) -> (r: PartitionId)
        ensures
            r == partition_of(index),
    {
        PartitionId { tag: PARTITION_TAG, fund: index }
    }
}

/// Account derivation is collision-free: distinct campaigns get distinct
/// custodial accounts, and distinct module identifiers get disjoint account
/// ranges.
pub proof fn lemma_account_of_injective(m1: u32, i1: FundIndex, m2: u32, i2: FundIndex)
    ensures
        account_of(m1, i1) == account_of(m2, i2) ==> m1 == m2 && i1 == i2,
{
    if account_of(m1, i1) == account_of(m2, i2) {
        if m1 < m2 {
            assert((m1 as int) * 0x1_0000_0000 + 0x1_0000_0000 <= (m2 as int) * 0x1_0000_0000)
                by (nonlinear_arith)
                requires m1 < m2;
        }
        if m2 < m1 {
            assert((m2 as int) * 0x1_0000_0000 + 0x1_0000_0000 <= (m1 as int) * 0x1_0000_0000)
                by (nonlinear_arith)
                requires m2 < m1;
        }
    }
}

/// Partition derivation is collision-free as well.
pub proof fn lemma_partition_of_injective(i1: FundIndex, i2: FundIndex)
    ensures
        partition_of(i1) == partition_of(i2) ==> i1 == i2,
{
}

} // verus!
