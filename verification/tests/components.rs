//! Component tests: the partitioned store, the account deriver, the ledger
//! primitive, the fund registry, and the raw contribution helpers.

use simple_crowdfund::deriver::{AccountDeriver, PartitionId, PARTITION_TAG};
use simple_crowdfund::engine::TestRuntime;
use simple_crowdfund::ledger::Ledger;
use simple_crowdfund::registry::FundRegistry;
use simple_crowdfund::store::PartitionedStore;
use simple_crowdfund::types::{FundInfo, LedgerError};

#[test]
fn store_put_get_delete() {
    let mut store = PartitionedStore::new();
    let p0 = PartitionId { tag: PARTITION_TAG, fund: 0 };

    assert_eq!(store.get_or_default(p0, 1), 0);
    store.put(p0, 1, 5);
    store.put(p0, 2, 8);
    assert_eq!(store.get_or_default(p0, 1), 5);
    store.put(p0, 1, 6);
    assert_eq!(store.get_or_default(p0, 1), 6);
    store.delete(p0, 1);
    assert_eq!(store.get_or_default(p0, 1), 0);
    assert_eq!(store.get_or_default(p0, 2), 8);
}

#[test]
fn store_partitions_are_isolated() {
    let mut store = PartitionedStore::new();
    let p0 = PartitionId { tag: PARTITION_TAG, fund: 0 };
    let p1 = PartitionId { tag: PARTITION_TAG, fund: 1 };

    store.put(p0, 1, 5);
    store.put(p1, 1, 7);
    assert_eq!(store.get_or_default(p0, 1), 5);
    assert_eq!(store.get_or_default(p1, 1), 7);

    store.destroy_partition(p0);
    assert_eq!(store.get_or_default(p0, 1), 0);
    assert_eq!(store.get_or_default(p1, 1), 7);
}

#[test]
fn deriver_is_deterministic_and_distinct() {
    let deriver = AccountDeriver::new(7);

    assert_eq!(deriver.fund_account_id(0), deriver.fund_account_id(0));
    assert_ne!(deriver.fund_account_id(0), deriver.fund_account_id(1));
    assert_eq!(deriver.fund_account_id(1), (7u64 << 32) | 1);

    let other = AccountDeriver::new(8);
    assert_ne!(deriver.fund_account_id(0), other.fund_account_id(0));

    let pid = deriver.id_from_index(3);
    assert_eq!(pid.tag, PARTITION_TAG);
    assert_eq!(pid.fund, 3);
    assert_eq!(deriver.id_from_index(3), deriver.id_from_index(3));
    assert_ne!(deriver.id_from_index(3), deriver.id_from_index(4));
}

#[test]
fn partition_tag_spells_the_domain_prefix() {
    // the tag is the eight bytes of "crowdfnd", packed little-endian
    assert_eq!(PARTITION_TAG.to_le_bytes(), *b"crowdfnd");
}

#[test]
fn ledger_withdraw_and_transfer() {
    let mut ledger = Ledger::new();
    assert_eq!(ledger.balance(1), 0);

    ledger.resolve_creating(1, 50);
    assert_eq!(ledger.balance(1), 50);

    assert_eq!(ledger.withdraw(1, 20), Ok(()));
    assert_eq!(ledger.balance(1), 30);
    assert_eq!(ledger.withdraw(1, 40), Err(LedgerError::InsufficientBalance));
    assert_eq!(ledger.balance(1), 30);

    assert_eq!(ledger.transfer(1, 2, 10), Ok(()));
    assert_eq!(ledger.balance(1), 20);
    assert_eq!(ledger.balance(2), 10);
    assert_eq!(ledger.transfer(1, 2, 999), Err(LedgerError::InsufficientBalance));
    assert_eq!(ledger.balance(1), 20);
    assert_eq!(ledger.balance(2), 10);

    // a transfer to oneself moves nothing
    assert_eq!(ledger.transfer(1, 1, 15), Ok(()));
    assert_eq!(ledger.balance(1), 20);
}

#[test]
fn ledger_credit_saturates() {
    let mut ledger = Ledger::new();
    ledger.resolve_creating(1, u64::MAX);
    ledger.resolve_creating(1, 10);
    assert_eq!(ledger.balance(1), u64::MAX);
}

#[test]
fn registry_counter_and_records() {
    let mut registry = FundRegistry::new();
    assert_eq!(registry.fund_count(), 0);
    assert_eq!(registry.next_id(), 0);
    assert_eq!(registry.next_id(), 1);
    assert_eq!(registry.fund_count(), 2);

    let info = FundInfo { owner: 1, deposit: 10, raised: 0, start: 0, end: 10, cap: 100 };
    registry.put(0, info);
    assert_eq!(registry.get(0), Some(info));
    assert_eq!(registry.get(1), None);

    let updated = FundInfo { raised: 5, ..info };
    registry.put(0, updated);
    assert_eq!(registry.get(0), Some(updated));

    registry.remove(0);
    assert_eq!(registry.get(0), None);
    // removal never rewinds the counter
    assert_eq!(registry.fund_count(), 2);
}

#[test]
fn contribution_helpers_edit_the_partition() {
    let mut engine = TestRuntime::build();

    assert_eq!(engine.contribution_get(0, 2), 0);
    engine.contribution_put(0, 2, 42);
    assert_eq!(engine.contribution_get(0, 2), 42);

    engine.contribution_put(0, 9, 7);
    engine.contribution_kill(0, 2);
    assert_eq!(engine.contribution_get(0, 2), 0);
    assert_eq!(engine.contribution_get(0, 9), 7);

    engine.crowdfund_kill(0);
    assert_eq!(engine.contribution_get(0, 9), 0);
}
