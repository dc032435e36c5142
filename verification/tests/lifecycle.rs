//! Lifecycle tests: the full campaign scenario, the validation boundaries of
//! each operation, and the counter discipline.

use simple_crowdfund::engine::{CrowdfundEngine, TestRuntime};
use simple_crowdfund::ledger::Ledger;
use simple_crowdfund::types::{Error, Event, LedgerError};

fn setup() -> (CrowdfundEngine, Ledger) {
    let engine = TestRuntime::build();
    let mut ledger = Ledger::new();
    // endow an owner and a contributor
    ledger.resolve_creating(1, 100);
    ledger.resolve_creating(2, 500);
    (engine, ledger)
}

#[test]
fn full_lifecycle_scenario() {
    let (mut engine, mut ledger) = setup();

    // create(cap = 100, start = 0, end = 10) at time 1: id 0 is issued and
    // the custodial account holds exactly the deposit.
    assert_eq!(engine.create(&mut ledger, 1, 100, 0, 10, 1), Ok(Event::Created(0, 1)));
    assert_eq!(engine.fund_count(), 1);
    let custodial = engine.fund_account_id(0);
    assert_eq!(ledger.balance(custodial), 10);
    assert_eq!(ledger.balance(1), 90);
    let fund = engine.funds(0).unwrap();
    assert_eq!(fund.owner, 1);
    assert_eq!(fund.deposit, 10);
    assert_eq!(fund.raised, 0);
    assert_eq!(fund.cap, 100);

    // contribute 30 at time 5.
    assert_eq!(engine.contribute(&mut ledger, 2, 0, 30, 5), Ok(Event::Contributed(2, 0, 30, 5)));
    assert_eq!(engine.funds(0).unwrap().raised, 30);
    assert_eq!(engine.contribution_get(0, 2), 30);
    assert_eq!(ledger.balance(custodial), 40);

    // 30 + 75 = 105 >= 100: rejected, nothing moved.
    assert_eq!(engine.contribute(&mut ledger, 2, 0, 75, 5), Err(Error::CapExceeded));
    assert_eq!(engine.funds(0).unwrap().raised, 30);

    // 30 + 69 = 99 < 100: accepted.
    assert_eq!(engine.contribute(&mut ledger, 2, 0, 69, 5), Ok(Event::Contributed(2, 0, 99, 5)));
    assert_eq!(engine.funds(0).unwrap().raised, 99);

    // withdrawal is closed until strictly after the end.
    assert_eq!(engine.withdraw(&mut ledger, 2, 0, 5), Err(Error::WithdrawalTooEarly));

    // at time 11 the full balance comes back and the entry is removed.
    assert_eq!(engine.withdraw(&mut ledger, 2, 0, 11), Ok(Event::Withdrew(2, 0, 99, 11)));
    assert_eq!(engine.funds(0).unwrap().raised, 0);
    assert_eq!(engine.contribution_get(0, 2), 0);
    assert_eq!(ledger.balance(2), 500);
    assert_eq!(ledger.balance(custodial), 10);

    // at end + retirement period anyone may dissolve; the reporter collects
    // the deposit plus whatever raised remained.
    assert_eq!(engine.dissolve(&mut ledger, 3, 0, 16), Ok(Event::Dissolved(0, 16, 3)));
    assert!(engine.funds(0).is_none());
    assert_eq!(ledger.balance(3), 10);
    assert_eq!(ledger.balance(custodial), 0);
}

#[test]
fn create_rejects_invalid_window() {
    let (mut engine, mut ledger) = setup();

    // start >= end: rejected without touching counter, registry or ledger.
    assert_eq!(engine.create(&mut ledger, 1, 100, 10, 10, 1), Err(Error::InvalidWindow));
    assert_eq!(engine.create(&mut ledger, 1, 100, 12, 10, 1), Err(Error::InvalidWindow));
    // end not strictly in the future: same rejection.
    assert_eq!(engine.create(&mut ledger, 1, 100, 0, 10, 10), Err(Error::InvalidWindow));
    assert_eq!(engine.fund_count(), 0);
    assert!(engine.funds(0).is_none());
    assert_eq!(ledger.balance(1), 100);
}

#[test]
fn create_rejects_insufficient_deposit() {
    let (mut engine, mut ledger) = setup();
    // account 4 holds only 5, below the submission deposit of 10.
    ledger.resolve_creating(4, 5);
    assert_eq!(engine.create(&mut ledger, 4, 100, 0, 10, 1), Err(Error::InsufficientDeposit));
    assert_eq!(engine.fund_count(), 0);
    assert_eq!(ledger.balance(4), 5);
}

#[test]
fn contribute_cap_boundary_is_strict() {
    let (mut engine, mut ledger) = setup();
    assert!(engine.create(&mut ledger, 1, 100, 0, 10, 1).is_ok());
    assert!(engine.contribute(&mut ledger, 2, 0, 30, 5).is_ok());

    // raised + value == cap exactly: rejected.
    assert_eq!(engine.contribute(&mut ledger, 2, 0, 70, 5), Err(Error::CapExceeded));
    assert_eq!(engine.funds(0).unwrap().raised, 30);

    // raised + value == cap - 1: accepted.
    assert_eq!(engine.contribute(&mut ledger, 2, 0, 69, 5), Ok(Event::Contributed(2, 0, 99, 5)));
    assert_eq!(engine.funds(0).unwrap().raised, 99);
}

#[test]
fn contribute_rejects_small_missing_and_closed() {
    let (mut engine, mut ledger) = setup();
    assert!(engine.create(&mut ledger, 1, 100, 0, 10, 1).is_ok());

    // below the configured minimum of 1.
    assert_eq!(engine.contribute(&mut ledger, 2, 0, 0, 5), Err(Error::ContributionTooSmall));
    // no such campaign.
    assert_eq!(engine.contribute(&mut ledger, 2, 9, 30, 5), Err(Error::FundNotFound));
    // the window closes at the end block itself.
    assert_eq!(engine.contribute(&mut ledger, 2, 0, 30, 10), Err(Error::ContributionWindowClosed));
    assert_eq!(engine.funds(0).unwrap().raised, 0);
}

#[test]
fn contribute_propagates_ledger_failure() {
    let (mut engine, mut ledger) = setup();
    assert!(engine.create(&mut ledger, 1, 100, 0, 10, 1).is_ok());
    // account 5 holds 3, cannot cover a contribution of 30.
    ledger.resolve_creating(5, 3);
    assert_eq!(
        engine.contribute(&mut ledger, 5, 0, 30, 5),
        Err(Error::Ledger(LedgerError::InsufficientBalance))
    );
    assert_eq!(engine.funds(0).unwrap().raised, 0);
    assert_eq!(engine.contribution_get(0, 5), 0);
    assert_eq!(ledger.balance(5), 3);
}

#[test]
fn second_withdraw_is_rejected() {
    let (mut engine, mut ledger) = setup();
    assert!(engine.create(&mut ledger, 1, 100, 0, 10, 1).is_ok());
    assert!(engine.contribute(&mut ledger, 2, 0, 40, 5).is_ok());

    assert_eq!(engine.withdraw(&mut ledger, 2, 0, 11), Ok(Event::Withdrew(2, 0, 40, 11)));
    // the entry was deleted outright: a second withdrawal finds nothing.
    assert_eq!(engine.withdraw(&mut ledger, 2, 0, 11), Err(Error::NoContribution));
    assert_eq!(engine.withdraw(&mut ledger, 2, 0, 99), Err(Error::NoContribution));
}

#[test]
fn withdraw_rejects_missing_and_early() {
    let (mut engine, mut ledger) = setup();
    assert!(engine.create(&mut ledger, 1, 100, 0, 10, 1).is_ok());
    assert!(engine.contribute(&mut ledger, 2, 0, 40, 5).is_ok());

    assert_eq!(engine.withdraw(&mut ledger, 2, 9, 11), Err(Error::FundNotFound));
    // at the end block itself it is still too early.
    assert_eq!(engine.withdraw(&mut ledger, 2, 0, 10), Err(Error::WithdrawalTooEarly));
    assert_eq!(engine.contribution_get(0, 2), 40);
}

#[test]
fn dissolve_retirement_boundary() {
    let (mut engine, mut ledger) = setup();
    assert!(engine.create(&mut ledger, 1, 100, 0, 10, 1).is_ok());

    assert_eq!(engine.dissolve(&mut ledger, 3, 9, 14), Err(Error::FundNotFound));
    // before end + retirement period (10 + 5): always rejected.
    assert_eq!(engine.dissolve(&mut ledger, 3, 0, 11), Err(Error::RetirementNotOver));
    assert_eq!(engine.dissolve(&mut ledger, 3, 0, 14), Err(Error::RetirementNotOver));
    assert!(engine.funds(0).is_some());
    // exactly at the boundary: accepted.
    assert_eq!(engine.dissolve(&mut ledger, 3, 0, 15), Ok(Event::Dissolved(0, 15, 3)));
    assert!(engine.funds(0).is_none());
}

#[test]
fn dissolve_absorbs_unwithdrawn_balances() {
    let (mut engine, mut ledger) = setup();
    assert!(engine.create(&mut ledger, 1, 100, 0, 10, 1).is_ok());
    assert!(engine.contribute(&mut ledger, 2, 0, 40, 5).is_ok());

    // the contributor never withdraws; the reporter collects deposit + raised.
    assert_eq!(engine.dissolve(&mut ledger, 3, 0, 15), Ok(Event::Dissolved(0, 15, 3)));
    assert_eq!(ledger.balance(3), 50);
    assert_eq!(engine.contribution_get(0, 2), 0);
    assert_eq!(ledger.balance(2), 460);
}

#[test]
fn fund_count_tracks_successful_creates() {
    let (mut engine, mut ledger) = setup();
    assert_eq!(engine.fund_count(), 0);

    assert!(engine.create(&mut ledger, 1, 100, 0, 10, 1).is_ok());
    // interleaved failures never advance the counter.
    assert_eq!(engine.create(&mut ledger, 1, 100, 10, 10, 1), Err(Error::InvalidWindow));
    assert!(engine.create(&mut ledger, 1, 200, 2, 20, 1).is_ok());
    ledger.resolve_creating(4, 5);
    assert_eq!(engine.create(&mut ledger, 4, 100, 0, 10, 1), Err(Error::InsufficientDeposit));
    assert!(engine.create(&mut ledger, 1, 300, 3, 30, 1).is_ok());

    assert_eq!(engine.fund_count(), 3);
    // the three successes got the three consecutive identifiers.
    assert_eq!(engine.funds(0).unwrap().cap, 100);
    assert_eq!(engine.funds(1).unwrap().cap, 200);
    assert_eq!(engine.funds(2).unwrap().cap, 300);
}

#[test]
fn campaigns_are_isolated() {
    let (mut engine, mut ledger) = setup();
    assert!(engine.create(&mut ledger, 1, 100, 0, 10, 1).is_ok());
    assert!(engine.create(&mut ledger, 1, 100, 0, 10, 1).is_ok());

    assert!(engine.contribute(&mut ledger, 2, 0, 30, 5).is_ok());
    assert!(engine.contribute(&mut ledger, 2, 1, 7, 5).is_ok());

    // the same contributor has independent balances per campaign, and
    // dissolving one campaign leaves the other untouched.
    assert_eq!(engine.contribution_get(0, 2), 30);
    assert_eq!(engine.contribution_get(1, 2), 7);
    assert!(engine.dissolve(&mut ledger, 3, 0, 15).is_ok());
    assert_eq!(engine.contribution_get(0, 2), 0);
    assert_eq!(engine.contribution_get(1, 2), 7);
    assert_eq!(engine.funds(1).unwrap().raised, 7);
}
