//! Plain data carried through the crowdfund lifecycle: identifiers, the
//! campaign record, the error taxonomy and the emitted events.

use vstd::prelude::*;

verus! {

/// Identity of an account, ledger-side or custodial.
pub type AccountId = u64;

/// An amount of value held or moved by the ledger.
pub type Balance = u64;

/// A logical time marker (a block height or equivalent counter).
pub type BlockNumber = u64;

/// Simple index for identifying a fund.
pub type FundIndex = u32;

/// One campaign record, owned by the fund registry.
#[derive(Clone, Copy, Debug, PartialEq, Eq, Structural)]
pub struct FundInfo {
    /// The owning account which placed the deposit.
    pub owner: AccountId,
    /// The amount of deposit placed.
    pub deposit: Balance,
    /// The total amount raised, net of withdrawals.
    pub raised: Balance,
    /// Block number at which contributions are first accepted.
    pub start: BlockNumber,
    /// Block number after which funding must have succeeded.
    pub end: BlockNumber,
    /// Upper bound on `raised`.
    pub cap: Balance,
}

/// Failure of a ledger-primitive operation.
#[derive(Clone, Copy, Debug, PartialEq, Eq, Structural)]
pub enum LedgerError {
    /// The debited account cannot cover the requested amount.
    InsufficientBalance,
}

/// Caller-visible rejections of the lifecycle operations. All are pure:
/// no persisted state is mutated before an error return.
#[derive(Clone, Copy, Debug, PartialEq, Eq, Structural)]
pub enum Error {
    /// `create`: start not strictly before end, or end not strictly in the future.
    InvalidWindow,
    /// `create`: the requester cannot cover the submission deposit.
    InsufficientDeposit,
    /// `contribute`: value below the configured minimum.
    ContributionTooSmall,
    /// `contribute`/`withdraw`/`dissolve`: the campaign identifier does not exist.
    FundNotFound,
    /// `contribute`: current time at or after the campaign's end.
    ContributionWindowClosed,
    /// `contribute`: the contribution would reach or exceed the cap.
    CapExceeded,
    /// `withdraw`: current time at or before the campaign's end.
    WithdrawalTooEarly,
    /// `withdraw`: the requester has no recorded balance.
    NoContribution,
    /// `dissolve`: current time before the end of the retirement period.
    RetirementNotOver,
    /// A value-movement failure of the ledger primitive, surfaced verbatim.
    Ledger(LedgerError),
}

/// Lifecycle events, one per successful operation.
#[derive(Clone, Copy, Debug, PartialEq, Eq, Structural)]
pub enum Event {
    /// A campaign was created: its fresh identifier and the current time.
    Created(FundIndex, BlockNumber),
    /// A contribution was accepted: contributor, campaign, the contributor's
    /// new cumulative balance, and the current time.
    Contributed(AccountId, FundIndex, Balance, BlockNumber),
    /// A contributor withdrew their full balance: contributor, campaign,
    /// the amount returned, and the current time.
    Withdrew(AccountId, FundIndex, Balance, BlockNumber),
    /// A campaign was garbage-collected: campaign, the current time, and the
    /// reporter who collected the remaining custodial balance.
    Dissolved(FundIndex, BlockNumber, AccountId),
}

/// `a + b`, clamped at the numeric maximum instead of wrapping.
pub open spec fn sat_add(a: u64, b: u64) -> u64 {
    if a + b > u64::MAX {
        u64::MAX
    } else {
        (a + b) as u64
    }
}

} // verus!
