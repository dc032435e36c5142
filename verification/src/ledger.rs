//! The ledger primitive: one account book mapping accounts to the value they
//! hold. The crowdfund engine moves value exclusively through this interface
//! — withdrawal with failure on insufficient balance, crediting that may
//! create the account, and the transfer composing the two.

use crate::kv;
use crate::types::{sat_add, AccountId, Balance, LedgerError};
use vstd::prelude::*;

verus! {

/// How one movement of `amount` from `from` to `to` relates the ledger
/// before the movement to the ledger after it: `from` is debited exactly,
/// `to` is credited with clamping at the numeric maximum, every other
/// account is untouched. A movement from an account to itself changes
/// nothing.
pub open spec fn transfer_effect(
    pre: Ledger,
    post: Ledger,
    from: AccountId,
    to: AccountId,
    amount: Balance,
) -> bool {
    if from == to {
        forall|a: AccountId| post.bal(a) == pre.bal(a)
    } else {
        &&& post.bal(from) == pre.bal(from) - amount
        &&& post.bal(to) == sat_add(pre.bal(to), amount)
        &&& forall|a: AccountId| a != from && a != to ==> post.bal(a) == pre.bal(a)
    }
}

/// The balance book. Absent accounts hold zero.
pub struct Ledger {
    /// The account book itself, one entry per account.
    pub accounts: Vec<(u64, u64)>,
}

impl Ledger {
    /// Well-formed: one entry per account.
    pub open spec fn wf(self) -> bool {
        kv::unique_keys(self.accounts@)
    }

    /// The balance held by `who`.
    pub open spec fn bal(self, who: AccountId) -> Balance {
        kv::value_or_zero(self.accounts@, who)
    }

    /// An empty book: every account holds zero.
    pub fn new() -> (r: Ledger)
        ensures
            r.wf(),
            forall|a: AccountId| r.bal(a) == 0,
    {
        let l = Ledger { accounts: Vec::new() };
        proof {
            assert forall|a: AccountId| l.bal(a) == 0 by {
                assert(l.accounts@.len() == 0);
            }
        }
        l
    }

    /// The balance held by `who`.
    pub fn balance(&self, who: AccountId) -> (r: Balance)
        requires
            self.wf(),
        ensures
            r == self.bal(who),
    {
        match kv::get_value(&self.accounts, who) {
            Some(v) => v,
            None => 0,
        }
    }

    /// Debit `amount` from `who`. Fails, mutating nothing, exactly when the
    /// account cannot cover it.
    pub fn withdraw(&mut self, who: AccountId, amount: Balance) -> (r: Result<(), LedgerError>)
        requires
            old(self).wf(),
        ensures
            final(self).wf(),
            old(self).bal(who) >= amount ==> {
                &&& r == Ok::<(), LedgerError>(())
                &&& final(self).bal(who) == old(self).bal(who) - amount
                &&& forall|a: AccountId| a != who ==> final(self).bal(a) == old(self).bal(a)
            },
            old(self).bal(who) < amount ==> {
                &&& r == Err::<(), LedgerError>(LedgerError::InsufficientBalance)
                &&& *final(self) == *old(self)
            },
    {
        let b = self.balance(who);
        if b < amount {
            return Err(LedgerError::InsufficientBalance);
        }
        kv::put_value(&mut self.accounts, who, b - amount);
        Ok(())
    }

    /// Credit `amount` to `who`, creating the account if need be. Clamps at
    /// the numeric maximum instead of wrapping.
    pub fn resolve_creating(&mut self, who: AccountId, amount: Balance)
        requires
            old(self).wf(),
        ensures
            final(self).wf(),
            final(self).bal(who) == sat_add(old(self).bal(who), amount),
            forall|a: AccountId| a != who ==> final(self).bal(a) == old(self).bal(a),
    {
        let b = self.balance(who);
        kv::put_value(&mut self.accounts, who, b.saturating_add(amount));
    }

    /// Move `amount` from `from` to `to`. Fails, mutating nothing, exactly
    /// when `from` cannot cover it.
    pub fn transfer(&mut self, from: AccountId, to: AccountId, amount: Balance) -> (r: Result<
        (),
        LedgerError,
    >)
        requires
            old(self).wf(),
        ensures
            final(self).wf(),
            old(self).bal(from) >= amount ==> {
                &&& r == Ok::<(), LedgerError>(())
                &&& transfer_effect(*old(self), *final(self), from, to, amount)
            },
            old(self).bal(from) < amount ==> {
                &&& r == Err::<(), LedgerError>(LedgerError::InsufficientBalance)
                &&& *final(self) == *old(self)
            },
    {
        match self.withdraw(from, amount) {
            Err(e) => Err(e),
            Ok(()) => {
                self.resolve_creating(to, amount);
                Ok(())
            },
        }
    }
}

} // verus!
