//! The crowdfund engine: the four lifecycle operations — create, contribute,
//! withdraw, dissolve — over the fund registry, the partitioned contribution
//! store and the ledger primitive.
//!
//! Every operation validates fully before its first state write: a failed
//! call mutates nothing. Successful operations keep the accounting invariant
//! [`CrowdfundEngine::inv`]: the sum of a campaign's partition entries always
//! equals the `raised` of its record, a record's `raised` never exceeds its
//! `cap`, and campaigns that do not exist hold no partition entries.

use crate::deriver::{account_of, partition_of, AccountDeriver, PartitionId};
use crate::kv;
use crate::ledger::{transfer_effect, Ledger};
use crate::registry::FundRegistry;
use crate::store::PartitionedStore;
use crate::types::{sat_add, AccountId, Balance, BlockNumber, Error, Event, FundIndex, FundInfo};
use vstd::prelude::*;

verus! {

/// The static configuration of the engine, fixed at construction.
#[derive(Clone, Copy, Debug, PartialEq, Eq, Structural)]
pub struct Config {
    /// The amount held on deposit by the owner of a crowdfund.
    pub submission_deposit: Balance,
    /// The minimum amount that may be contributed into a crowdfund.
    pub min_contribution: Balance,
    /// The period after a crowdfund's end during which contributors may
    /// still withdraw their funds before dissolution becomes possible.
    pub retirement_period: BlockNumber,
}

/// A fresh campaign record, with nothing raised yet.
pub open spec fn fresh_record(
    who: AccountId,
    deposit: Balance,
    start: BlockNumber,
    end: BlockNumber,
    cap: Balance,
) -> FundInfo {
    FundInfo { owner: who, deposit, raised: 0, start, end, cap }
}

/// The record `f` with its `raised` replaced.
pub open spec fn with_raised(f: FundInfo, raised: Balance) -> FundInfo {
    FundInfo { raised, ..f }
}

/// A record never raises beyond its cap, and its window is ordered.
pub open spec fn record_sound(f: FundInfo) -> bool {
    f.raised <= f.cap && f.start < f.end
}

/// The lifecycle state machine.
pub struct CrowdfundEngine {
    /// The configured deposit, minimum contribution and retirement period.
    pub config: Config,
    /// Derivation of custodial accounts and partition identifiers.
    pub deriver: AccountDeriver,
    /// The campaign records and the identifier counter.
    pub registry: FundRegistry,
    /// The contributor balances, one isolated partition per campaign.
    pub store: PartitionedStore,
}

impl CrowdfundEngine {
    /// The record of campaign `id`, if the campaign exists.
    pub open spec fn funds_spec(self, id: FundIndex) -> Option<FundInfo> {
        self.registry.spec_get(id)
    }

    /// The total number of campaigns allocated so far.
    pub open spec fn fund_count_spec(self) -> FundIndex {
        self.registry.spec_count()
    }

    /// The custodial account of campaign `id`.
    pub open spec fn fund_account(self, id: FundIndex) -> AccountId {
        account_of(self.deriver.spec_module_id(), id)
    }

    /// The balance contributed to campaign `id` by `who`, net of
    /// withdrawals; absence counts as zero.
    pub open spec fn contribution_spec(self, id: FundIndex, who: AccountId) -> Balance {
        self.store.entry_of(partition_of(id), who)
    }

    /// Whether campaign `id` holds a partition entry for `who` at all.
    pub open spec fn has_contribution(self, id: FundIndex, who: AccountId) -> bool {
        self.store.has_entry(partition_of(id), who)
    }

    /// The sum of all partition entries of campaign `id`.
    pub open spec fn total_contributed(self, id: FundIndex) -> int {
        self.store.total_of(partition_of(id))
    }

    /// Structural well-formedness of the components.
    pub open spec fn wf(self) -> bool {
        &&& self.registry.wf()
        &&& self.store.wf()
    }

    /// The sum of a campaign's partition entries equals the `raised` of its
    /// record, at every observable point between operations.
    pub open spec fn contributions_match_raised(self) -> bool {
        forall|id: FundIndex|
            (#[trigger] self.funds_spec(id)) is Some ==> self.total_contributed(id)
                == self.funds_spec(id)->Some_0.raised
    }

    /// A record never raises beyond its cap, and its window is ordered.
    pub open spec fn records_sound(self) -> bool {
        forall|id: FundIndex|
            (#[trigger] self.funds_spec(id)) is Some ==> record_sound(self.funds_spec(id)->Some_0)
    }

    /// Campaigns that do not exist — never created, or dissolved — hold no
    /// partition entries.
    pub open spec fn absent_funds_empty(self) -> bool {
        forall|id: FundIndex|
            (#[trigger] self.funds_spec(id)) is None ==> self.store.part_entries(partition_of(id))
                == Seq::<(u64, u64)>::empty()
    }

    /// The engine invariant: established at construction, preserved by every
    /// operation.
    pub open spec fn inv(self) -> bool {
        &&& self.wf()
        &&& self.contributions_match_raised()
        &&& self.records_sound()
        &&& self.absent_funds_empty()
    }

    /// The validation of `create`, in check order.
    pub open spec fn create_check(self, start: BlockNumber, end: BlockNumber, now: BlockNumber)
        -> Option<Error> {
        if start >= end || end <= now {
            Some(Error::InvalidWindow)
        } else {
            None
        }
    }

    /// The validation of `contribute`, in check order.
    pub open spec fn contribute_check(
        self,
        index: FundIndex,
        value: Balance,
        now: BlockNumber,
    ) -> Option<Error> {
        if value < self.config.min_contribution {
            Some(Error::ContributionTooSmall)
        } else {
            match self.funds_spec(index) {
                None => Some(Error::FundNotFound),
                Some(f) => if now >= f.end {
                    Some(Error::ContributionWindowClosed)
                } else if sat_add(f.raised, value) >= f.cap {
                    Some(Error::CapExceeded)
                } else {
                    None
                },
            }
        }
    }

    /// The validation of `withdraw`, in check order.
    pub open spec fn withdraw_check(
        self,
        who: AccountId,
        index: FundIndex,
        now: BlockNumber,
    ) -> Option<Error> {
        match self.funds_spec(index) {
            None => Some(Error::FundNotFound),
            Some(f) => if now <= f.end {
                Some(Error::WithdrawalTooEarly)
            } else if self.contribution_spec(index, who) == 0 {
                Some(Error::NoContribution)
            } else {
                None
            },
        }
    }

    /// The validation of `dissolve`, in check order.
    pub open spec fn dissolve_check(self, index: FundIndex, now: BlockNumber) -> Option<Error> {
        match self.funds_spec(index) {
            None => Some(Error::FundNotFound),
            Some(f) => if now < sat_add(f.end, self.config.retirement_period) {
                Some(Error::RetirementNotOver)
            } else {
                None
            },
        }
    }

    /// An engine with no campaigns, its counter at zero. The module
    /// identifier separating this engine's custodial accounts from the rest
    /// of the system is passed in explicitly.
    pub fn new(config: Config, module_id: u32) -> (r: CrowdfundEngine)
        ensures
            r.inv(),
            r.config == config,
            r.deriver.spec_module_id() == module_id,
            r.fund_count_spec() == 0,
            forall|id: FundIndex| r.funds_spec(id) == None::<FundInfo>,
            forall|id: FundIndex, w: AccountId| #[trigger] r.contribution_spec(id, w) == 0,
    {
        let r = CrowdfundEngine {
            config,
            deriver: AccountDeriver::new(module_id),
            registry: FundRegistry::new(),
            store: PartitionedStore::new(),
        };
        proof {
            assert forall|id: FundIndex, w: AccountId| #[trigger]
                r.contribution_spec(id, w) == 0 by {
                r.store.lemma_empty_partition(partition_of(id));
            }
        }
        r
    }

    /// The account ID of the fund pot of campaign `index`.
    pub fn fund_account_id(&self, index: FundIndex) -> (r: AccountId)
        ensures
            r == self.fund_account(index),
    {
        self.deriver.fund_account_id(index)
    }

    /// Find the ID associated with the storage partition of campaign `index`.
    pub fn id_from_index(&self, index: FundIndex) -> (r: PartitionId)
        ensures
            r == partition_of(index),
    {
        self.deriver.id_from_index(index)
    }

    /// The record of campaign `index`, if the campaign exists.
    pub fn funds(&self, index: FundIndex) -> (r: Option<FundInfo>)
        requires
            self.wf(),
        ensures
            r == self.funds_spec(index),
    {
        self.registry.get(index)
    }

    /// The total number of campaigns allocated so far.
    pub fn fund_count(&self) -> (r: FundIndex)
        ensures
            r == self.fund_count_spec(),
    {
        self.registry.fund_count()
    }

    /// The balance contributed to campaign `index` by `who`; zero if none.
    pub fn contribution_get(&self, index: FundIndex, who: AccountId) -> (r: Balance)
        requires
            self.wf(),
        ensures
            r == self.contribution_spec(index, who),
    {
        let pid = self.deriver.id_from_index(index);
        self.store.get_or_default(pid, who)
    }

    /// Write `balance` as the partition entry of `who` under campaign
    /// `index`. This edits the partition alone; keeping the record's
    /// `raised` in step is the caller's charge — the lifecycle operations
    /// are the ones that do so.
    pub fn contribution_put(&mut self, index: FundIndex, who: AccountId, balance: Balance)
        requires
            old(self).wf(),
        ensures
            final(self).wf(),
            final(self).config == old(self).config,
            final(self).deriver == old(self).deriver,
            final(self).registry == old(self).registry,
            final(self).contribution_spec(index, who) == balance,
            final(self).has_contribution(index, who),
            forall|w: AccountId|
                w != who ==> #[trigger] final(self).contribution_spec(index, w) == old(
                    self,
                ).contribution_spec(index, w) && final(self).has_contribution(index, w) == old(
                    self,
                ).has_contribution(index, w),
            final(self).total_contributed(index) == old(self).total_contributed(index) - old(
                self,
            ).contribution_spec(index, who) + balance,
            forall|q: PartitionId|
                q != partition_of(index) ==> #[trigger] final(self).store.part_entries(q) == old(
                    self,
                ).store.part_entries(q),
    {
        let pid = self.deriver.id_from_index(index);
        self.store.put(pid, who, balance);
    }

    /// Delete the partition entry of `who` under campaign `index` entirely.
    /// As with [`Self::contribution_put`], the record's `raised` is the
    /// caller's charge.
    pub fn contribution_kill(&mut self, index: FundIndex, who: AccountId)
        requires
            old(self).wf(),
        ensures
            final(self).wf(),
            final(self).config == old(self).config,
            final(self).deriver == old(self).deriver,
            final(self).registry == old(self).registry,
            final(self).contribution_spec(index, who) == 0,
            !final(self).has_contribution(index, who),
            forall|w: AccountId|
                w != who ==> #[trigger] final(self).contribution_spec(index, w) == old(
                    self,
                ).contribution_spec(index, w) && final(self).has_contribution(index, w) == old(
                    self,
                ).has_contribution(index, w),
            final(self).total_contributed(index) == old(self).total_contributed(index) - old(
                self,
            ).contribution_spec(index, who),
            forall|q: PartitionId|
                q != partition_of(index) ==> #[trigger] final(self).store.part_entries(q) == old(
                    self,
                ).store.part_entries(q),
    {
        let pid = self.deriver.id_from_index(index);
        self.store.delete(pid, who);
    }

    /// Destroy the entire contribution partition of campaign `index` in one
    /// operation.
    pub fn crowdfund_kill(&mut self, index: FundIndex)
        requires
            old(self).wf(),
        ensures
            final(self).wf(),
            final(self).config == old(self).config,
            final(self).deriver == old(self).deriver,
            final(self).registry == old(self).registry,
            final(self).store.part_entries(partition_of(index)) == Seq::<(u64, u64)>::empty(),
            final(self).total_contributed(index) == 0,
            forall|w: AccountId| #[trigger] final(self).contribution_spec(index, w) == 0
                && !final(self).has_contribution(index, w),
            forall|q: PartitionId|
                q != partition_of(index) ==> #[trigger] final(self).store.part_entries(q) == old(
                    self,
                ).store.part_entries(q),
    {
        let pid = self.deriver.id_from_index(index);
        self.store.destroy_partition(pid);
    }

    /// Create a new fund.
    ///
    /// Validates the window, withdraws the submission deposit from the
    /// requester into the fresh campaign's custodial account, advances the
    /// fund counter, and inserts the record. Identifier issuance and the
    /// deposit withdrawal succeed or fail as a pair: a failed create never
    /// advances the counter.
    pub fn create(
        &mut self,
        ledger: &mut Ledger,
        who: AccountId,
        cap: Balance,
        start: BlockNumber,
        end: BlockNumber,
        now: BlockNumber,
    ) -> (r: Result<Event, Error>)
        requires
            old(self).inv(),
            old(ledger).wf(),
            old(self).fund_count_spec() < u32::MAX,
        ensures
            final(self).inv(),
            final(ledger).wf(),
            final(self).config == old(self).config,
            final(self).deriver == old(self).deriver,
            create_step(*old(self), *final(self), r is Ok),
            (match old(self).create_check(start, end, now) {
                Some(e) => {
                    &&& r == Err::<Event, Error>(e)
                    &&& *final(self) == *old(self)
                    &&& *final(ledger) == *old(ledger)
                },
                None => {
                    if old(ledger).bal(who) < old(self).config.submission_deposit {
                        &&& r == Err::<Event, Error>(Error::InsufficientDeposit)
                        &&& *final(self) == *old(self)
                        &&& *final(ledger) == *old(ledger)
                    } else {
                        let id = old(self).fund_count_spec();
                        let dep = old(self).config.submission_deposit;
                        &&& r == Ok::<Event, Error>(Event::Created(id, now))
                        &&& final(self).fund_count_spec() == id + 1
                        &&& final(self).funds_spec(id) == Some(
                            fresh_record(who, dep, start, end, cap),
                        )
                        &&& forall|j: FundIndex|
                            j != id ==> final(self).funds_spec(j) == old(self).funds_spec(j)
                        &&& forall|j: FundIndex, w: AccountId| #[trigger]
                            final(self).contribution_spec(j, w) == old(self).contribution_spec(
                                j,
                                w,
                            )
                        &&& transfer_effect(
                            *old(ledger),
                            *final(ledger),
                            who,
                            old(self).fund_account(id),
                            dep,
                        )
                    }
                },
            }),
    {
        if start >= end || end <= now {
            return Err(Error::InvalidWindow);
        }
        let deposit = self.config.submission_deposit;
        match ledger.withdraw(who, deposit) {
            Err(_) => {
                return Err(Error::InsufficientDeposit);
            },
            Ok(()) => {},
        }
        let index = self.registry.next_id();
        proof {
            old(self).registry.lemma_unissued_absent(index);
            assert(old(self).funds_spec(index) is None);
            assert(old(self).store.part_entries(partition_of(index)) == Seq::<(
                u64,
                u64,
            )>::empty());
            old(self).store.lemma_empty_partition(partition_of(index));
        }
        let acct = self.deriver.fund_account_id(index);
        ledger.resolve_creating(acct, deposit);
        self.registry.put(
            index,
            FundInfo { owner: who, deposit, raised: 0, start, end, cap },
        );
        proof {
            let post = *self;
            assert forall|id: FundIndex|
                (#[trigger] post.funds_spec(id)) is Some implies record_sound(
                post.funds_spec(id)->Some_0,
            ) by {
                if id != index {
                    assert(post.funds_spec(id) == old(self).funds_spec(id));
                }
            }
            assert forall|id: FundIndex|
                (#[trigger] post.funds_spec(id)) is Some implies post.total_contributed(id)
                == post.funds_spec(id)->Some_0.raised by {
                if id == index {
                    assert(post.total_contributed(id) == 0);
                } else {
                    assert(post.funds_spec(id) == old(self).funds_spec(id));
                }
            }
            assert forall|id: FundIndex|
                (#[trigger] post.funds_spec(id)) is None implies post.store.part_entries(
                partition_of(id),
            ) == Seq::<(u64, u64)>::empty() by {
                assert(id != index);
                assert(post.funds_spec(id) == old(self).funds_spec(id));
            }
            if who == acct {
                assert(sat_add((old(ledger).bal(who) - deposit) as u64, deposit) == old(
                    ledger,
                ).bal(who));
            }
            assert(transfer_effect(*old(ledger), *ledger, who, acct, deposit));
        }
        Ok(Event::Created(index, now))
    }

    /// Contribute funds to an existing fund.
    ///
    /// Validates the amount, the campaign, the window and the cap — the cap
    /// comparison is strict: a contribution that would make `raised` exactly
    /// equal `cap` is rejected — then transfers the value from the requester
    /// to the custodial account and accumulates both the record's `raised`
    /// and the requester's partition entry, with saturating arithmetic.
    pub fn contribute(
        &mut self,
        ledger: &mut Ledger,
        who: AccountId,
        index: FundIndex,
        value: Balance,
        now: BlockNumber,
    ) -> (r: Result<Event, Error>)
        requires
            old(self).inv(),
            old(ledger).wf(),
        ensures
            final(self).inv(),
            final(ledger).wf(),
            final(self).config == old(self).config,
            final(self).deriver == old(self).deriver,
            final(self).fund_count_spec() == old(self).fund_count_spec(),
            (match old(self).contribute_check(index, value, now) {
                Some(e) => {
                    &&& r == Err::<Event, Error>(e)
                    &&& *final(self) == *old(self)
                    &&& *final(ledger) == *old(ledger)
                },
                None => {
                    let f = old(self).funds_spec(index)->Some_0;
                    let acct = old(self).fund_account(index);
                    if old(ledger).bal(who) < value {
                        &&& r == Err::<Event, Error>(
                            Error::Ledger(crate::types::LedgerError::InsufficientBalance),
                        )
                        &&& *final(self) == *old(self)
                        &&& *final(ledger) == *old(ledger)
                    } else {
                        let newbal = (old(self).contribution_spec(index, who) + value) as u64;
                        &&& r == Ok::<Event, Error>(Event::Contributed(who, index, newbal, now))
                        &&& final(self).funds_spec(index) == Some(
                            with_raised(f, (f.raised + value) as u64),
                        )
                        &&& forall|j: FundIndex|
                            j != index ==> final(self).funds_spec(j) == old(self).funds_spec(j)
                        &&& final(self).contribution_spec(index, who) == newbal
                        &&& final(self).has_contribution(index, who)
                        &&& forall|w: AccountId|
                            w != who ==> #[trigger] final(self).contribution_spec(index, w) == old(
                                self,
                            ).contribution_spec(index, w)
                        &&& forall|j: FundIndex, w: AccountId|
                            j != index ==> #[trigger] final(self).contribution_spec(j, w) == old(
                                self,
                            ).contribution_spec(j, w)
                        &&& transfer_effect(*old(ledger), *final(ledger), who, acct, value)
                    }
                },
            }),
    {
        if value < self.config.min_contribution {
            return Err(Error::ContributionTooSmall);
        }
        let f = match self.registry.get(index) {
            None => {
                return Err(Error::FundNotFound);
            },
            Some(f) => f,
        };
        proof {
            assert(old(self).funds_spec(index) == Some(f));
        }
        if now >= f.end {
            return Err(Error::ContributionWindowClosed);
        }
        if f.raised.saturating_add(value) >= f.cap {
            return Err(Error::CapExceeded);
        }
        let acct = self.deriver.fund_account_id(index);
        match ledger.transfer(who, acct, value) {
            Err(e) => {
                return Err(Error::Ledger(e));
            },
            Ok(()) => {},
        }
        let pid = self.deriver.id_from_index(index);
        let old_balance = self.store.get_or_default(pid, who);
        proof {
            kv::lemma_value_le_sum(old(self).store.part_entries(pid), who);
        }
        let new_balance = old_balance.saturating_add(value);
        self.store.put(pid, who, new_balance);
        let new_raised = f.raised.saturating_add(value);
        proof {
            if index >= old(self).registry.spec_count() {
                old(self).registry.lemma_unissued_absent(index);
            }
        }
        self.registry.put(index, FundInfo { raised: new_raised, ..f });
        proof {
            let post = *self;
            assert forall|id: FundIndex|
                (#[trigger] post.funds_spec(id)) is Some implies record_sound(
                post.funds_spec(id)->Some_0,
            ) by {
                if id != index {
                    assert(post.funds_spec(id) == old(self).funds_spec(id));
                }
            }
            assert forall|id: FundIndex|
                (#[trigger] post.funds_spec(id)) is Some implies post.total_contributed(id)
                == post.funds_spec(id)->Some_0.raised by {
                if id != index {
                    assert(post.funds_spec(id) == old(self).funds_spec(id));
                    assert(partition_of(id) != pid);
                    assert(post.store.part_entries(partition_of(id)) == old(
                        self,
                    ).store.part_entries(partition_of(id)));
                }
            }
            assert forall|id: FundIndex|
                (#[trigger] post.funds_spec(id)) is None implies post.store.part_entries(
                partition_of(id),
            ) == Seq::<(u64, u64)>::empty() by {
                assert(id != index);
                assert(post.funds_spec(id) == old(self).funds_spec(id));
                assert(partition_of(id) != pid);
                assert(post.store.part_entries(partition_of(id)) == old(self).store.part_entries(
                    partition_of(id),
                ));
            }
            assert forall|j: FundIndex, w: AccountId|
                j != index implies #[trigger] post.contribution_spec(j, w) == old(
                self,
            ).contribution_spec(j, w) by {
                assert(partition_of(j) != pid);
                assert(post.store.part_entries(partition_of(j)) == old(self).store.part_entries(
                    partition_of(j),
                ));
            }
        }
        Ok(Event::Contributed(who, index, new_balance, now))
    }

    /// Withdraw the full balance of a contributor to a fund.
    ///
    /// Only after the campaign's end: the value moves from the custodial
    /// account back to the contributor, the partition entry is deleted
    /// entirely, and the record's `raised` is decremented by the returned
    /// balance.
    pub fn withdraw(
        &mut self,
        ledger: &mut Ledger,
        who: AccountId,
        index: FundIndex,
        now: BlockNumber,
    ) -> (r: Result<Event, Error>)
        requires
            old(self).inv(),
            old(ledger).wf(),
        ensures
            final(self).inv(),
            final(ledger).wf(),
            final(self).config == old(self).config,
            final(self).deriver == old(self).deriver,
            final(self).fund_count_spec() == old(self).fund_count_spec(),
            (match old(self).withdraw_check(who, index, now) {
                Some(e) => {
                    &&& r == Err::<Event, Error>(e)
                    &&& *final(self) == *old(self)
                    &&& *final(ledger) == *old(ledger)
                },
                None => {
                    let f = old(self).funds_spec(index)->Some_0;
                    let acct = old(self).fund_account(index);
                    let bal = old(self).contribution_spec(index, who);
                    if old(ledger).bal(acct) < bal {
                        &&& r == Err::<Event, Error>(
                            Error::Ledger(crate::types::LedgerError::InsufficientBalance),
                        )
                        &&& *final(self) == *old(self)
                        &&& *final(ledger) == *old(ledger)
                    } else {
                        &&& r == Ok::<Event, Error>(Event::Withdrew(who, index, bal, now))
                        &&& final(self).funds_spec(index) == Some(
                            with_raised(f, (f.raised - bal) as u64),
                        )
                        &&& forall|j: FundIndex|
                            j != index ==> final(self).funds_spec(j) == old(self).funds_spec(j)
                        &&& final(self).contribution_spec(index, who) == 0
                        &&& !final(self).has_contribution(index, who)
                        &&& forall|w: AccountId|
                            w != who ==> #[trigger] final(self).contribution_spec(index, w) == old(
                                self,
                            ).contribution_spec(index, w)
                        &&& forall|j: FundIndex, w: AccountId|
                            j != index ==> #[trigger] final(self).contribution_spec(j, w) == old(
                                self,
                            ).contribution_spec(j, w)
                        &&& transfer_effect(*old(ledger), *final(ledger), acct, who, bal)
                    }
                },
            }),
    {
        let f = match self.registry.get(index) {
            None => {
                return Err(Error::FundNotFound);
            },
            Some(f) => f,
        };
        proof {
            assert(old(self).funds_spec(index) == Some(f));
        }
        if now <= f.end {
            return Err(Error::WithdrawalTooEarly);
        }
        let pid = self.deriver.id_from_index(index);
        let balance = self.store.get_or_default(pid, who);
        if balance == 0 {
            return Err(Error::NoContribution);
        }
        let acct = self.deriver.fund_account_id(index);
        match ledger.withdraw(acct, balance) {
            Err(e) => {
                return Err(Error::Ledger(e));
            },
            Ok(()) => {},
        }
        ledger.resolve_creating(who, balance);
        proof {
            kv::lemma_value_le_sum(old(self).store.part_entries(pid), who);
            if who == acct {
                assert(sat_add((old(ledger).bal(acct) - balance) as u64, balance) == old(
                    ledger,
                ).bal(acct));
            }
            assert(transfer_effect(*old(ledger), *ledger, acct, who, balance));
        }
        self.store.delete(pid, who);
        let new_raised = f.raised.saturating_sub(balance);
        proof {
            if index >= old(self).registry.spec_count() {
                old(self).registry.lemma_unissued_absent(index);
            }
        }
        self.registry.put(index, FundInfo { raised: new_raised, ..f });
        proof {
            let post = *self;
            assert forall|id: FundIndex|
                (#[trigger] post.funds_spec(id)) is Some implies record_sound(
                post.funds_spec(id)->Some_0,
            ) by {
                if id != index {
                    assert(post.funds_spec(id) == old(self).funds_spec(id));
                }
            }
            assert forall|id: FundIndex|
                (#[trigger] post.funds_spec(id)) is Some implies post.total_contributed(id)
                == post.funds_spec(id)->Some_0.raised by {
                if id != index {
                    assert(post.funds_spec(id) == old(self).funds_spec(id));
                    assert(partition_of(id) != pid);
                    assert(post.store.part_entries(partition_of(id)) == old(
                        self,
                    ).store.part_entries(partition_of(id)));
                }
            }
            assert forall|id: FundIndex|
                (#[trigger] post.funds_spec(id)) is None implies post.store.part_entries(
                partition_of(id),
            ) == Seq::<(u64, u64)>::empty() by {
                assert(id != index);
                assert(post.funds_spec(id) == old(self).funds_spec(id));
                assert(partition_of(id) != pid);
                assert(post.store.part_entries(partition_of(id)) == old(self).store.part_entries(
                    partition_of(id),
                ));
            }
            assert forall|j: FundIndex, w: AccountId|
                j != index implies #[trigger] post.contribution_spec(j, w) == old(
                self,
            ).contribution_spec(j, w) by {
                assert(partition_of(j) != pid);
                assert(post.store.part_entries(partition_of(j)) == old(self).store.part_entries(
                    partition_of(j),
                ));
            }
        }
        Ok(Event::Withdrew(who, index, balance, now))
    }

    /// Dissolve an entire crowdfund after its retirement period has expired.
    ///
    /// Anyone can call this, and is incentivized to: the reporter collects
    /// the whole remaining custodial balance — the deposit and whatever was
    /// never withdrawn. Contributors who missed the retirement window lose
    /// access to their entries, which are destroyed with the partition; this
    /// is deliberate economic policy.
    pub fn dissolve(
        &mut self,
        ledger: &mut Ledger,
        reporter: AccountId,
        index: FundIndex,
        now: BlockNumber,
    ) -> (r: Result<Event, Error>)
        requires
            old(self).inv(),
            old(ledger).wf(),
        ensures
            final(self).inv(),
            final(ledger).wf(),
            final(self).config == old(self).config,
            final(self).deriver == old(self).deriver,
            final(self).fund_count_spec() == old(self).fund_count_spec(),
            (match old(self).dissolve_check(index, now) {
                Some(e) => {
                    &&& r == Err::<Event, Error>(e)
                    &&& *final(self) == *old(self)
                    &&& *final(ledger) == *old(ledger)
                },
                None => {
                    let f = old(self).funds_spec(index)->Some_0;
                    let acct = old(self).fund_account(index);
                    let payout = sat_add(f.deposit, f.raised);
                    if old(ledger).bal(acct) < payout {
                        &&& r == Err::<Event, Error>(
                            Error::Ledger(crate::types::LedgerError::InsufficientBalance),
                        )
                        &&& *final(self) == *old(self)
                        &&& *final(ledger) == *old(ledger)
                    } else {
                        &&& r == Ok::<Event, Error>(Event::Dissolved(index, now, reporter))
                        &&& final(self).funds_spec(index) == None::<FundInfo>
                        &&& forall|j: FundIndex|
                            j != index ==> final(self).funds_spec(j) == old(self).funds_spec(j)
                        &&& forall|w: AccountId| #[trigger]
                            final(self).contribution_spec(index, w) == 0
                        &&& forall|j: FundIndex, w: AccountId|
                            j != index ==> #[trigger] final(self).contribution_spec(j, w) == old(
                                self,
                            ).contribution_spec(j, w)
                        &&& transfer_effect(*old(ledger), *final(ledger), acct, reporter, payout)
                    }
                },
            }),
    {
        let f = match self.registry.get(index) {
            None => {
                return Err(Error::FundNotFound);
            },
            Some(f) => f,
        };
        proof {
            assert(old(self).funds_spec(index) == Some(f));
        }
        let deadline = f.end.saturating_add(self.config.retirement_period);
        if now < deadline {
            return Err(Error::RetirementNotOver);
        }
        let payout = f.deposit.saturating_add(f.raised);
        let acct = self.deriver.fund_account_id(index);
        match ledger.withdraw(acct, payout) {
            Err(e) => {
                return Err(Error::Ledger(e));
            },
            Ok(()) => {},
        }
        ledger.resolve_creating(reporter, payout);
        proof {
            if reporter == acct {
                assert(sat_add((old(ledger).bal(acct) - payout) as u64, payout) == old(
                    ledger,
                ).bal(acct));
            }
            assert(transfer_effect(*old(ledger), *ledger, acct, reporter, payout));
        }
        self.registry.remove(index);
        let pid = self.deriver.id_from_index(index);
        self.store.destroy_partition(pid);
        proof {
            let post = *self;
            assert forall|id: FundIndex|
                (#[trigger] post.funds_spec(id)) is Some implies record_sound(
                post.funds_spec(id)->Some_0,
            ) by {
                if id != index {
                    assert(post.funds_spec(id) == old(self).funds_spec(id));
                }
            }
            assert forall|id: FundIndex|
                (#[trigger] post.funds_spec(id)) is Some implies post.total_contributed(id)
                == post.funds_spec(id)->Some_0.raised by {
                assert(id != index);
                assert(post.funds_spec(id) == old(self).funds_spec(id));
                assert(partition_of(id) != pid);
                assert(post.store.part_entries(partition_of(id)) == old(self).store.part_entries(
                    partition_of(id),
                ));
            }
            assert forall|id: FundIndex|
                (#[trigger] post.funds_spec(id)) is None implies post.store.part_entries(
                partition_of(id),
            ) == Seq::<(u64, u64)>::empty() by {
                if id != index {
                    assert(post.funds_spec(id) == old(self).funds_spec(id));
                    assert(partition_of(id) != pid);
                    assert(post.store.part_entries(partition_of(id)) == old(
                        self,
                    ).store.part_entries(partition_of(id)));
                }
            }
            assert forall|j: FundIndex, w: AccountId|
                j != index implies #[trigger] post.contribution_spec(j, w) == old(
                self,
            ).contribution_spec(j, w) by {
                assert(partition_of(j) != pid);
                assert(post.store.part_entries(partition_of(j)) == old(self).store.part_entries(
                    partition_of(j),
                ));
            }
        }
        Ok(Event::Dissolved(index, now, reporter))
    }
}

/// How one `create` call, successful or not, relates the engine before the
/// call to the engine after it: a success advances the fund counter by
/// exactly one, a failure leaves the engine untouched. Every `create` call
/// ensures this of itself.
pub open spec fn create_step(
    pre: CrowdfundEngine,
    post: CrowdfundEngine,
    succeeded: bool,
) -> bool {
    if succeeded {
        post.fund_count_spec() == pre.fund_count_spec() + 1
    } else {
        post == pre
    }
}

/// The number of successful calls in a sequence of outcomes.
pub open spec fn successes(outcomes: Seq<bool>) -> int
    decreases outcomes.len(),
{
    if outcomes.len() == 0 {
        0
    } else {
        successes(outcomes.drop_last()) + if outcomes.last() {
            1int
        } else {
            0int
        }
    }
}

/// After any sequence of `create` calls — `states` the engine before, between
/// and after them, `outcomes` whether each returned `Ok` — the fund counter
/// has advanced by exactly the number of successful calls: interleaved failed
/// calls never advance it.
pub proof fn lemma_fund_count_tracks_creates(states: Seq<CrowdfundEngine>, outcomes: Seq<bool>)
    requires
        states.len() == outcomes.len() + 1,
        forall|i: int|
            0 <= i < outcomes.len() ==> create_step(
                #[trigger] states[i],
                states[i + 1],
                outcomes[i],
            ),
    ensures
        states.last().fund_count_spec() == states[0].fund_count_spec() + successes(outcomes),
    decreases outcomes.len(),
{
    if outcomes.len() > 0 {
        let n = outcomes.len() as int;
        assert forall|i: int|
            0 <= i < outcomes.drop_last().len() implies create_step(
            #[trigger] states.drop_last()[i],
            states.drop_last()[i + 1],
            outcomes.drop_last()[i],
        ) by {
            assert(states.drop_last()[i] == states[i]);
            assert(states.drop_last()[i + 1] == states[i + 1]);
            assert(outcomes.drop_last()[i] == outcomes[i]);
        }
        lemma_fund_count_tracks_creates(states.drop_last(), outcomes.drop_last());
        assert(states.drop_last().last() == states[n - 1]);
        assert(create_step(states[n - 1], states[n], outcomes[n - 1]));
    }
}

/// A concrete parameterisation of the engine for exercising it: fixed
/// values for the deposit, the minimum contribution, the retirement period
/// and the module identifier, and a builder for an engine configured with
/// them.
pub struct TestRuntime;

impl TestRuntime {
    /// The fixed parameters of this runtime.
    pub fn config() -> (r: Config)
        ensures
            r == (Config { submission_deposit: 10, min_contribution: 1, retirement_period: 5 }),
    {
        Config { submission_deposit: 10, min_contribution: 1, retirement_period: 5 }
    }

    /// The fixed module identifier of this runtime.
    pub fn module_id() -> (r: u32)
        ensures
            r == 7,
    {
        7
    }

    /// A fresh engine under this runtime's parameters.
    pub fn build() -> (r: CrowdfundEngine)
        ensures
            r.inv(),
            r.config == (Config { submission_deposit: 10, min_contribution: 1, retirement_period: 5 }),
            r.deriver.spec_module_id() == 7,
            r.fund_count_spec() == 0,
            forall|id: FundIndex| r.funds_spec(id) == None::<FundInfo>,
            forall|id: FundIndex, w: AccountId| #[trigger] r.contribution_spec(id, w) == 0,
    {
        CrowdfundEngine::new(Self::config(), Self::module_id())
    }
}

/// A successful withdrawal deletes the contributor's partition entry
/// outright, so a second withdrawal by the same contributor, with no
/// contribution in between, is rejected for want of a recorded balance —
/// whatever the current time past the campaign's end.
pub proof fn lemma_no_second_withdraw(
    post: CrowdfundEngine,
    who: AccountId,
    index: FundIndex,
    now: BlockNumber,
)
    requires
        post.funds_spec(index) is Some,
        post.contribution_spec(index, who) == 0,
        now > post.funds_spec(index)->Some_0.end,
    ensures
        post.withdraw_check(who, index, now) == Some(Error::NoContribution),
{
}

} // verus!
