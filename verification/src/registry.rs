//! The fund registry: the authoritative mapping of campaign identifier to
//! campaign record, and the owner of the monotonic identifier counter.

use crate::kv;
use crate::types::{FundIndex, FundInfo};
use vstd::prelude::*;

verus! {

/// Campaign records keyed by their identifier; identifiers are issued by a
/// counter that never revisits a previously issued value.
pub struct FundRegistry {
    /// The identifier counter.
    pub count: u32,
    /// The records, keyed by identifier.
    pub funds: Vec<(u32, FundInfo)>,
}

impl FundRegistry {
    /// Well-formed: one record per identifier, and no record beyond the
    /// counter — every held identifier was issued.
    pub open spec fn wf(self) -> bool {
        &&& kv::unique_keys(self.funds@)
        &&& forall|i: int| 0 <= i < self.funds@.len() ==> (#[trigger] self.funds@[i]).0 < self.count
    }

    /// The record of campaign `id`, if any.
    pub open spec fn spec_get(self, id: FundIndex) -> Option<FundInfo> {
        kv::lookup(self.funds@, id)
    }

    /// The current counter value: the number source of the next fresh id.
    pub open spec fn spec_count(self) -> u32 {
        self.count
    }

    /// An empty registry with the counter at zero.
    pub fn new() -> (r: FundRegistry)
        ensures
            r.wf(),
            r.spec_count() == 0,
            forall|id: FundIndex| r.spec_get(id) == None::<FundInfo>,
    {
        let r = FundRegistry { count: 0, funds: Vec::new() };
        proof {
            assert forall|id: FundIndex| r.spec_get(id) == None::<FundInfo> by {
                assert(r.funds@.len() == 0);
            }
        }
        r
    }

    fn find(&self, id: FundIndex) -> (r: Option<usize>)
        ensures
            match r {
                Some(i) => i < self.funds@.len() && self.funds@[i as int].0 == id,
                None => forall|j: int| 0 <= j < self.funds@.len() ==> self.funds@[j].0 != id,
            },
    {
        let n = self.funds.len();
        let mut idx: usize = 0;
        while idx < n
            invariant
                idx <= n,
                n == self.funds@.len(),
                forall|j: int| 0 <= j < idx ==> self.funds@[j].0 != id,
            decreases n - idx,
        {
            if self.funds[idx].0 == id {
                return Some(idx);
            }
            idx += 1;
        }
        None
    }

    /// The record of campaign `id`. A non-existent id yields absence, not an
    /// error.
    pub fn get(&self, id: FundIndex) -> (r: Option<FundInfo>)
        requires
            self.wf(),
        ensures
            r == self.spec_get(id),
    {
        match self.find(id) {
            Some(i) => {
                proof {
                    kv::lemma_lookup_at(self.funds@, i as int);
                }
                Some(self.funds[i].1)
            },
            None => {
                proof {
                    kv::lemma_lookup_absent(self.funds@, id);
                }
                None
            },
        }
    }

    /// Insert or replace the record of campaign `id`. Only issued
    /// identifiers may be bound, which keeps every held id below the counter.
    pub fn put(&mut self, id: FundIndex, info: FundInfo)
        requires
            old(self).wf(),
            id < old(self).spec_count(),
        ensures
            final(self).wf(),
            final(self).spec_count() == old(self).spec_count(),
            final(self).spec_get(id) == Some(info),
            forall|j: FundIndex| j != id ==> final(self).spec_get(j) == old(self).spec_get(j),
    {
        match self.find(id) {
            Some(i) => {
                proof {
                    kv::lemma_lookup_update(self.funds@, i as int, info);
                }
                self.funds[i] = (id, info);
                proof {
                    assert forall|i2: int|
                        0 <= i2 < self.funds@.len() implies (#[trigger] self.funds@[i2]).0
                        < self.count by {
                        assert(self.funds@[i2].0 == old(self).funds@[i2].0);
                    }
                }
            },
            None => {
                proof {
                    kv::lemma_lookup_absent(self.funds@, id);
                    kv::lemma_lookup_push(self.funds@, id, info);
                }
                self.funds.push((id, info));
                proof {
                    assert forall|i2: int|
                        0 <= i2 < self.funds@.len() implies (#[trigger] self.funds@[i2]).0
                        < self.count by {
                        if i2 < self.funds@.len() - 1 {
                            assert(self.funds@[i2] == old(self).funds@[i2]);
                        }
                    }
                }
            },
        }
    }

    /// Remove the record of campaign `id`, if present.
    pub fn remove(&mut self, id: FundIndex)
        requires
            old(self).wf(),
        ensures
            final(self).wf(),
            final(self).spec_count() == old(self).spec_count(),
            final(self).spec_get(id) == None::<FundInfo>,
            forall|j: FundIndex| j != id ==> final(self).spec_get(j) == old(self).spec_get(j),
    {
        match self.find(id) {
            Some(i) => {
                proof {
                    kv::lemma_lookup_remove(self.funds@, i as int);
                }
                self.funds.remove(i);
                proof {
                    assert forall|i2: int|
                        0 <= i2 < self.funds@.len() implies (#[trigger] self.funds@[i2]).0
                        < self.count by {
                        assert(self.funds@[i2] == if i2 < i as int {
                            old(self).funds@[i2]
                        } else {
                            old(self).funds@[i2 + 1]
                        });
                    }
                }
            },
            None => {
                proof {
                    kv::lemma_lookup_absent(self.funds@, id);
                }
            },
        }
    }

    /// Return the current counter value and atomically advance it by one.
    pub fn next_id(&mut self) -> (r: FundIndex)
        requires
            old(self).wf(),
            old(self).spec_count() < u32::MAX,
        ensures
            final(self).wf(),
            r == old(self).spec_count(),
            final(self).spec_count() == old(self).spec_count() + 1,
            forall|j: FundIndex| final(self).spec_get(j) == old(self).spec_get(j),
    {
        let id = self.count;
        self.count = self.count + 1;
        id
    }

    /// The total number of campaigns allocated so far.
    pub fn fund_count(&self) -> (r: FundIndex)
        ensures
            r == self.spec_count(),
    {
        self.count
    }

    /// Identifiers the counter has not issued yet hold no record.
    pub proof fn lemma_unissued_absent(self, id: FundIndex)
        requires
            self.wf(),
            id >= self.spec_count(),
        ensures
            self.spec_get(id) == None::<FundInfo>,
    {
        assert forall|i: int| 0 <= i < self.funds@.len() implies self.funds@[i].0 != id by {
            assert(self.funds@[i].0 < self.count);
        }
        kv::lemma_lookup_absent(self.funds@, id);
    }
}

} // verus!
