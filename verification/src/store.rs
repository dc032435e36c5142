//! The partitioned key/value store holding contributor balances.
//!
//! Each partition is a fully isolated keyed region: keys in one partition
//! are invisible to and cannot collide with keys in another. The store
//! supports per-entry put/get/delete and whole-region destroy; absent keys
//! yield the zero value.

use crate::deriver::PartitionId;
use crate::kv;
use vstd::assert_seqs_equal;
use vstd::prelude::*;

verus! {

/// The store: one entry vector per partition identifier.
pub struct PartitionedStore {
    /// The partitions, keyed by identifier.
    pub parts: Vec<(PartitionId, Vec<(u64, u64)>)>,
}

impl PartitionedStore {
    /// The entries of partition `pid`; an absent partition is empty.
    pub open spec fn part_entries(self, pid: PartitionId) -> Seq<(u64, u64)> {
        match kv::lookup(self.parts@, pid) {
            Some(v) => v@,
            None => Seq::empty(),
        }
    }

    /// Well-formed: one region per identifier, one entry per key.
    pub open spec fn wf(self) -> bool {
        &&& kv::unique_keys(self.parts@)
        &&& forall|pid: PartitionId| kv::unique_keys(#[trigger] self.part_entries(pid))
    }

    /// The amount stored in partition `pid` under `who`; absence is zero.
    pub open spec fn entry_of(self, pid: PartitionId, who: u64) -> u64 {
        kv::value_or_zero(self.part_entries(pid), who)
    }

    /// Whether partition `pid` holds an entry for `who` at all.
    pub open spec fn has_entry(self, pid: PartitionId, who: u64) -> bool {
        kv::lookup(self.part_entries(pid), who) is Some
    }

    /// The sum of all amounts stored in partition `pid`.
    pub open spec fn total_of(self, pid: PartitionId) -> int {
        kv::sum_amounts(self.part_entries(pid))
    }

    /// An empty store: every partition is empty.
    pub fn new() -> (r: PartitionedStore)
        ensures
            r.wf(),
            forall|pid: PartitionId| #[trigger] r.part_entries(pid) == Seq::<(u64, u64)>::empty(),
    {
        let s = PartitionedStore { parts: Vec::new() };
        proof {
            assert forall|pid: PartitionId| #[trigger]
                s.part_entries(pid) == Seq::<(u64, u64)>::empty() by {
                assert(s.parts@.len() == 0);
            }
        }
        s
    }

    /// An empty partition binds nothing and sums to zero.
    pub proof fn lemma_empty_partition(self, pid: PartitionId)
        requires
            self.part_entries(pid) == Seq::<(u64, u64)>::empty(),
        ensures
            self.total_of(pid) == 0,
            forall|w: u64| #[trigger] self.entry_of(pid, w) == 0 && !self.has_entry(pid, w),
    {
        assert(self.part_entries(pid).len() == 0);
        assert forall|w: u64| #[trigger] self.entry_of(pid, w) == 0 && !self.has_entry(pid, w) by {
            assert(kv::lookup(self.part_entries(pid), w) == None::<u64>);
        }
    }

    fn find(&self, pid: PartitionId) -> (r: Option<usize>)
        ensures
            match r {
                Some(i) => i < self.parts@.len() && self.parts@[i as int].0 == pid,
                None => forall|j: int| 0 <= j < self.parts@.len() ==> self.parts@[j].0 != pid,
            },
    {
        let n = self.parts.len();
        let mut idx: usize = 0;
        while idx < n
            invariant
                idx <= n,
                n == self.parts@.len(),
                forall|j: int| 0 <= j < idx ==> self.parts@[j].0 != pid,
            decreases n - idx,
        {
            if self.parts[idx].0 == pid {
                return Some(idx);
            }
            idx += 1;
        }
        None
    }

    /// The amount stored under `who` in partition `pid`. Never fails; absent
    /// keys and absent partitions yield zero.
    pub fn get_or_default(&self, pid: PartitionId, who: u64) -> (r: u64)
        requires
            self.wf(),
        ensures
            r == self.entry_of(pid, who),
    {
        match self.find(pid) {
            Some(i) => {
                proof {
                    kv::lemma_lookup_at(self.parts@, i as int);
                    assert(self.part_entries(pid) == self.parts@[i as int].1@);
                }
                match kv::get_value(&self.parts[i].1, who) {
                    Some(v) => v,
                    None => 0,
                }
            },
            None => {
                proof {
                    kv::lemma_lookup_absent(self.parts@, pid);
                }
                0
            },
        }
    }

    /// Insert or overwrite the entry of `who` in partition `pid`, creating
    /// the partition if need be. Every other entry, and every other
    /// partition, is untouched.
    pub fn put(&mut self, pid: PartitionId, who: u64, amount: u64)
        requires
            old(self).wf(),
        ensures
            final(self).wf(),
            final(self).entry_of(pid, who) == amount,
            final(self).has_entry(pid, who),
            forall|w: u64|
                w != who ==> #[trigger] final(self).entry_of(pid, w) == old(self).entry_of(pid, w)
                    && final(self).has_entry(pid, w) == old(self).has_entry(pid, w),
            final(self).total_of(pid) == old(self).total_of(pid) - old(self).entry_of(pid, who)
                + amount,
            forall|q: PartitionId|
                q != pid ==> #[trigger] final(self).part_entries(q) == old(self).part_entries(q),
    {
        let ghost p0 = self.parts@;
        match self.find(pid) {
            Some(i) => {
                proof {
                    kv::lemma_lookup_at(p0, i as int);
                    assert(old(self).part_entries(pid) == p0[i as int].1@);
                }
                let mut part = self.parts.remove(i);
                kv::put_value(&mut part.1, who, amount);
                let ghost v2 = part.1;
                self.parts.insert(i, part);
                proof {
                    assert(self.parts@ == p0.remove(i as int).insert(i as int, (pid, v2)));
                    assert_seqs_equal!(self.parts@ == p0.update(i as int, (pid, v2)));
                    kv::lemma_lookup_update(p0, i as int, v2);
                    assert(final(self).part_entries(pid) == v2@);
                    assert forall|q: PartitionId|
                        q != pid implies #[trigger] final(self).part_entries(q) == old(
                        self,
                    ).part_entries(q) by {
                        assert(kv::lookup(self.parts@, q) == kv::lookup(p0, q));
                    }
                }
            },
            None => {
                proof {
                    kv::lemma_lookup_absent(p0, pid);
                    assert(old(self).part_entries(pid) == Seq::<(u64, u64)>::empty());
                    old(self).lemma_empty_partition(pid);
                }
                let mut entries: Vec<(u64, u64)> = Vec::new();
                kv::put_value(&mut entries, who, amount);
                let ghost v2 = entries;
                self.parts.push((pid, entries));
                proof {
                    kv::lemma_lookup_push(p0, pid, v2);
                    assert(final(self).part_entries(pid) == v2@);
                    kv::lemma_sum_push(Seq::<(u64, u64)>::empty(), (who, amount));
                    assert forall|q: PartitionId|
                        q != pid implies #[trigger] final(self).part_entries(q) == old(
                        self,
                    ).part_entries(q) by {
                        assert(kv::lookup(self.parts@, q) == kv::lookup(p0, q));
                    }
                }
            },
        }
    }

    /// Delete the entry of `who` in partition `pid` entirely — not merely
    /// zeroed. Every other entry, and every other partition, is untouched.
    pub fn delete(&mut self, pid: PartitionId, who: u64)
        requires
            old(self).wf(),
        ensures
            final(self).wf(),
            final(self).entry_of(pid, who) == 0,
            !final(self).has_entry(pid, who),
            forall|w: u64|
                w != who ==> #[trigger] final(self).entry_of(pid, w) == old(self).entry_of(pid, w)
                    && final(self).has_entry(pid, w) == old(self).has_entry(pid, w),
            final(self).total_of(pid) == old(self).total_of(pid) - old(self).entry_of(pid, who),
            forall|q: PartitionId|
                q != pid ==> #[trigger] final(self).part_entries(q) == old(self).part_entries(q),
    {
        let ghost p0 = self.parts@;
        match self.find(pid) {
            Some(i) => {
                proof {
                    kv::lemma_lookup_at(p0, i as int);
                    assert(old(self).part_entries(pid) == p0[i as int].1@);
                }
                let mut part = self.parts.remove(i);
                kv::remove_key(&mut part.1, who);
                let ghost v2 = part.1;
                self.parts.insert(i, part);
                proof {
                    assert(self.parts@ == p0.remove(i as int).insert(i as int, (pid, v2)));
                    assert_seqs_equal!(self.parts@ == p0.update(i as int, (pid, v2)));
                    kv::lemma_lookup_update(p0, i as int, v2);
                    assert(final(self).part_entries(pid) == v2@);
                    assert forall|q: PartitionId|
                        q != pid implies #[trigger] final(self).part_entries(q) == old(
                        self,
                    ).part_entries(q) by {
                        assert(kv::lookup(self.parts@, q) == kv::lookup(p0, q));
                    }
                }
            },
            None => {
                proof {
                    kv::lemma_lookup_absent(p0, pid);
                    assert(old(self).part_entries(pid) == Seq::<(u64, u64)>::empty());
                    old(self).lemma_empty_partition(pid);
                }
            },
        }
    }

    /// Remove every entry of partition `pid` in one operation. Every other
    /// partition is untouched.
    pub fn destroy_partition(&mut self, pid: PartitionId)
        requires
            old(self).wf(),
        ensures
            final(self).wf(),
            final(self).part_entries(pid) == Seq::<(u64, u64)>::empty(),
            final(self).total_of(pid) == 0,
            forall|w: u64| #[trigger] final(self).entry_of(pid, w) == 0
                && !final(self).has_entry(pid, w),
            forall|q: PartitionId|
                q != pid ==> #[trigger] final(self).part_entries(q) == old(self).part_entries(q),
    {
        let ghost p0 = self.parts@;
        match self.find(pid) {
            Some(i) => {
                proof {
                    kv::lemma_lookup_at(p0, i as int);
                    kv::lemma_lookup_remove(p0, i as int);
                }
                self.parts.remove(i);
                proof {
                    assert(kv::lookup(self.parts@, pid) == None::<Vec<(u64, u64)>>);
                    final(self).lemma_empty_partition(pid);
                    assert forall|q: PartitionId|
                        q != pid implies #[trigger] final(self).part_entries(q) == old(
                        self,
                    ).part_entries(q) by {
                        assert(kv::lookup(self.parts@, q) == kv::lookup(p0, q));
                    }
                }
            },
            None => {
                proof {
                    kv::lemma_lookup_absent(p0, pid);
                    final(self).lemma_empty_partition(pid);
                }
            },
        }
    }
}

} // verus!
