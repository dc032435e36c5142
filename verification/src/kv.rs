//! Association-list maps with unique keys.
//!
//! Every persistent structure of this crate — the ledger's balances, the fund
//! registry, and the partitioned contribution store — is a vector of
//! key/value pairs whose keys are pairwise distinct. This module gives the
//! common specification vocabulary (`lookup`, `unique_keys`, `sum_amounts`),
//! the lemmas connecting vector edits to those spec functions, and the
//! executable helpers shared by the structures with `u64` keys and values.

use vstd::assert_seqs_equal;
use vstd::prelude::*;

verus! {

/// The value stored under key `k`, if any. The list is read from the back,
/// but with unique keys the position of an entry never matters.
pub open spec fn lookup<K, V>(s: Seq<(K, V)>, k: K) -> Option<V>
    decreases s.len(),
{
    if s.len() == 0 {
        None
    } else if s.last().0 == k {
        Some(s.last().1)
    } else {
        lookup(s.drop_last(), k)
    }
}

/// No key occurs twice.
pub open spec fn unique_keys<K, V>(s: Seq<(K, V)>) -> bool {
    forall|i: int, j: int| 0 <= i < j < s.len() ==> s[i].0 != s[j].0
}

/// The value stored under `k`, where an absent key stands for zero.
pub open spec fn value_or_zero(s: Seq<(u64, u64)>, k: u64) -> u64 {
    match lookup(s, k) {
        Some(v) => v,
        None => 0,
    }
}

/// The sum of all stored values, as an unbounded integer.
pub open spec fn sum_amounts(s: Seq<(u64, u64)>) -> int
    decreases s.len(),
{
    if s.len() == 0 {
        0
    } else {
        sum_amounts(s.drop_last()) + s.last().1
    }
}

pub proof fn lemma_unique_drop_last<K, V>(s: Seq<(K, V)>)
    requires
        s.len() > 0,
        unique_keys(s),
    ensures
        unique_keys(s.drop_last()),
{
    assert forall|i: int, j: int|
        0 <= i < j < s.drop_last().len() implies s.drop_last()[i].0 != s.drop_last()[j].0 by {
        assert(s.drop_last()[i] == s[i]);
        assert(s.drop_last()[j] == s[j]);
    }
}

/// An entry present at some index is what `lookup` finds.
pub proof fn lemma_lookup_at<K, V>(s: Seq<(K, V)>, i: int)
    requires
        unique_keys(s),
        0 <= i < s.len(),
    ensures
        lookup(s, s[i].0) == Some(s[i].1),
    decreases s.len(),
{
    if i == s.len() - 1 {
        assert(s.last() == s[i]);
    } else {
        assert(s.last() == s[s.len() - 1]);
        assert(s.last().0 != s[i].0);
        lemma_unique_drop_last(s);
        assert(s.drop_last()[i] == s[i]);
        lemma_lookup_at(s.drop_last(), i);
    }
}

/// A key held by no entry is not found.
pub proof fn lemma_lookup_absent<K, V>(s: Seq<(K, V)>, k: K)
    requires
        forall|i: int| 0 <= i < s.len() ==> s[i].0 != k,
    ensures
        lookup(s, k) == None::<V>,
    decreases s.len(),
{
    if s.len() > 0 {
        assert(s.last() == s[s.len() - 1]);
        assert forall|i: int|
            0 <= i < s.drop_last().len() implies s.drop_last()[i].0 != k by {
            assert(s.drop_last()[i] == s[i]);
        }
        lemma_lookup_absent(s.drop_last(), k);
    }
}

/// A key that is not found is held by no entry.
pub proof fn lemma_lookup_none_at<K, V>(s: Seq<(K, V)>, k: K)
    requires
        lookup(s, k) == None::<V>,
    ensures
        forall|i: int| 0 <= i < s.len() ==> s[i].0 != k,
    decreases s.len(),
{
    if s.len() > 0 {
        assert(s.last() == s[s.len() - 1]);
        lemma_lookup_none_at(s.drop_last(), k);
        assert forall|i: int| 0 <= i < s.len() implies s[i].0 != k by {
            if i < s.len() - 1 {
                assert(s.drop_last()[i] == s[i]);
            }
        }
    }
}

/// Overwriting the value at index `i` changes that key's binding and no other.
pub proof fn lemma_lookup_update<K, V>(s: Seq<(K, V)>, i: int, v2: V)
    requires
        unique_keys(s),
        0 <= i < s.len(),
    ensures
        unique_keys(s.update(i, (s[i].0, v2))),
        lookup(s.update(i, (s[i].0, v2)), s[i].0) == Some(v2),
        forall|k2: K|
            k2 != s[i].0 ==> lookup(s.update(i, (s[i].0, v2)), k2) == lookup(s, k2),
    decreases s.len(),
{
    let k = s[i].0;
    let s2 = s.update(i, (k, v2));
    assert forall|a: int, b: int| 0 <= a < b < s2.len() implies s2[a].0 != s2[b].0 by {
        assert(s2[a].0 == s[a].0);
        assert(s2[b].0 == s[b].0);
    }
    if i == s.len() - 1 {
        assert(s2.last() == (k, v2));
        assert_seqs_equal!(s2.drop_last() == s.drop_last());
        assert(s.last() == s[i]);
        assert forall|k2: K| k2 != k implies lookup(s2, k2) == lookup(s, k2) by {
            assert(lookup(s2, k2) == lookup(s2.drop_last(), k2));
            assert(lookup(s, k2) == lookup(s.drop_last(), k2));
        }
    } else {
        assert(s2.last() == s.last());
        assert_seqs_equal!(s2.drop_last() == s.drop_last().update(i, (k, v2)));
        lemma_unique_drop_last(s);
        assert(s.drop_last()[i] == s[i]);
        lemma_lookup_update(s.drop_last(), i, v2);
        assert(s.last() == s[s.len() - 1]);
        assert(s.last().0 != k);
        assert(lookup(s2, k) == lookup(s2.drop_last(), k));
        assert(lookup(s2, k) == Some(v2));
        assert forall|k2: K| k2 != k implies lookup(s2, k2) == lookup(s, k2) by {
            if k2 != s.last().0 {
                assert(lookup(s2, k2) == lookup(s2.drop_last(), k2));
                assert(lookup(s, k2) == lookup(s.drop_last(), k2));
            }
        }
    }
}

/// Appending a fresh key binds it and disturbs no other binding.
pub proof fn lemma_lookup_push<K, V>(s: Seq<(K, V)>, k: K, v: V)
    requires
        unique_keys(s),
        lookup(s, k) == None::<V>,
    ensures
        unique_keys(s.push((k, v))),
        lookup(s.push((k, v)), k) == Some(v),
        forall|k2: K| k2 != k ==> lookup(s.push((k, v)), k2) == lookup(s, k2),
{
    let s2 = s.push((k, v));
    lemma_lookup_none_at(s, k);
    assert forall|a: int, b: int| 0 <= a < b < s2.len() implies s2[a].0 != s2[b].0 by {
        assert(s2[a] == s[a]);
        if b < s2.len() - 1 {
            assert(s2[b] == s[b]);
        } else {
            assert(s2[b] == (k, v));
        }
    }
    assert(s2.last() == (k, v));
    assert_seqs_equal!(s2.drop_last() == s);
}

/// Removing the entry at index `i` unbinds its key and no other.
pub proof fn lemma_lookup_remove<K, V>(s: Seq<(K, V)>, i: int)
    requires
        unique_keys(s),
        0 <= i < s.len(),
    ensures
        unique_keys(s.remove(i)),
        lookup(s.remove(i), s[i].0) == None::<V>,
        forall|k2: K| k2 != s[i].0 ==> lookup(s.remove(i), k2) == lookup(s, k2),
    decreases s.len(),
{
    let k = s[i].0;
    let s2 = s.remove(i);
    assert forall|a: int, b: int| 0 <= a < b < s2.len() implies s2[a].0 != s2[b].0 by {
        assert(s2[a] == if a < i { s[a] } else { s[a + 1] });
        assert(s2[b] == if b < i { s[b] } else { s[b + 1] });
    }
    assert forall|j: int| 0 <= j < s2.len() implies s2[j].0 != k by {
        assert(s2[j] == if j < i { s[j] } else { s[j + 1] });
    }
    lemma_lookup_absent(s2, k);
    if i == s.len() - 1 {
        assert_seqs_equal!(s2 == s.drop_last());
        assert(s.last() == s[i]);
        assert forall|k2: K| k2 != k implies lookup(s2, k2) == lookup(s, k2) by {
            assert(lookup(s, k2) == lookup(s.drop_last(), k2));
        }
    } else {
        assert(s2.last() == s[s.len() - 1]);
        assert(s2.last() == s.last());
        assert_seqs_equal!(s2.drop_last() == s.drop_last().remove(i));
        lemma_unique_drop_last(s);
        assert(s.drop_last()[i] == s[i]);
        lemma_lookup_remove(s.drop_last(), i);
        assert forall|k2: K| k2 != k implies lookup(s2, k2) == lookup(s, k2) by {
            if k2 != s.last().0 {
                assert(lookup(s2, k2) == lookup(s2.drop_last(), k2));
                assert(lookup(s, k2) == lookup(s.drop_last(), k2));
            }
        }
    }
}

/// A sum of unsigned amounts is never negative.
pub proof fn lemma_sum_nonneg(s: Seq<(u64, u64)>)
    ensures
        sum_amounts(s) >= 0,
    decreases s.len(),
{
    if s.len() > 0 {
        lemma_sum_nonneg(s.drop_last());
    }
}

/// Appending an entry grows the sum by its amount.
pub proof fn lemma_sum_push(s: Seq<(u64, u64)>, e: (u64, u64))
    ensures
        sum_amounts(s.push(e)) == sum_amounts(s) + e.1,
{
    assert(s.push(e).last() == e);
    assert_seqs_equal!(s.push(e).drop_last() == s);
}

/// Overwriting the entry at index `i` shifts the sum by the difference.
pub proof fn lemma_sum_update(s: Seq<(u64, u64)>, i: int, e: (u64, u64))
    requires
        0 <= i < s.len(),
    ensures
        sum_amounts(s.update(i, e)) == sum_amounts(s) - s[i].1 + e.1,
    decreases s.len(),
{
    let s2 = s.update(i, e);
    if i == s.len() - 1 {
        assert(s2.last() == e);
        assert(s.last() == s[i]);
        assert_seqs_equal!(s2.drop_last() == s.drop_last());
    } else {
        assert(s2.last() == s.last());
        assert_seqs_equal!(s2.drop_last() == s.drop_last().update(i, e));
        assert(s.drop_last()[i] == s[i]);
        lemma_sum_update(s.drop_last(), i, e);
    }
}

/// Removing the entry at index `i` shrinks the sum by its amount.
pub proof fn lemma_sum_remove(s: Seq<(u64, u64)>, i: int)
    requires
        0 <= i < s.len(),
    ensures
        sum_amounts(s.remove(i)) == sum_amounts(s) - s[i].1,
    decreases s.len(),
{
    let s2 = s.remove(i);
    if i == s.len() - 1 {
        assert(s.last() == s[i]);
        assert_seqs_equal!(s2 == s.drop_last());
    } else {
        assert(s2.last() == s2[s2.len() - 1]);
        assert(s2[s2.len() - 1] == s[s.len() - 1]);
        assert(s2.last() == s.last());
        assert_seqs_equal!(s2.drop_last() == s.drop_last().remove(i));
        assert(s.drop_last()[i] == s[i]);
        lemma_sum_remove(s.drop_last(), i);
    }
}

/// No single binding exceeds the sum of all of them.
pub proof fn lemma_value_le_sum(s: Seq<(u64, u64)>, k: u64)
    ensures
        0 <= sum_amounts(s),
        value_or_zero(s, k) <= sum_amounts(s),
    decreases s.len(),
{
    lemma_sum_nonneg(s);
    if s.len() > 0 {
        lemma_value_le_sum(s.drop_last(), k);
        lemma_sum_nonneg(s.drop_last());
    }
}

/// Position of the entry holding key `k`, scanning from the front.
pub fn find_key(v: &Vec<(u64, u64)>, k: u64) -> (r: Option<usize>)
    ensures
        match r {
            Some(i) => i < v@.len() && v@[i as int].0 == k,
            None => forall|j: int| 0 <= j < v@.len() ==> v@[j].0 != k,
        },
{
    let n = v.len();
    let mut idx: usize = 0;
    while idx < n
        invariant
            idx <= n,
            n == v@.len(),
            forall|j: int| 0 <= j < idx ==> v@[j].0 != k,
        decreases n - idx,
    {
        if v[idx].0 == k {
            return Some(idx);
        }
        idx += 1;
    }
    None
}

/// The binding of `k`, if any.
pub fn get_value(v: &Vec<(u64, u64)>, k: u64) -> (r: Option<u64>)
    requires
        unique_keys(v@),
    ensures
        r == lookup(v@, k),
{
    match find_key(v, k) {
        Some(i) => {
            proof {
                lemma_lookup_at(v@, i as int);
            }
            Some(v[i].1)
        },
        None => {
            proof {
                lemma_lookup_absent(v@, k);
            }
            None
        },
    }
}

/// Insert-or-overwrite the binding of `k`.
pub fn put_value(v: &mut Vec<(u64, u64)>, k: u64, val: u64)
    requires
        unique_keys(old(v)@),
    ensures
        unique_keys(final(v)@),
        lookup(final(v)@, k) == Some(val),
        forall|k2: u64| k2 != k ==> lookup(final(v)@, k2) == lookup(old(v)@, k2),
        sum_amounts(final(v)@) == sum_amounts(old(v)@) - value_or_zero(old(v)@, k) + val,
{
    match find_key(v, k) {
        Some(i) => {
            proof {
                lemma_lookup_at(v@, i as int);
                lemma_lookup_update(v@, i as int, val);
                lemma_sum_update(v@, i as int, (k, val));
            }
            v[i] = (k, val);
        },
        None => {
            proof {
                lemma_lookup_absent(v@, k);
                lemma_lookup_push(v@, k, val);
                lemma_sum_push(v@, (k, val));
            }
            v.push((k, val));
        },
    }
}

/// Remove the binding of `k` entirely, if present.
pub fn remove_key(v: &mut Vec<(u64, u64)>, k: u64)
    requires
        unique_keys(old(v)@),
    ensures
        unique_keys(final(v)@),
        lookup(final(v)@, k) == None::<u64>,
        forall|k2: u64| k2 != k ==> lookup(final(v)@, k2) == lookup(old(v)@, k2),
        sum_amounts(final(v)@) == sum_amounts(old(v)@) - value_or_zero(old(v)@, k),
{
    match find_key(v, k) {
        Some(i) => {
            proof {
                lemma_lookup_at(v@, i as int);
                lemma_lookup_remove(v@, i as int);
                lemma_sum_remove(v@, i as int);
            }
            v.remove(i);
        },
        None => {
            proof {
                lemma_lookup_absent(v@, k);
            }
        },
    }
}

} // verus!
