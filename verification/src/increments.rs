//! The balance-increment accumulator and its mathematical model.
//!
//! A balance-increment map sends an account identity to the unsigned amount
//! that the block adds to its balance. An absent key means a zero increment;
//! entries are only created by a non-zero contribution and grow by addition
//! afterward, so accumulation is commutative and associative and insertion
//! order cannot be observed.
//!
//! The model is a `Map<Address, int>` together with a fold of contribution
//! pairs (`fold_increments`); the executable type carries the entries as a
//! vector with unique keys and positive amounts.

use vstd::prelude::*;

use crate::primitives::Address;
use crate::primitives::address_eq;

verus! {

/// The increment recorded for `a`: the mapped amount, or zero when absent.
pub open spec fn increment_of(m: Map<Address, int>, a: Address) -> int {
    if m.contains_key(a) {
        m[a]
    } else {
        0
    }
}

/// One accumulation step: a zero contribution leaves the map unchanged
/// (zero contributions never create entries), any other adds to the
/// increment recorded so far.
pub open spec fn add_increment(m: Map<Address, int>, a: Address, amount: int) -> Map<
    Address,
    int,
> {
    if amount == 0 {
        m
    } else {
        m.insert(a, increment_of(m, a) + amount)
    }
}

/// Accumulates a sequence of contribution pairs, in order.
pub open spec fn fold_increments(m: Map<Address, int>, s: Seq<(Address, int)>) -> Map<
    Address,
    int,
>
    decreases s.len(),
{
    if s.len() == 0 {
        m
    } else {
        add_increment(fold_increments(m, s.drop_last()), s.last().0, s.last().1)
    }
}

/// The part of a contribution sequence that belongs to identity `a`.
pub open spec fn key_sum(s: Seq<(Address, int)>, a: Address) -> int
    decreases s.len(),
{
    if s.len() == 0 {
        0
    } else {
        key_sum(s.drop_last(), a) + (if s.last().0 == a {
            s.last().1
        } else {
            0
        })
    }
}

/// The sum of all contributions in the sequence.
pub open spec fn total_sum(s: Seq<(Address, int)>) -> int
    decreases s.len(),
{
    if s.len() == 0 {
        0
    } else {
        total_sum(s.drop_last()) + s.last().1
    }
}

/// All contributions are non-negative (they are unsigned amounts).
pub open spec fn nonneg_amounts(s: Seq<(Address, int)>) -> bool {
    forall|i: int| 0 <= i < s.len() ==> s[i].1 >= 0
}

/// Accumulation is read-if-absent-else-add: after folding a contribution
/// sequence, each identity holds what it held before plus exactly its own
/// contributions. This is the commutative-accumulation invariant: the
/// resulting increment depends only on the multiset of contributions.
pub proof fn lemma_fold_increment_of(m: Map<Address, int>, s: Seq<(Address, int)>, a: Address)
    ensures
        increment_of(fold_increments(m, s), a) == increment_of(m, a) + key_sum(s, a),
    decreases s.len(),
{
    if s.len() > 0 {
        lemma_fold_increment_of(m, s.drop_last(), a);
    }
}

/// An identity has an entry after folding exactly when it had one before or
/// some strictly positive contribution names it.
pub proof fn lemma_fold_contains(m: Map<Address, int>, s: Seq<(Address, int)>, a: Address)
    requires
        nonneg_amounts(s),
    ensures
        fold_increments(m, s).contains_key(a) <==> (m.contains_key(a) || exists|i: int|
            0 <= i < s.len() && s[i].0 == a && s[i].1 > 0),
    decreases s.len(),
{
    if s.len() > 0 {
        assert(nonneg_amounts(s.drop_last())) by {
            assert(forall|i: int|
                0 <= i < s.len() - 1 ==> s.drop_last()[i] == s[i] && s[i].1 >= 0);
        }
        lemma_fold_contains(m, s.drop_last(), a);
        let prev = fold_increments(m, s.drop_last());
        if s.last().0 == a && s.last().1 > 0 {
            assert(s[s.len() - 1].0 == a && s[s.len() - 1].1 > 0);
        } else {
            assert(fold_increments(m, s).contains_key(a) == prev.contains_key(a));
            assert((exists|i: int| 0 <= i < s.len() && s[i].0 == a && s[i].1 > 0)
                <==> (exists|i: int| 0 <= i < s.len() - 1 && s[i].0 == a && s[i].1 > 0)) by {
                if exists|i: int| 0 <= i < s.len() && s[i].0 == a && s[i].1 > 0 {
                    let i = choose|i: int| 0 <= i < s.len() && s[i].0 == a && s[i].1 > 0;
                    assert(i != s.len() - 1);
                    assert(0 <= i < s.len() - 1 && s[i].0 == a && s[i].1 > 0);
                }
            }
            assert(forall|i: int|
                0 <= i < s.len() - 1 ==> s.drop_last()[i] == s[i]);
        }
    }
}

/// Every per-identity sum of non-negative contributions is non-negative.
pub proof fn lemma_key_sum_nonneg(s: Seq<(Address, int)>, a: Address)
    requires
        nonneg_amounts(s),
    ensures
        key_sum(s, a) >= 0,
    decreases s.len(),
{
    if s.len() > 0 {
        assert(nonneg_amounts(s.drop_last())) by {
            assert(forall|i: int|
                0 <= i < s.len() - 1 ==> s.drop_last()[i] == s[i] && s[i].1 >= 0);
        }
        lemma_key_sum_nonneg(s.drop_last(), a);
        assert(s.last().1 >= 0);
    }
}

/// A prefix never holds more of an identity's contributions than the whole.
pub proof fn lemma_key_sum_take_le(s: Seq<(Address, int)>, i: int, a: Address)
    requires
        nonneg_amounts(s),
        0 <= i <= s.len(),
    ensures
        key_sum(s.take(i), a) <= key_sum(s, a),
    decreases s.len() - i,
{
    if i == s.len() {
        assert(s.take(i) =~= s);
    } else {
        lemma_key_sum_take_le(s, i + 1, a);
        assert(s.take(i + 1).drop_last() =~= s.take(i));
        assert(s.take(i + 1).last() == s[i]);
        assert(s[i].1 >= 0);
    }
}

/// Unfolds one step of the fold along a prefix, as loop proofs need it.
pub proof fn lemma_fold_take_succ(m: Map<Address, int>, s: Seq<(Address, int)>, i: int)
    requires
        0 <= i < s.len(),
    ensures
        fold_increments(m, s.take(i + 1)) == add_increment(
            fold_increments(m, s.take(i)),
            s[i].0,
            s[i].1,
        ),
        key_sum(s.take(i + 1), s[i].0) == key_sum(s.take(i), s[i].0) + s[i].1,
        total_sum(s.take(i + 1)) == total_sum(s.take(i)) + s[i].1,
{
    assert(s.take(i + 1).drop_last() =~= s.take(i));
    assert(s.take(i + 1).last() == s[i]);
}

/// The association list behind the accumulator, read as a map. A later
/// entry would win, but the executable type keeps keys unique.
pub open spec fn map_of(s: Seq<(Address, u128)>) -> Map<Address, int>
    decreases s.len(),
{
    if s.len() == 0 {
        Map::empty()
    } else {
        map_of(s.drop_last()).insert(s.last().0, s.last().1 as int)
    }
}

/// No identity appears twice.
pub open spec fn unique_keys(s: Seq<(Address, u128)>) -> bool {
    forall|i: int, j: int| 0 <= i < j < s.len() ==> s[i].0 != s[j].0
}

/// Every stored amount is strictly positive.
pub open spec fn positive_amounts(s: Seq<(Address, u128)>) -> bool {
    forall|i: int| 0 <= i < s.len() ==> s[i].1 > 0
}

/// The sum of all stored amounts.
pub open spec fn entries_total(s: Seq<(Address, u128)>) -> int
    decreases s.len(),
{
    if s.len() == 0 {
        0
    } else {
        entries_total(s.drop_last()) + s.last().1
    }
}

/// An identity is in the map exactly when some entry names it.
pub proof fn lemma_map_of_contains(s: Seq<(Address, u128)>, a: Address)
    ensures
        map_of(s).contains_key(a) <==> exists|i: int| 0 <= i < s.len() && s[i].0 == a,
    decreases s.len(),
{
    if s.len() > 0 {
        lemma_map_of_contains(s.drop_last(), a);
        if s.last().0 == a {
            assert(s[s.len() - 1].0 == a);
        } else {
            assert((exists|i: int| 0 <= i < s.len() && s[i].0 == a) <==> (exists|i: int|
                0 <= i < s.len() - 1 && s[i].0 == a)) by {
                if exists|i: int| 0 <= i < s.len() && s[i].0 == a {
                    let i = choose|i: int| 0 <= i < s.len() && s[i].0 == a;
                    assert(i != s.len() - 1);
                }
            }
            assert(forall|i: int| 0 <= i < s.len() - 1 ==> s.drop_last()[i] == s[i]);
        }
    }
}

/// With unique keys, the map reads each entry back unchanged.
pub proof fn lemma_map_of_index(s: Seq<(Address, u128)>, j: int)
    requires
        unique_keys(s),
        0 <= j < s.len(),
    ensures
        map_of(s).contains_key(s[j].0),
        map_of(s)[s[j].0] == s[j].1 as int,
    decreases s.len(),
{
    if j == s.len() - 1 {
    } else {
        assert(unique_keys(s.drop_last())) by {
            assert(forall|i: int, k: int|
                0 <= i < k < s.len() - 1 ==> s.drop_last()[i] == s[i] && s.drop_last()[k]
                    == s[k]);
        }
        assert(s.drop_last()[j] == s[j]);
        lemma_map_of_index(s.drop_last(), j);
        assert(s.last().0 != s[j].0);
    }
}

/// With unique keys, updating the amount at one index updates the map at
/// that entry's key only.
pub proof fn lemma_map_of_update(s: Seq<(Address, u128)>, j: int, v: u128)
    requires
        unique_keys(s),
        0 <= j < s.len(),
    ensures
        map_of(s.update(j, (s[j].0, v))) =~= map_of(s).insert(s[j].0, v as int),
    decreases s.len(),
{
    let t = s.update(j, (s[j].0, v));
    if j == s.len() - 1 {
        assert(t.drop_last() =~= s.drop_last());
        assert(t.last() == (s[j].0, v));
        assert(map_of(t) =~= map_of(s.drop_last()).insert(s[j].0, v as int));
        assert(map_of(s).insert(s[j].0, v as int) =~= map_of(s.drop_last()).insert(
            s[j].0,
            v as int,
        ));
    } else {
        assert(unique_keys(s.drop_last())) by {
            assert(forall|i: int, k: int|
                0 <= i < k < s.len() - 1 ==> s.drop_last()[i] == s[i] && s.drop_last()[k]
                    == s[k]);
        }
        assert(s.drop_last()[j] == s[j]);
        lemma_map_of_update(s.drop_last(), j, v);
        assert(t.drop_last() =~= s.drop_last().update(j, (s[j].0, v)));
        assert(t.last() == s.last());
        assert(s.last().0 != s[j].0);
        assert(map_of(t) =~= map_of(s.drop_last()).insert(s[j].0, v as int).insert(
            s.last().0,
            s.last().1 as int,
        ));
    }
}

/// Updating one amount moves the total by the difference.
pub proof fn lemma_entries_total_update(s: Seq<(Address, u128)>, j: int, v: u128)
    requires
        0 <= j < s.len(),
    ensures
        entries_total(s.update(j, (s[j].0, v))) == entries_total(s) - s[j].1 + v,
    decreases s.len(),
{
    let t = s.update(j, (s[j].0, v));
    if j == s.len() - 1 {
        assert(t.drop_last() =~= s.drop_last());
        assert(t.last() == (s[j].0, v));
    } else {
        assert(t.drop_last() =~= s.drop_last().update(j, (s[j].0, v)));
        assert(s.drop_last()[j] == s[j]);
        lemma_entries_total_update(s.drop_last(), j, v);
        assert(t.last() == s.last());
    }
}

/// With unique keys, the map has exactly one key per entry.
pub proof fn lemma_map_of_dom_len(s: Seq<(Address, u128)>)
    requires
        unique_keys(s),
    ensures
        map_of(s).dom().finite(),
        map_of(s).dom().len() == s.len(),
    decreases s.len(),
{
    if s.len() > 0 {
        assert(unique_keys(s.drop_last())) by {
            assert(forall|i: int, k: int|
                0 <= i < k < s.len() - 1 ==> s.drop_last()[i] == s[i] && s.drop_last()[k]
                    == s[k]);
        }
        lemma_map_of_dom_len(s.drop_last());
        lemma_map_of_contains(s.drop_last(), s.last().0);
        assert(forall|i: int| 0 <= i < s.len() - 1 ==> s.drop_last()[i] == s[i]);
        assert(!map_of(s.drop_last()).contains_key(s.last().0)) by {
            if exists|i: int| 0 <= i < s.len() - 1 && s.drop_last()[i].0 == s.last().0 {
                let i = choose|i: int|
                    0 <= i < s.len() - 1 && s.drop_last()[i].0 == s.last().0;
                assert(s[i].0 == s[s.len() - 1].0);
            }
        }
        assert(map_of(s).dom() =~= map_of(s.drop_last()).dom().insert(s.last().0));
    }
}

/// The sum of every increment a map records: a fold of the map's graph.
pub open spec fn map_increment_sum(m: Map<Address, int>) -> int {
    m.kv_pairs().fold(0int, |acc: int, p: (Address, int)| acc + p.1)
}

/// With unique keys, the entries sum to the sum of the map they carry.
pub proof fn lemma_map_of_sum(s: Seq<(Address, u128)>)
    requires
        unique_keys(s),
    ensures
        map_of(s).kv_pairs().finite(),
        map_increment_sum(map_of(s)) == entries_total(s),
    decreases s.len(),
{
    let f = |acc: int, p: (Address, int)| acc + p.1;
    assert(vstd::set::fold::is_fun_commutative(f));
    if s.len() == 0 {
        assert(map_of(s).kv_pairs() =~= Set::<(Address, int)>::empty());
        vstd::set::fold::lemma_fold_empty(0int, f);
    } else {
        let s0 = s.drop_last();
        let k = s.last().0;
        let v = s.last().1;
        assert(unique_keys(s0)) by {
            assert(forall|i: int, j: int|
                0 <= i < j < s.len() - 1 ==> s0[i] == s[i] && s0[j] == s[j]);
        }
        lemma_map_of_sum(s0);
        lemma_map_of_contains(s0, k);
        assert(!map_of(s0).contains_key(k)) by {
            assert(forall|i: int| 0 <= i < s.len() - 1 ==> s0[i] == s[i]);
            if exists|i: int| 0 <= i < s0.len() && s0[i].0 == k {
                let i = choose|i: int| 0 <= i < s0.len() && s0[i].0 == k;
                assert(s[i].0 == s[s.len() - 1].0);
            }
        }
        let pairs0 = map_of(s0).kv_pairs();
        let pair = (k, v as int);
        assert(map_of(s).kv_pairs() =~= pairs0.insert(pair));
        assert(!pairs0.contains(pair));
        vstd::set::fold::lemma_fold_insert(pairs0, 0int, f, pair);
    }
}

/// The accumulator for balance increments: a map from identity to a strictly
/// positive unsigned amount, where an absent key means a zero increment.
pub struct BalanceIncrements {
    entries: Vec<(Address, u128)>,
}

impl View for BalanceIncrements {
    type V = Map<Address, int>;

    closed spec fn view(&self) -> Map<Address, int> {
        map_of(self.entries@)
    }
}

impl BalanceIncrements {
    /// Well-formedness: unique keys and strictly positive amounts, so the
    /// entry vector is exactly the graph of the map.
    pub closed spec fn wf(self) -> bool {
        unique_keys(self.entries@) && positive_amounts(self.entries@)
    }

    /// The sum of all recorded increments.
    pub closed spec fn total(self) -> int {
        entries_total(self.entries@)
    }

    /// The recorded total is exactly the sum of the increments in the map:
    /// what the contracts say of `total` is a statement about the map's
    /// contents, summed.
    pub proof fn lemma_total_is_map_sum(&self)
        requires
            self.wf(),
        ensures
            self@.kv_pairs().finite(),
            self.total() == map_increment_sum(self@),
    {
        lemma_map_of_sum(self.entries@);
    }

    /// Creates an empty accumulator.
    pub fn new() -> (r: Self)
        ensures
            r.wf(),
            r@ == Map::<Address, int>::empty(),
            r.total() == 0,
    {
        BalanceIncrements { entries: Vec::new() }
    }

    /// Adds `amount` to the increment recorded for `a`. A zero amount is a
    /// no-op and creates no entry.
    pub fn accumulate(&mut self, a: Address, amount: u128)
        requires
            old(self).wf(),
            increment_of(old(self)@, a) + amount <= u128::MAX,
        ensures
            final(self).wf(),
            final(self)@ == add_increment(old(self)@, a, amount as int),
            final(self).total() == old(self).total() + amount,
    {
        if amount == 0 {
            return ;
        }
        let ghost s0 = self.entries@;
        let n = self.entries.len();
        let mut j: usize = 0;
        while j < n
            invariant
                self.entries@ == s0,
                n == s0.len(),
                j <= n,
                s0 == old(self).entries@,
                unique_keys(s0),
                positive_amounts(s0),
                amount > 0,
                increment_of(map_of(s0), a) + amount <= u128::MAX,
                forall|k: int| 0 <= k < j ==> s0[k].0 != a,
            decreases n - j,
        {
            if address_eq(&self.entries[j].0, &a) {
                proof {
                    lemma_map_of_index(s0, j as int);
                }
                let cur = self.entries[j].1;
                let newv: u128 = cur + amount;
                self.entries[j] = (a, newv);
                proof {
                    assert(self.entries@ =~= s0.update(j as int, (a, newv)));
                    assert(s0[j as int].0 == a);
                    lemma_map_of_update(s0, j as int, newv);
                    lemma_entries_total_update(s0, j as int, newv);
                    assert(unique_keys(self.entries@)) by {
                        assert(forall|i: int, k: int|
                            0 <= i < k < s0.len() ==> self.entries@[i].0 == s0[i].0
                                && self.entries@[k].0 == s0[k].0);
                    }
                    assert(positive_amounts(self.entries@)) by {
                        assert(forall|i: int|
                            0 <= i < s0.len() && i != j ==> self.entries@[i] == s0[i]);
                    }
                    assert(final(self)@ =~= add_increment(old(self)@, a, amount as int));
                }
                return ;
            }
            j = j + 1;
        }
        proof {
            lemma_map_of_contains(s0, a);
            assert(!map_of(s0).contains_key(a));
        }
        self.entries.push((a, amount));
        proof {
            assert(self.entries@.drop_last() =~= s0);
            assert(self.entries@.last() == (a, amount));
            assert(final(self)@ =~= add_increment(old(self)@, a, amount as int));
            assert(unique_keys(self.entries@)) by {
                assert(forall|i: int| 0 <= i < s0.len() ==> self.entries@[i] == s0[i]);
            }
            assert(positive_amounts(self.entries@)) by {
                assert(forall|i: int| 0 <= i < s0.len() ==> self.entries@[i] == s0[i]);
            }
        }
    }

    /// Reads the increment recorded for `a`; zero when absent.
    pub fn get(&self, a: &Address) -> (r: u128)
        requires
            self.wf(),
        ensures
            r as int == increment_of(self@, *a),
    {
        let n = self.entries.len();
        let mut j: usize = 0;
        while j < n
            invariant
                n == self.entries@.len(),
                j <= n,
                self.wf(),
                forall|k: int| 0 <= k < j ==> self.entries@[k].0 != *a,
            decreases n - j,
        {
            if address_eq(&self.entries[j].0, a) {
                proof {
                    lemma_map_of_index(self.entries@, j as int);
                }
                return self.entries[j].1;
            }
            j = j + 1;
        }
        proof {
            lemma_map_of_contains(self.entries@, *a);
        }
        0
    }

    /// The number of identities holding a non-zero increment.
    pub fn len(&self) -> (r: usize)
        requires
            self.wf(),
        ensures
            r == self@.dom().len(),
    {
        proof {
            lemma_map_of_dom_len(self.entries@);
        }
        self.entries.len()
    }

    /// True when no increment was recorded.
    pub fn is_empty(&self) -> (r: bool)
        requires
            self.wf(),
        ensures
            r == (self@ == Map::<Address, int>::empty()),
    {
        let n = self.entries.len();
        if n == 0 {
            proof {
                assert(self@ =~= Map::<Address, int>::empty());
            }
            true
        } else {
            proof {
                lemma_map_of_index(self.entries@, n - 1 as int);
                assert(self@.contains_key(self.entries@[n - 1].0));
            }
            false
        }
    }
}

} // verus!
