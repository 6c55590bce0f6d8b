//! A keyed store of signed amounts, one entry per account, in the order in
//! which accounts were first written. An account that was never written
//! reads as zero.

use vstd::prelude::*;
use crate::address::Address;

verus! {

/// Whether some entry is stored under `key`.
pub open spec fn has_key(entries: Seq<(Seq<u8>, i128)>, key: Seq<u8>) -> bool {
    exists|i: int| 0 <= i < entries.len() && (#[trigger] entries[i]).0 == key
}

/// The position of the entry stored under `key` (meaningful when there is one).
pub open spec fn key_index(entries: Seq<(Seq<u8>, i128)>, key: Seq<u8>) -> int {
    choose|i: int| 0 <= i < entries.len() && (#[trigger] entries[i]).0 == key
}

/// The amount stored under `key`, or zero when nothing is stored there.
pub open spec fn amount_of(entries: Seq<(Seq<u8>, i128)>, key: Seq<u8>) -> i128 {
    if has_key(entries, key) {
        entries[key_index(entries, key)].1
    } else {
        0
    }
}

/// The entries after storing `value` under `key`: the existing entry is
/// overwritten in place, or a new one is appended.
pub open spec fn with_amount(entries: Seq<(Seq<u8>, i128)>, key: Seq<u8>, value: i128) -> Seq<(Seq<u8>, i128)> {
    if has_key(entries, key) {
        entries.update(key_index(entries, key), (key, value))
    } else {
        entries.push((key, value))
    }
}

/// No key is stored twice.
pub open spec fn unique_keys(entries: Seq<(Seq<u8>, i128)>) -> bool {
    forall|i: int, j: int| 0 <= i < j < entries.len() ==> (#[trigger] entries[i]).0 != (#[trigger] entries[j]).0
}

/// No stored amount is negative.
pub open spec fn all_nonnegative(entries: Seq<(Seq<u8>, i128)>) -> bool {
    forall|i: int| 0 <= i < entries.len() ==> (#[trigger] entries[i]).1 >= 0
}

/// The sum of all stored amounts.
pub open spec fn sum_amounts(entries: Seq<(Seq<u8>, i128)>) -> int
    decreases entries.len(),
{
    if entries.len() == 0 {
        0
    } else {
        sum_amounts(entries.drop_last()) + entries.last().1
    }
}

/// With unique keys, the entry at `i` is the one that `key_index` finds.
pub proof fn lemma_entry_is_found(entries: Seq<(Seq<u8>, i128)>, key: Seq<u8>, i: int)
    requires
        unique_keys(entries),
        0 <= i < entries.len(),
        entries[i].0 == key,
    ensures
        has_key(entries, key),
        key_index(entries, key) == i,
        amount_of(entries, key) == entries[i].1,
{
    assert(has_key(entries, key));
    let j = key_index(entries, key);
    assert(entries[j].0 == key);
    if j != i {
        if j < i {
            assert(entries[j].0 != entries[i].0);
        } else {
            assert(entries[i].0 != entries[j].0);
        }
    }
}

/// Storing under `key` keeps keys unique, changes what `key` reads, and
/// leaves every other key as it was.
pub proof fn lemma_with_amount_reads(entries: Seq<(Seq<u8>, i128)>, key: Seq<u8>, value: i128, other: Seq<u8>)
    requires
        unique_keys(entries),
    ensures
        unique_keys(with_amount(entries, key, value)),
        amount_of(with_amount(entries, key, value), key) == value,
        other != key ==> amount_of(with_amount(entries, key, value), other) == amount_of(entries, other),
        has_key(with_amount(entries, key, value), other) == (other == key || has_key(entries, other)),
{
    let next = with_amount(entries, key, value);
    if has_key(entries, key) {
        let k = key_index(entries, key);
        assert(entries[k].0 == key);
        assert(next.len() == entries.len());
        assert forall|i: int, j: int| 0 <= i < j < next.len() implies (#[trigger] next[i]).0 != (#[trigger] next[j]).0 by {
            assert(entries[i].0 != entries[j].0);
        }
        lemma_entry_is_found(next, key, k);
        if has_key(entries, other) {
            let o = key_index(entries, other);
            assert(entries[o].0 == other);
            if other != key {
                assert(next[o] == entries[o]);
                lemma_entry_is_found(next, other, o);
            }
        } else if other != key {
            assert forall|i: int| 0 <= i < next.len() implies (#[trigger] next[i]).0 != other by {
                if i != k {
                    assert(next[i] == entries[i]);
                    assert(!(0 <= i < entries.len() && entries[i].0 == other));
                }
            }
        }
    } else {
        assert(next.len() == entries.len() + 1);
        assert forall|i: int, j: int| 0 <= i < j < next.len() implies (#[trigger] next[i]).0 != (#[trigger] next[j]).0 by {
            if j == entries.len() {
                assert(next[i] == entries[i]);
                assert(!(0 <= i < entries.len() && entries[i].0 == key));
            } else {
                assert(entries[i].0 != entries[j].0);
            }
        }
        lemma_entry_is_found(next, key, entries.len() as int);
        if has_key(entries, other) {
            let o = key_index(entries, other);
            assert(entries[o].0 == other);
            assert(next[o] == entries[o]);
            lemma_entry_is_found(next, other, o);
        } else if other != key {
            assert forall|i: int| 0 <= i < next.len() implies (#[trigger] next[i]).0 != other by {
                if i < entries.len() {
                    assert(next[i] == entries[i]);
                    assert(!(0 <= i < entries.len() && entries[i].0 == other));
                }
            }
        }
    }
}

/// Overwriting one amount changes the sum by the difference.
pub proof fn lemma_sum_after_update(entries: Seq<(Seq<u8>, i128)>, i: int, entry: (Seq<u8>, i128))
    requires
        0 <= i < entries.len(),
    ensures
        sum_amounts(entries.update(i, entry)) == sum_amounts(entries) - entries[i].1 + entry.1,
    decreases entries.len(),
{
    let next = entries.update(i, entry);
    if i == entries.len() - 1 {
        assert(next.drop_last() =~= entries.drop_last());
    } else {
        lemma_sum_after_update(entries.drop_last(), i, entry);
        assert(next.drop_last() =~= entries.drop_last().update(i, entry));
    }
}

/// Storing `value` under `key` changes the sum by the difference with what
/// `key` read before.
pub proof fn lemma_sum_with_amount(entries: Seq<(Seq<u8>, i128)>, key: Seq<u8>, value: i128)
    requires
        unique_keys(entries),
    ensures
        sum_amounts(with_amount(entries, key, value)) == sum_amounts(entries) - amount_of(entries, key) + value,
{
    if has_key(entries, key) {
        lemma_sum_after_update(entries, key_index(entries, key), (key, value));
    } else {
        assert(entries.push((key, value)).drop_last() =~= entries);
    }
}

/// Storing a non-negative amount keeps every amount non-negative.
pub proof fn lemma_with_amount_nonnegative(entries: Seq<(Seq<u8>, i128)>, key: Seq<u8>, value: i128)
    requires
        all_nonnegative(entries),
        value >= 0,
    ensures
        all_nonnegative(with_amount(entries, key, value)),
{
    let next = with_amount(entries, key, value);
    assert forall|i: int| 0 <= i < next.len() implies (#[trigger] next[i]).1 >= 0 by {
        if has_key(entries, key) {
            if i != key_index(entries, key) {
                assert(next[i] == entries[i]);
            }
        } else if i < entries.len() {
            assert(next[i] == entries[i]);
        }
    }
}

/// When no amount is negative, each one is at most the sum, and the sum is
/// not negative.
pub proof fn lemma_entry_within_sum(entries: Seq<(Seq<u8>, i128)>, i: int)
    requires
        all_nonnegative(entries),
        0 <= i < entries.len(),
    ensures
        0 <= entries[i].1 <= sum_amounts(entries),
    decreases entries.len(),
{
    let rest = entries.drop_last();
    assert(all_nonnegative(rest)) by {
        assert forall|j: int| 0 <= j < rest.len() implies (#[trigger] rest[j]).1 >= 0 by {
            assert(rest[j] == entries[j]);
        }
    }
    lemma_sum_nonnegative(rest);
    assert(entries.last().1 >= 0);
    if i < entries.len() - 1 {
        lemma_entry_within_sum(rest, i);
        assert(rest[i] == entries[i]);
    }
}

/// When no amount is negative, neither is the sum.
pub proof fn lemma_sum_nonnegative(entries: Seq<(Seq<u8>, i128)>)
    requires
        all_nonnegative(entries),
    ensures
        sum_amounts(entries) >= 0,
    decreases entries.len(),
{
    if entries.len() > 0 {
        let rest = entries.drop_last();
        assert forall|j: int| 0 <= j < rest.len() implies (#[trigger] rest[j]).1 >= 0 by {
            assert(rest[j] == entries[j]);
        }
        lemma_sum_nonnegative(rest);
        assert(entries.last().1 >= 0);
    }
}

/// When no amount is negative, what any key reads lies between zero and the sum.
pub proof fn lemma_amount_within_sum(entries: Seq<(Seq<u8>, i128)>, key: Seq<u8>)
    requires
        all_nonnegative(entries),
    ensures
        0 <= amount_of(entries, key) <= sum_amounts(entries),
{
    lemma_sum_nonnegative(entries);
    if has_key(entries, key) {
        let k = key_index(entries, key);
        assert(entries[k].0 == key);
        lemma_entry_within_sum(entries, k);
    }
}

/// Amounts stored per account.
pub struct Ledger {
    entries: Vec<(Address, i128)>,
}

impl View for Ledger {
    type V = Seq<(Seq<u8>, i128)>;

    closed spec fn view(&self) -> Seq<(Seq<u8>, i128)> {
        Seq::new(self.entries@.len(), |i: int| (self.entries@[i].0@, self.entries@[i].1))
    }
}

impl Ledger {
    /// An empty ledger.
    pub fn new() -> (l: Ledger)
        ensures
            l@ == Seq::<(Seq<u8>, i128)>::empty(),
    {
        let l = Ledger { entries: Vec::new() };
        assert(l@ =~= Seq::<(Seq<u8>, i128)>::empty());
        l
    }

    /// The position of the entry stored under `key`, if any.
    fn position(&self, key: &Address) -> (r: Option<usize>)
        ensures
            match r {
                Some(i) => i < self@.len() && self@[i as int].0 == key@,
                None => !has_key(self@, key@),
            },
    {
        let n: usize = self.entries.len();
        let mut i: usize = 0;
        while i < n
            invariant
                n == self.entries@.len(),
                n == self@.len(),
                i <= n,
                forall|j: int| 0 <= j < i ==> (#[trigger] self@[j]).0 != key@,
            decreases n - i,
        {
            if self.entries[i].0.same_as(key) {
                return Some(i);
            }
            i = i + 1;
        }
        None
    }

    /// The amount stored under `key`, zero when there is none.
    pub fn amount(&self, key: &Address) -> (v: i128)
        requires
            unique_keys(self@),
        ensures
            v == amount_of(self@, key@),
    {
        match self.position(key) {
            Some(i) => {
                proof {
                    lemma_entry_is_found(self@, key@, i as int);
                }
                self.entries[i].1
            },
            None => 0,
        }
    }

    /// Stores `value` under `key`.
    pub fn set_amount(&mut self, key: Address, value: i128)
        requires
            unique_keys(old(self)@),
        ensures
            final(self)@ == with_amount(old(self)@, key@, value),
    {
        match self.position(&key) {
            Some(i) => {
                proof {
                    lemma_entry_is_found(self@, key@, i as int);
                }
                let ghost before = self@;
                let ghost k = key@;
                self.entries[i] = (key, value);
                assert(self@ =~= before.update(i as int, (k, value)));
            },
            None => {
                let ghost before = self@;
                let ghost k = key@;
                self.entries.push((key, value));
                assert(self@ =~= before.push((k, value)));
            },
        }
    }
}

} // verus!
