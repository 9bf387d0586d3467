//! Sparse maps from principals to balances, and from principal pairs to
//! allowances. Both behave as total functions whose unset entries are zero,
//! the zero value of a balance-typed storage slot. `BalanceMap` also tracks
//! the sum of all its entries, which the token's conservation argument
//! rests on.

use vstd::prelude::*;
use crate::types::{AccountId, Balance};

verus! {

/// No two entries share a key.
pub open spec fn uniq_keys(s: Seq<(AccountId, Balance)>) -> bool {
    forall|i: int, j: int|
        #![trigger s[i].0, s[j].0]
        0 <= i < j < s.len() ==> s[i].0 != s[j].0
}

/// The value stored for `a`, zero when no entry carries `a` (later entries
/// win, though a well-formed map never has two entries for one key).
pub open spec fn assoc_get(s: Seq<(AccountId, Balance)>, a: AccountId) -> Balance
    decreases s.len(),
{
    if s.len() == 0 {
        0
    } else if s.last().0 == a {
        s.last().1
    } else {
        assoc_get(s.drop_last(), a)
    }
}

/// The sum of all stored values, as an unbounded integer.
pub open spec fn assoc_sum(s: Seq<(AccountId, Balance)>) -> int
    decreases s.len(),
{
    if s.len() == 0 {
        0int
    } else {
        assoc_sum(s.drop_last()) + s.last().1
    }
}

pub proof fn lemma_assoc_get_found(s: Seq<(AccountId, Balance)>, i: int, a: AccountId)
    requires
        uniq_keys(s),
        0 <= i < s.len(),
        s[i].0 == a,
    ensures
        assoc_get(s, a) == s[i].1,
    decreases s.len(),
{
    if s.last().0 == a {
        assert(i == s.len() - 1);
    } else {
        assert(i < s.len() - 1);
        lemma_assoc_get_found(s.drop_last(), i, a);
    }
}

pub proof fn lemma_assoc_get_absent(s: Seq<(AccountId, Balance)>, a: AccountId)
    requires
        forall|j: int| 0 <= j < s.len() ==> (#[trigger] s[j].0) != a,
    ensures
        assoc_get(s, a) == 0,
    decreases s.len(),
{
    if s.len() > 0 {
        lemma_assoc_get_absent(s.drop_last(), a);
    }
}

pub proof fn lemma_assoc_push(s: Seq<(AccountId, Balance)>, a: AccountId, v: Balance)
    ensures
        assoc_get(s.push((a, v)), a) == v,
        forall|b: AccountId| b != a ==> assoc_get(s.push((a, v)), b) == assoc_get(s, b),
        assoc_sum(s.push((a, v))) == assoc_sum(s) + v,
{
    let t = s.push((a, v));
    assert(t.drop_last() =~= s);
}

/// Removing the entry at `i` of a well-formed map lowers the sum by that
/// entry's value, leaves its key unset, and touches no other key.
pub proof fn lemma_assoc_remove(s: Seq<(AccountId, Balance)>, i: int)
    requires
        uniq_keys(s),
        0 <= i < s.len(),
    ensures
        uniq_keys(s.remove(i)),
        assoc_sum(s.remove(i)) == assoc_sum(s) - s[i].1,
        forall|b: AccountId| b != s[i].0 ==> assoc_get(s.remove(i), b) == assoc_get(s, b),
        forall|j: int| 0 <= j < s.remove(i).len() ==> (#[trigger] s.remove(i)[j].0) != s[i].0,
    decreases s.len(),
{
    let t = s.remove(i);
    if i == s.len() - 1 {
        assert(t =~= s.drop_last());
    } else {
        assert(t.drop_last() =~= s.drop_last().remove(i));
        assert(t.last() == s.last());
        lemma_assoc_remove(s.drop_last(), i);
        assert(s.drop_last()[i] == s[i]);
        assert forall|b: AccountId| b != s[i].0 implies assoc_get(t, b) == assoc_get(s, b) by {
            if t.last().0 == b {
                assert(assoc_get(t, b) == t.last().1);
                assert(assoc_get(s, b) == s.last().1);
            } else {
                assert(assoc_get(t, b) == assoc_get(t.drop_last(), b));
                assert(assoc_get(s, b) == assoc_get(s.drop_last(), b));
                assert(assoc_get(s.drop_last().remove(i), b) == assoc_get(s.drop_last(), b));
            }
        }
    }
}

/// One entry never exceeds the sum of all entries.
pub proof fn lemma_assoc_entry_le_sum(s: Seq<(AccountId, Balance)>, a: AccountId)
    ensures
        assoc_sum(s) >= 0,
        assoc_get(s, a) <= assoc_sum(s),
    decreases s.len(),
{
    if s.len() > 0 {
        lemma_assoc_entry_le_sum(s.drop_last(), a);
    }
}

/// A sparse map `AccountId -> Balance` whose unset entries read as zero.
pub struct BalanceMap {
    entries: Vec<(AccountId, Balance)>,
}

impl BalanceMap {
    /// Well-formed: one entry per key.
    pub closed spec fn wf(self) -> bool {
        uniq_keys(self.entries@)
    }

    /// The value this map stores for `a`.
    pub closed spec fn spec_get(self, a: AccountId) -> Balance {
        assoc_get(self.entries@, a)
    }

    /// The sum of every stored value.
    pub closed spec fn total(self) -> int {
        assoc_sum(self.entries@)
    }

    /// The empty map: every account reads zero.
    pub fn new() -> (m: BalanceMap)
        ensures
            m.wf(),
            forall|b: AccountId| m.spec_get(b) == 0,
            m.total() == 0,
    {
        let m = BalanceMap { entries: Vec::new() };
        proof {
            assert forall|b: AccountId| m.spec_get(b) == 0 by {
                lemma_assoc_get_absent(m.entries@, b);
            }
        }
        m
    }

    /// No single balance exceeds the sum of all balances.
    pub proof fn entry_le_sum(self, a: AccountId)
        ensures
            self.total() >= 0,
            self.spec_get(a) <= self.total(),
    {
        lemma_assoc_entry_le_sum(self.entries@, a);
    }

    /// Reads the balance recorded for `a`; zero for an unset account.
    pub fn get(&self, a: &AccountId) -> (r: Balance)
        requires
            self.wf(),
        ensures
            r == self.spec_get(*a),
    {
        let n = self.entries.len();
        let mut i: usize = 0;
        while i < n
            invariant
                self.wf(),
                n == self.entries@.len(),
                i <= n,
                forall|j: int| 0 <= j < i ==> (#[trigger] self.entries@[j].0) != *a,
            decreases n - i,
        {
            let e = self.entries[i];
            if e.0 == *a {
                proof {
                    lemma_assoc_get_found(self.entries@, i as int, *a);
                }
                return e.1;
            }
            i += 1;
        }
        proof {
            lemma_assoc_get_absent(self.entries@, *a);
        }
        0
    }

    /// Upserts `a -> v`: `a` now reads `v`, no other account changes, and
    /// the sum moves by exactly the difference.
    pub fn set(&mut self, a: AccountId, v: Balance)
        requires
            old(self).wf(),
        ensures
            final(self).wf(),
            forall|b: AccountId| final(self).spec_get(b) == if b == a {
                v
            } else {
                old(self).spec_get(b)
            },
            final(self).total() == old(self).total() - old(self).spec_get(a) + v,
    {
        let n = self.entries.len();
        let mut i: usize = 0;
        while i < n
            invariant
                self.wf(),
                self.entries@ == old(self).entries@,
                n == self.entries@.len(),
                i <= n,
                forall|j: int| 0 <= j < i ==> (#[trigger] self.entries@[j].0) != a,
            decreases n - i,
        {
            let e = self.entries[i];
            if e.0 == a {
                proof {
                    lemma_assoc_get_found(self.entries@, i as int, a);
                    lemma_assoc_remove(self.entries@, i as int);
                    lemma_assoc_push(self.entries@.remove(i as int), a, v);
                }
                self.entries.remove(i);
                self.entries.push((a, v));
                return;
            }
            i += 1;
        }
        proof {
            lemma_assoc_get_absent(self.entries@, a);
            lemma_assoc_push(self.entries@, a, v);
        }
        self.entries.push((a, v));
    }
}

/// No two allowance entries name the same (owner, spender) pair.
pub open spec fn uniq_pairs(s: Seq<(AccountId, AccountId, Balance)>) -> bool {
    forall|i: int, j: int|
        #![trigger s[i].0, s[j].0, s[i].1, s[j].1]
        0 <= i < j < s.len() ==> !(s[i].0 == s[j].0 && s[i].1 == s[j].1)
}

/// The allowance stored for `(o, p)`, zero when unset.
pub open spec fn pair_get(s: Seq<(AccountId, AccountId, Balance)>, o: AccountId, p: AccountId) -> Balance
    decreases s.len(),
{
    if s.len() == 0 {
        0
    } else if s.last().0 == o && s.last().1 == p {
        s.last().2
    } else {
        pair_get(s.drop_last(), o, p)
    }
}

pub proof fn lemma_pair_get_found(s: Seq<(AccountId, AccountId, Balance)>, i: int, o: AccountId, p: AccountId)
    requires
        uniq_pairs(s),
        0 <= i < s.len(),
        s[i].0 == o,
        s[i].1 == p,
    ensures
        pair_get(s, o, p) == s[i].2,
    decreases s.len(),
{
    if s.last().0 == o && s.last().1 == p {
        assert(i == s.len() - 1);
    } else {
        assert(i < s.len() - 1);
        lemma_pair_get_found(s.drop_last(), i, o, p);
    }
}

pub proof fn lemma_pair_get_absent(s: Seq<(AccountId, AccountId, Balance)>, o: AccountId, p: AccountId)
    requires
        forall|j: int| #![trigger s[j].0, s[j].1] 0 <= j < s.len() ==> !(s[j].0 == o && s[j].1 == p),
    ensures
        pair_get(s, o, p) == 0,
    decreases s.len(),
{
    if s.len() > 0 {
        lemma_pair_get_absent(s.drop_last(), o, p);
    }
}

pub proof fn lemma_pair_push(s: Seq<(AccountId, AccountId, Balance)>, o: AccountId, p: AccountId, v: Balance)
    ensures
        pair_get(s.push((o, p, v)), o, p) == v,
        forall|x: AccountId, y: AccountId|
            !(x == o && y == p) ==> pair_get(s.push((o, p, v)), x, y) == pair_get(s, x, y),
{
    let t = s.push((o, p, v));
    assert(t.drop_last() =~= s);
}

pub proof fn lemma_pair_remove(s: Seq<(AccountId, AccountId, Balance)>, i: int)
    requires
        uniq_pairs(s),
        0 <= i < s.len(),
    ensures
        uniq_pairs(s.remove(i)),
        forall|x: AccountId, y: AccountId|
            !(x == s[i].0 && y == s[i].1) ==> pair_get(s.remove(i), x, y) == pair_get(s, x, y),
        forall|j: int|
            #![trigger s.remove(i)[j].0, s.remove(i)[j].1]
            0 <= j < s.remove(i).len() ==> !(s.remove(i)[j].0 == s[i].0 && s.remove(i)[j].1 == s[i].1),
    decreases s.len(),
{
    let t = s.remove(i);
    if i == s.len() - 1 {
        assert(t =~= s.drop_last());
    } else {
        assert(t.drop_last() =~= s.drop_last().remove(i));
        assert(t.last() == s.last());
        lemma_pair_remove(s.drop_last(), i);
        assert(s.drop_last()[i] == s[i]);
        assert forall|x: AccountId, y: AccountId|
            !(x == s[i].0 && y == s[i].1) implies pair_get(t, x, y) == pair_get(s, x, y) by {
            if t.last().0 == x && t.last().1 == y {
                assert(pair_get(t, x, y) == t.last().2);
                assert(pair_get(s, x, y) == s.last().2);
            } else {
                assert(pair_get(t, x, y) == pair_get(t.drop_last(), x, y));
                assert(pair_get(s, x, y) == pair_get(s.drop_last(), x, y));
                assert(pair_get(s.drop_last().remove(i), x, y) == pair_get(s.drop_last(), x, y));
            }
        }
    }
}

/// A sparse map `(owner, spender) -> Balance` whose unset entries read zero.
pub struct AllowanceMap {
    entries: Vec<(AccountId, AccountId, Balance)>,
}

impl AllowanceMap {
    /// Well-formed: one entry per (owner, spender) pair.
    pub closed spec fn wf(self) -> bool {
        uniq_pairs(self.entries@)
    }

    /// The allowance this map stores for `(o, p)`.
    pub closed spec fn spec_get(self, o: AccountId, p: AccountId) -> Balance {
        pair_get(self.entries@, o, p)
    }

    /// The empty map: every pair reads zero.
    pub fn new() -> (m: AllowanceMap)
        ensures
            m.wf(),
            forall|x: AccountId, y: AccountId| m.spec_get(x, y) == 0,
    {
        let m = AllowanceMap { entries: Vec::new() };
        proof {
            assert forall|x: AccountId, y: AccountId| m.spec_get(x, y) == 0 by {
                lemma_pair_get_absent(m.entries@, x, y);
            }
        }
        m
    }

    /// Reads the allowance recorded for `(o, p)`; zero when unset.
    pub fn get(&self, o: &AccountId, p: &AccountId) -> (r: Balance)
        requires
            self.wf(),
        ensures
            r == self.spec_get(*o, *p),
    {
        let n = self.entries.len();
        let mut i: usize = 0;
        while i < n
            invariant
                self.wf(),
                n == self.entries@.len(),
                i <= n,
                forall|j: int|
                    #![trigger self.entries@[j].0, self.entries@[j].1]
                    0 <= j < i ==> !(self.entries@[j].0 == *o && self.entries@[j].1 == *p),
            decreases n - i,
        {
            let e = self.entries[i];
            if e.0 == *o && e.1 == *p {
                proof {
                    lemma_pair_get_found(self.entries@, i as int, *o, *p);
                }
                return e.2;
            }
            i += 1;
        }
        proof {
            lemma_pair_get_absent(self.entries@, *o, *p);
        }
        0
    }

    /// Upserts `(o, p) -> v`: that pair now reads `v` and no other changes.
    pub fn set(&mut self, o: AccountId, p: AccountId, v: Balance)
        requires
            old(self).wf(),
        ensures
            final(self).wf(),
            forall|x: AccountId, y: AccountId| final(self).spec_get(x, y) == if x == o && y == p {
                v
            } else {
                old(self).spec_get(x, y)
            },
    {
        let n = self.entries.len();
        let mut i: usize = 0;
        while i < n
            invariant
                self.wf(),
                self.entries@ == old(self).entries@,
                n == self.entries@.len(),
                i <= n,
                forall|j: int|
                    #![trigger self.entries@[j].0, self.entries@[j].1]
                    0 <= j < i ==> !(self.entries@[j].0 == o && self.entries@[j].1 == p),
            decreases n - i,
        {
            let e = self.entries[i];
            if e.0 == o && e.1 == p {
                proof {
                    lemma_pair_remove(self.entries@, i as int);
                    lemma_pair_push(self.entries@.remove(i as int), o, p, v);
                }
                self.entries.remove(i);
                self.entries.push((o, p, v));
                return;
            }
            i += 1;
        }
        proof {
            lemma_pair_get_absent(self.entries@, o, p);
            lemma_pair_push(self.entries@, o, p, v);
        }
        self.entries.push((o, p, v));
    }
}

} // verus!
