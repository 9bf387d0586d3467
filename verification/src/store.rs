//! The storage layer: one flat key/value store per contract instance, keys
//! and values opaque byte strings. Reads see the last committed value
//! overlaid with this invocation's journal; `commit` applies the journal
//! atomically and `revert` discards it, leaving the committed state exactly
//! as it was before the invocation began.

use vstd::prelude::*;

verus! {

/// No two committed entries share a key.
pub open spec fn store_uniq(s: Seq<(Vec<u8>, Vec<u8>)>) -> bool {
    forall|i: int, j: int|
        #![trigger s[i].0, s[j].0]
        0 <= i < j < s.len() ==> s[i].0@ != s[j].0@
}

/// The committed value under `k`, if any (later entries win, though a
/// well-formed store never has two entries for one key).
pub open spec fn store_get(s: Seq<(Vec<u8>, Vec<u8>)>, k: Seq<u8>) -> Option<Seq<u8>>
    decreases s.len(),
{
    if s.len() == 0 {
        None
    } else if s.last().0@ == k {
        Some(s.last().1@)
    } else {
        store_get(s.drop_last(), k)
    }
}

/// A journalled operation seen at the spec level: a write or a removal.
pub open spec fn op_view(o: Option<Vec<u8>>) -> Option<Seq<u8>> {
    match o {
        Some(v) => Some(v@),
        None => None,
    }
}

/// The journal's last scheduled operation on `k`, if it has one.
pub open spec fn journal_op(j: Seq<(Vec<u8>, Option<Vec<u8>>)>, k: Seq<u8>) -> Option<Option<Seq<u8>>>
    decreases j.len(),
{
    if j.len() == 0 {
        None
    } else if j.last().0@ == k {
        Some(op_view(j.last().1))
    } else {
        journal_op(j.drop_last(), k)
    }
}

/// What a read of `k` sees: the journal's pending operation when there is
/// one, the committed value otherwise.
pub open spec fn overlay(c: Seq<(Vec<u8>, Vec<u8>)>, j: Seq<(Vec<u8>, Option<Vec<u8>>)>, k: Seq<u8>) -> Option<Seq<u8>> {
    match journal_op(j, k) {
        Some(op) => op,
        None => store_get(c, k),
    }
}

pub proof fn lemma_store_get_found(s: Seq<(Vec<u8>, Vec<u8>)>, i: int, k: Seq<u8>)
    requires
        store_uniq(s),
        0 <= i < s.len(),
        s[i].0@ == k,
    ensures
        store_get(s, k) == Some(s[i].1@),
    decreases s.len(),
{
    if s.last().0@ == k {
        assert(i == s.len() - 1);
    } else {
        assert(i < s.len() - 1);
        lemma_store_get_found(s.drop_last(), i, k);
    }
}

pub proof fn lemma_store_get_absent(s: Seq<(Vec<u8>, Vec<u8>)>, k: Seq<u8>)
    requires
        forall|j: int| 0 <= j < s.len() ==> (#[trigger] s[j].0)@ != k,
    ensures
        store_get(s, k) is None,
    decreases s.len(),
{
    if s.len() > 0 {
        lemma_store_get_absent(s.drop_last(), k);
    }
}

pub proof fn lemma_store_push(s: Seq<(Vec<u8>, Vec<u8>)>, k: Vec<u8>, v: Vec<u8>)
    ensures
        store_get(s.push((k, v)), k@) == Some(v@),
        forall|q: Seq<u8>| q != k@ ==> store_get(s.push((k, v)), q) == store_get(s, q),
{
    let t = s.push((k, v));
    assert(t.drop_last() =~= s);
}

pub proof fn lemma_store_remove(s: Seq<(Vec<u8>, Vec<u8>)>, i: int)
    requires
        store_uniq(s),
        0 <= i < s.len(),
    ensures
        store_uniq(s.remove(i)),
        forall|q: Seq<u8>| q != s[i].0@ ==> store_get(s.remove(i), q) == store_get(s, q),
        forall|j: int| 0 <= j < s.remove(i).len() ==> (#[trigger] s.remove(i)[j].0)@ != s[i].0@,
    decreases s.len(),
{
    let t = s.remove(i);
    if i == s.len() - 1 {
        assert(t =~= s.drop_last());
    } else {
        assert(t.drop_last() =~= s.drop_last().remove(i));
        assert(t.last() == s.last());
        lemma_store_remove(s.drop_last(), i);
        assert(s.drop_last()[i] == s[i]);
        assert forall|q: Seq<u8>| q != s[i].0@ implies store_get(t, q) == store_get(s, q) by {
            if t.last().0@ == q {
                assert(store_get(t, q) == Some(t.last().1@));
                assert(store_get(s, q) == Some(s.last().1@));
            } else {
                assert(store_get(t, q) == store_get(t.drop_last(), q));
                assert(store_get(s, q) == store_get(s.drop_last(), q));
                assert(store_get(s.drop_last().remove(i), q) == store_get(s.drop_last(), q));
            }
        }
    }
}

/// The journal's answer for `k` after prepending one entry: later entries
/// still win, and the new head only speaks when nothing later does.
pub proof fn lemma_journal_cons(e: (Vec<u8>, Option<Vec<u8>>), rest: Seq<(Vec<u8>, Option<Vec<u8>>)>, k: Seq<u8>)
    ensures
        journal_op(seq![e] + rest, k) == (if journal_op(rest, k) is Some {
            journal_op(rest, k)
        } else if e.0@ == k {
            Some(op_view(e.1))
        } else {
            None::<Option<Seq<u8>>>
        }),
    decreases rest.len(),
{
    let s = seq![e] + rest;
    if rest.len() == 0 {
        assert(s.len() == 1);
        assert(s.last() == e);
        assert(s.drop_last().len() == 0);
        assert(journal_op(rest, k) is None);
        if e.0@ == k {
            assert(journal_op(s, k) == Some(op_view(e.1)));
        } else {
            assert(journal_op(s, k) == journal_op(s.drop_last(), k));
            assert(journal_op(s.drop_last(), k) is None);
        }
    } else {
        assert(s.last() == rest.last());
        assert(s.drop_last() =~= seq![e] + rest.drop_last());
        lemma_journal_cons(e, rest.drop_last(), k);
        if rest.last().0@ == k {
            assert(journal_op(s, k) == Some(op_view(s.last().1)));
            assert(journal_op(rest, k) == Some(op_view(rest.last().1)));
        } else {
            assert(journal_op(s, k) == journal_op(s.drop_last(), k));
            assert(journal_op(s.drop_last(), k) == journal_op(seq![e] + rest.drop_last(), k));
            assert(journal_op(rest, k) == journal_op(rest.drop_last(), k));
        }
    }
}

pub proof fn lemma_journal_op_found(j: Seq<(Vec<u8>, Option<Vec<u8>>)>, i: int, k: Seq<u8>)
    requires
        0 <= i < j.len(),
        j[i].0@ == k,
        forall|l: int| i < l < j.len() ==> (#[trigger] j[l].0)@ != k,
    ensures
        journal_op(j, k) == Some(op_view(j[i].1)),
    decreases j.len(),
{
    if i == j.len() - 1 {
    } else {
        assert(j.last().0@ != k);
        assert(j.drop_last()[i] == j[i]);
        lemma_journal_op_found(j.drop_last(), i, k);
    }
}

pub proof fn lemma_journal_op_absent(j: Seq<(Vec<u8>, Option<Vec<u8>>)>, k: Seq<u8>)
    requires
        forall|l: int| 0 <= l < j.len() ==> (#[trigger] j[l].0)@ != k,
    ensures
        journal_op(j, k) is None,
    decreases j.len(),
{
    if j.len() > 0 {
        lemma_journal_op_absent(j.drop_last(), k);
    }
}

/// Byte-string equality, the key comparison of the storage layer.
pub fn bytes_eq(a: &Vec<u8>, b: &Vec<u8>) -> (r: bool)
    ensures
        r <==> a@ == b@,
{
    let n = a.len();
    if n != b.len() {
        return false;
    }
    let mut i: usize = 0;
    while i < n
        invariant
            n == a@.len(),
            n == b@.len(),
            i <= n,
            forall|j: int| 0 <= j < i ==> a@[j] == b@[j],
        decreases n - i,
    {
        if a[i] != b[i] {
            return false;
        }
        i += 1;
    }
    proof {
        assert(a@ =~= b@);
    }
    true
}

/// Upserts `k -> v` among the committed entries, touching no other key.
fn entries_insert(entries: &mut Vec<(Vec<u8>, Vec<u8>)>, k: Vec<u8>, v: Vec<u8>)
    requires
        store_uniq(old(entries)@),
    ensures
        store_uniq(final(entries)@),
        store_get(final(entries)@, k@) == Some(v@),
        forall|q: Seq<u8>| q != k@ ==> store_get(final(entries)@, q) == store_get(old(entries)@, q),
{
    let n = entries.len();
    let mut i: usize = 0;
    while i < n
        invariant
            store_uniq(entries@),
            entries@ == old(entries)@,
            n == entries@.len(),
            i <= n,
            forall|j: int| 0 <= j < i ==> (#[trigger] entries@[j].0)@ != k@,
        decreases n - i,
    {
        let hit = bytes_eq(&entries[i].0, &k);
        if hit {
            proof {
                lemma_store_remove(entries@, i as int);
                lemma_store_push(entries@.remove(i as int), k, v);
            }
            entries.remove(i);
            entries.push((k, v));
            return;
        }
        i += 1;
    }
    proof {
        lemma_store_push(entries@, k, v);
    }
    entries.push((k, v));
}

/// Drops the committed entry under `k`, touching no other key.
fn entries_remove(entries: &mut Vec<(Vec<u8>, Vec<u8>)>, k: &Vec<u8>)
    requires
        store_uniq(old(entries)@),
    ensures
        store_uniq(final(entries)@),
        store_get(final(entries)@, k@) is None,
        forall|q: Seq<u8>| q != k@ ==> store_get(final(entries)@, q) == store_get(old(entries)@, q),
{
    let n = entries.len();
    let mut i: usize = 0;
    while i < n
        invariant
            store_uniq(entries@),
            entries@ == old(entries)@,
            n == entries@.len(),
            i <= n,
            forall|j: int| 0 <= j < i ==> (#[trigger] entries@[j].0)@ != k@,
        decreases n - i,
    {
        let hit = bytes_eq(&entries[i].0, k);
        if hit {
            proof {
                lemma_store_remove(entries@, i as int);
                let t = entries@.remove(i as int);
                lemma_store_get_absent(t, k@);
            }
            entries.remove(i);
            return;
        }
        i += 1;
    }
    proof {
        lemma_store_get_absent(entries@, k@);
    }
}

/// A contract instance's persistent store plus this invocation's journal.
pub struct Store {
    committed: Vec<(Vec<u8>, Vec<u8>)>,
    journal: Vec<(Vec<u8>, Option<Vec<u8>>)>,
}

impl Store {
    /// Well-formed: committed keys are unique.
    pub closed spec fn wf(self) -> bool {
        store_uniq(self.committed@)
    }

    /// The last committed value under `k`.
    pub closed spec fn committed_get(self, k: Seq<u8>) -> Option<Seq<u8>> {
        store_get(self.committed@, k)
    }

    /// What a read of `k` sees inside the current invocation.
    pub closed spec fn visible_get(self, k: Seq<u8>) -> Option<Seq<u8>> {
        overlay(self.committed@, self.journal@, k)
    }

    /// Whether the journal holds any pending operation.
    pub closed spec fn journal_empty(self) -> bool {
        self.journal@.len() == 0
    }

    /// With an empty journal, every read sees the committed state.
    pub proof fn lemma_idle_visible(self)
        requires
            self.journal_empty(),
        ensures
            forall|q: Seq<u8>| self.visible_get(q) == self.committed_get(q),
    {
        assert forall|q: Seq<u8>| self.visible_get(q) == self.committed_get(q) by {
            lemma_journal_op_absent(self.journal@, q);
        }
    }

    /// A fresh store: nothing committed, nothing pending.
    pub fn new() -> (s: Store)
        ensures
            s.wf(),
            s.journal_empty(),
            forall|q: Seq<u8>| s.committed_get(q) is None,
            forall|q: Seq<u8>| s.visible_get(q) is None,
    {
        let s = Store { committed: Vec::new(), journal: Vec::new() };
        proof {
            assert forall|q: Seq<u8>| s.visible_get(q) is None && s.committed_get(q) is None by {
                lemma_store_get_absent(s.committed@, q);
                lemma_journal_op_absent(s.journal@, q);
            }
        }
        s
    }

    /// Reads the currently visible value under `k`: the pending write when
    /// the journal has one, the committed value otherwise.
    pub fn get(&self, k: &Vec<u8>) -> (r: Option<&Vec<u8>>)
        requires
            self.wf(),
        ensures
            match r {
                Some(v) => self.visible_get(k@) == Some(v@),
                None => self.visible_get(k@) is None,
            },
    {
        let mut i: usize = self.journal.len();
        while i > 0
            invariant
                i <= self.journal@.len(),
                forall|l: int| i <= l < self.journal@.len() ==> (#[trigger] self.journal@[l].0)@ != k@,
            decreases i,
        {
            i -= 1;
            let hit = bytes_eq(&self.journal[i].0, k);
            if hit {
                proof {
                    lemma_journal_op_found(self.journal@, i as int, k@);
                }
                return match &self.journal[i].1 {
                    Some(v) => Some(v),
                    None => None,
                };
            }
        }
        proof {
            lemma_journal_op_absent(self.journal@, k@);
        }
        let n = self.committed.len();
        let mut c: usize = 0;
        while c < n
            invariant
                self.wf(),
                n == self.committed@.len(),
                c <= n,
                forall|j: int| 0 <= j < c ==> (#[trigger] self.committed@[j].0)@ != k@,
                journal_op(self.journal@, k@) is None,
            decreases n - c,
        {
            let hit = bytes_eq(&self.committed[c].0, k);
            if hit {
                proof {
                    lemma_store_get_found(self.committed@, c as int, k@);
                }
                return Some(&self.committed[c].1);
            }
            c += 1;
        }
        proof {
            lemma_store_get_absent(self.committed@, k@);
        }
        None
    }

    /// Journals a write of `v` under `k`: visible at once, committed later.
    pub fn insert(&mut self, k: Vec<u8>, v: Vec<u8>)
        requires
            old(self).wf(),
        ensures
            final(self).wf(),
            final(self).visible_get(k@) == Some(v@),
            forall|q: Seq<u8>| q != k@ ==> final(self).visible_get(q) == old(self).visible_get(q),
            forall|q: Seq<u8>| final(self).committed_get(q) == old(self).committed_get(q),
            !final(self).journal_empty(),
    {
        self.journal.push((k, Some(v)));
        proof {
            assert(self.journal@.drop_last() =~= old(self).journal@);
        }
    }

    /// Journals a removal of `k`: reads of `k` now see nothing.
    pub fn remove(&mut self, k: Vec<u8>)
        requires
            old(self).wf(),
        ensures
            final(self).wf(),
            final(self).visible_get(k@) is None,
            forall|q: Seq<u8>| q != k@ ==> final(self).visible_get(q) == old(self).visible_get(q),
            forall|q: Seq<u8>| final(self).committed_get(q) == old(self).committed_get(q),
    {
        self.journal.push((k, None));
        proof {
            assert(self.journal@.drop_last() =~= old(self).journal@);
        }
    }

    /// Discards the journal: the committed state is untouched and every
    /// read now sees exactly what was committed before the invocation.
    pub fn revert(&mut self)
        requires
            old(self).wf(),
        ensures
            final(self).wf(),
            final(self).journal_empty(),
            forall|q: Seq<u8>| final(self).committed_get(q) == old(self).committed_get(q),
            forall|q: Seq<u8>| final(self).visible_get(q) == old(self).committed_get(q),
    {
        self.journal = Vec::new();
    }

    /// Applies the whole journal to the committed state, in program order,
    /// as one atomic step: afterwards the committed state is exactly what
    /// reads saw before, and nothing is pending.
    pub fn commit(&mut self)
        requires
            old(self).wf(),
        ensures
            final(self).wf(),
            final(self).journal_empty(),
            forall|q: Seq<u8>| final(self).committed_get(q) == old(self).visible_get(q),
            forall|q: Seq<u8>| final(self).visible_get(q) == old(self).visible_get(q),
    {
        while self.journal.len() > 0
            invariant
                store_uniq(self.committed@),
                forall|q: Seq<u8>|
                    overlay(self.committed@, self.journal@, q) == overlay(
                        old(self).committed@,
                        old(self).journal@,
                        q,
                    ),
            decreases self.journal@.len(),
        {
            let ghost pre = *self;
            let e = self.journal.remove(0);
            proof {
                assert(pre.journal@ =~= seq![pre.journal@[0]] + self.journal@);
            }
            match e {
                (k, Some(v)) => {
                    let ghost kk = k@;
                    let ghost vv = v@;
                    entries_insert(&mut self.committed, k, v);
                    proof {
                        assert forall|q: Seq<u8>|
                            overlay(self.committed@, self.journal@, q) == overlay(
                                pre.committed@,
                                pre.journal@,
                                q,
                            ) by {
                            lemma_journal_cons(pre.journal@[0], self.journal@, q);
                            if journal_op(self.journal@, q) is None && q == kk {
                                assert(store_get(self.committed@, q) == Some(vv));
                            }
                        }
                    }
                },
                (k, None) => {
                    let ghost kk = k@;
                    entries_remove(&mut self.committed, &k);
                    proof {
                        assert forall|q: Seq<u8>|
                            overlay(self.committed@, self.journal@, q) == overlay(
                                pre.committed@,
                                pre.journal@,
                                q,
                            ) by {
                            lemma_journal_cons(pre.journal@[0], self.journal@, q);
                        }
                    }
                },
            }
        }
        proof {
            assert forall|q: Seq<u8>| self.committed_get(q) == old(self).visible_get(q) by {
                lemma_journal_op_absent(self.journal@, q);
            }
        }
    }
}

} // verus!
