//! The result accumulator: one `(Company, Job)` record per distinct dedupe
//! key (the canonical job URL). Inserting a key that is already present is a
//! no-op, never an error.
use vstd::prelude::*;

verus! {

use crate::records::{Company, Job};

/// One collected record under its dedupe key.
pub struct Entry {
    pub key: String,
    pub company: Company,
    pub job: Job,
}

/// Accumulates records keyed by canonical job URL.
pub struct ResultCollector {
    pub entries: Vec<Entry>,
}

impl ResultCollector {
    /// The keys held, in insertion order.
    pub open spec fn keys(self) -> Seq<Seq<char>> {
        self.entries@.map(|i: int, e: Entry| e.key@)
    }

    /// No key occurs twice.
    pub open spec fn wf(self) -> bool {
        forall|i: int, j: int|
            0 <= i < j < self.entries@.len() ==> #[trigger] self.keys()[i] != #[trigger] self.keys()[j]
    }

    /// A key is held.
    pub open spec fn contains_key(self, k: Seq<char>) -> bool {
        exists|i: int| 0 <= i < self.entries@.len() && self.keys()[i] == k
    }

    pub fn new() -> (r: ResultCollector)
        ensures
            r.entries@ == Seq::<Entry>::empty(),
            r.wf(),
    {
        ResultCollector { entries: Vec::new() }
    }

    pub fn len(&self) -> (r: usize)
        ensures
            r == self.entries@.len(),
    {
        self.entries.len()
    }

    /// Whether a record under this key is already held.
    pub fn has_key(&self, k: &String) -> (r: bool)
        ensures
            r == self.contains_key(k@),
    {
        let mut i: usize = 0;
        while i < self.entries.len()
            invariant
                i <= self.entries@.len(),
                forall|j: int| 0 <= j < i ==> self.keys()[j] != k@,
            decreases self.entries@.len() - i,
        {
            if self.entries[i].key.eq(k) {
                assert(self.keys()[i as int] == k@);
                return true;
            }
            i += 1;
        }
        false
    }

    /// Inserts a record under its key. If the key is already held the
    /// collector does not change; otherwise the record is appended.
    pub fn insert(&mut self, key: String, company: Company, job: Job)
        requires
            old(self).wf(),
        ensures
            final(self).wf(),
            old(self).contains_key(key@) ==> final(self).entries@ == old(self).entries@,
            !old(self).contains_key(key@) ==> {
                &&& final(self).entries@.len() == old(self).entries@.len() + 1
                &&& final(self).entries@.drop_last() == old(self).entries@
                &&& final(self).entries@.last().key@ == key@
                &&& final(self).entries@.last().company == company
                &&& final(self).entries@.last().job == job
            },
            final(self).contains_key(key@),
            forall|k: Seq<char>|
                #[trigger] final(self).contains_key(k) == (old(self).contains_key(k) || k == key@),
    {
        if self.has_key(&key) {
            return;
        }
        let ghost pre = self.entries@;
        let ghost kv = key@;
        self.entries.push(Entry { key, company, job });
        proof {
            let okeys = pre.map(|i: int, e: Entry| e.key@);
            assert(self.entries@.drop_last() =~= pre);
            assert(self.entries@.len() == pre.len() + 1);
            assert forall|j: int| 0 <= j < pre.len() implies #[trigger] self.keys()[j]
                == okeys[j] by {
                assert(self.entries@[j] == pre[j]);
            }
            assert(self.keys()[pre.len() as int] == kv);
            assert forall|i: int, j: int|
                0 <= i < j < self.entries@.len() implies #[trigger] self.keys()[i]
                != #[trigger] self.keys()[j] by {
                if j < pre.len() {
                    assert(old(self).keys()[i] != old(self).keys()[j]);
                } else {
                    assert(!(0 <= i < pre.len() && old(self).keys()[i] == kv));
                }
            }
            assert forall|k: Seq<char>|
                #[trigger] self.contains_key(k) == (old(self).contains_key(k) || k == kv) by {
                assert(old(self).keys() =~= okeys);
                if old(self).contains_key(k) {
                    let i = choose|i: int|
                        0 <= i < pre.len() && #[trigger] old(self).keys()[i] == k;
                    assert(self.keys()[i] == k);
                }
                if k == kv {
                    assert(self.keys()[pre.len() as int] == k);
                }
                if self.contains_key(k) {
                    let i = choose|i: int|
                        0 <= i < self.entries@.len() && #[trigger] self.keys()[i] == k;
                    if i < pre.len() {
                        assert(old(self).keys()[i] == k);
                    } else {
                        assert(k == kv);
                    }
                }
            }
        }
    }
}

/// Law: a well-formed collector holds at most one record per key — any two
/// positions holding the same key are the same position.
pub proof fn lemma_one_record_per_key(c: ResultCollector, i: int, j: int)
    requires
        c.wf(),
        0 <= i < c.entries@.len(),
        0 <= j < c.entries@.len(),
        c.keys()[i] == c.keys()[j],
    ensures
        i == j,
{
}

} // verus!
