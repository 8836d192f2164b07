//! A keyed table of records, kept in ascending key order.
use vstd::prelude::*;

verus! {

/// A record that is stored under a 64-bit key.
pub trait Record: Sized {
    spec fn key(&self) -> u64;

    fn id(&self) -> (r: u64)
        ensures
            r == self.key(),
    ;

    fn duplicate(&self) -> (r: Self)
        ensures
            r == *self,
    ;
}

/// Keys strictly increase along the sequence (so they are unique).
pub open spec fn ascending<T: Record>(s: Seq<T>) -> bool {
    forall|i: int, j: int| 0 <= i < j < s.len() ==> s[i].key() < s[j].key()
}

pub open spec fn has_key<T: Record>(s: Seq<T>, k: u64) -> bool {
    exists|i: int| 0 <= i < s.len() && s[i].key() == k
}

/// The record stored under `k`, if any.
pub open spec fn lookup<T: Record>(s: Seq<T>, k: u64) -> Option<T> {
    if has_key(s, k) {
        Some(s[choose|i: int| 0 <= i < s.len() && s[i].key() == k])
    } else {
        None
    }
}

pub proof fn lemma_lookup_at<T: Record>(s: Seq<T>, i: int)
    requires
        ascending(s),
        0 <= i < s.len(),
    ensures
        lookup(s, s[i].key()) == Some(s[i]),
{
    let k = s[i].key();
    assert(has_key(s, k));
    let j = choose|j: int| 0 <= j < s.len() && s[j].key() == k;
    if j < i {
        assert(s[j].key() < s[i].key());
    } else if i < j {
        assert(s[i].key() < s[j].key());
    }
}

/// A table of records in ascending key order, with a counter for fresh keys.
pub struct Table<T> {
    rows: Vec<T>,
    last_id: u64,
}

impl<T: Record> Table<T> {
    /// The records in scan order.
    pub closed spec fn entries(&self) -> Seq<T> {
        self.rows@
    }

    /// The last key that `next_id` handed out.
    pub closed spec fn last_id(&self) -> u64 {
        self.last_id
    }

    pub open spec fn wf(&self) -> bool {
        ascending(self.entries())
    }

    /// Every stored key was handed out by the counter.
    pub open spec fn issued(&self) -> bool {
        forall|k: u64| #[trigger] self.get_spec(k) is Some ==> k <= self.last_id()
    }

    pub open spec fn get_spec(&self, k: u64) -> Option<T> {
        lookup(self.entries(), k)
    }

    pub fn new() -> (t: Self)
        ensures
            t.entries() == Seq::<T>::empty(),
            t.last_id() == 0,
            t.wf(),
            t.issued(),
    {
        Table { rows: Vec::new(), last_id: 0 }
    }

    /// Hands out the key after the last one; `None` once the keys are used up.
    pub fn next_id(&mut self) -> (r: Option<u64>)
        ensures
            final(self).entries() == old(self).entries(),
            forall|k: u64| #[trigger] final(self).get_spec(k) == old(self).get_spec(k),
            old(self).last_id() < u64::MAX ==> r == Some((old(self).last_id() + 1) as u64)
                && final(self).last_id() == old(self).last_id() + 1,
            old(self).last_id() == u64::MAX ==> r is None && final(self).last_id() == u64::MAX,
    {
        if self.last_id == u64::MAX {
            None
        } else {
            self.last_id = self.last_id + 1;
            Some(self.last_id)
        }
    }

    pub fn get(&self, k: u64) -> (r: Option<T>)
        requires
            self.wf(),
        ensures
            r == self.get_spec(k),
    {
        let mut i: usize = 0;
        while i < self.rows.len()
            invariant
                0 <= i <= self.rows@.len(),
                ascending(self.rows@),
                forall|j: int| 0 <= j < i ==> self.rows@[j].key() != k,
            decreases self.rows@.len() - i,
        {
            if self.rows[i].id() == k {
                proof {
                    lemma_lookup_at(self.rows@, i as int);
                }
                return Some(self.rows[i].duplicate());
            }
            i = i + 1;
        }
        None
    }

    /// All records, in scan order.
    pub fn scan(&self) -> (r: Vec<T>)
        ensures
            r@ == self.entries(),
    {
        let mut r: Vec<T> = Vec::new();
        let mut i: usize = 0;
        while i < self.rows.len()
            invariant
                0 <= i <= self.rows@.len(),
                r@ == self.rows@.subrange(0, i as int),
            decreases self.rows@.len() - i,
        {
            r.push(self.rows[i].duplicate());
            assert(self.rows@.subrange(0, i + 1) == self.rows@.subrange(0, i as int).push(
                self.rows@[i as int],
            ));
            i = i + 1;
        }
        assert(self.rows@.subrange(0, i as int) == self.rows@);
        r
    }

    /// The record found under a key carries that key.
    pub proof fn lemma_get_key(&self, k: u64)
        ensures
            self.get_spec(k) is Some ==> self.get_spec(k)->0.key() == k,
    {
    }

    /// The last key handed out.
    pub fn last(&self) -> (r: u64)
        ensures
            r == self.last_id(),
    {
        self.last_id
    }

    /// Whether the counter has no fresh key left.
    pub fn exhausted(&self) -> (r: bool)
        ensures
            r == (self.last_id() == u64::MAX),
    {
        self.last_id == u64::MAX
    }

    /// Appends a record whose key is above every stored key.
    pub fn append(&mut self, rec: T)
        requires
            old(self).wf(),
            forall|k: u64| #[trigger] old(self).get_spec(k) is Some ==> k < rec.key(),
        ensures
            final(self).wf(),
            final(self).entries() == old(self).entries().push(rec),
            final(self).last_id() == old(self).last_id(),
            forall|j: u64| #[trigger]
                final(self).get_spec(j) == if j == rec.key() {
                    Some(rec)
                } else {
                    old(self).get_spec(j)
                },
    {
        let ghost s = self.rows@;
        proof {
            assert forall|i: int| 0 <= i < s.len() implies s[i].key() < rec.key() by {
                lemma_lookup_at(s, i);
                assert(old(self).get_spec(s[i].key()) is Some);
            }
        }
        self.rows.push(rec);
        proof {
            let t = self.rows@;
            let n = s.len() as int;
            assert forall|j: u64| #[trigger] lookup(t, j) == if j == rec.key() {
                Some(rec)
            } else {
                lookup(s, j)
            } by {
                if j == rec.key() {
                    lemma_lookup_at(t, n);
                } else if has_key(s, j) {
                    let m = choose|m: int| 0 <= m < s.len() && s[m].key() == j;
                    lemma_lookup_at(s, m);
                    assert(t[m] == s[m]);
                    lemma_lookup_at(t, m);
                } else {
                    assert forall|m: int| 0 <= m < t.len() implies t[m].key() != j by {
                        if m < n {
                            assert(t[m] == s[m]);
                        }
                    }
                }
            }
        }
    }

    /// Replaces the stored record that has the key of `rec`.
    pub fn replace(&mut self, rec: T)
        requires
            old(self).wf(),
            old(self).get_spec(rec.key()) is Some,
        ensures
            final(self).wf(),
            final(self).last_id() == old(self).last_id(),
            forall|j: u64| #[trigger]
                final(self).get_spec(j) == if j == rec.key() {
                    Some(rec)
                } else {
                    old(self).get_spec(j)
                },
    {
        let ghost s = self.rows@;
        let k = rec.id();
        let mut i: usize = 0;
        while i < self.rows.len()
            invariant
                0 <= i <= self.rows@.len(),
                self.rows@ == s,
                self.rows@ == old(self).rows@,
                self.last_id == old(self).last_id,
                ascending(s),
                k == rec.key(),
                has_key(s, k),
                forall|j: int| 0 <= j < i ==> s[j].key() != k,
            decreases self.rows@.len() - i,
        {
            if self.rows[i].id() == k {
                self.rows.set(i, rec);
                proof {
                    let t = self.rows@;
                    assert(t == s.update(i as int, rec));
                    assert forall|a: int, b: int| 0 <= a < b < t.len() implies t[a].key() < t[b].key() by {
                        assert(t[a].key() == s[a].key());
                        assert(t[b].key() == s[b].key());
                    }
                    assert forall|j: u64| #[trigger] lookup(t, j) == if j == k {
                        Some(rec)
                    } else {
                        lookup(s, j)
                    } by {
                        if j == k {
                            lemma_lookup_at(t, i as int);
                        } else if has_key(s, j) {
                            let m = choose|m: int| 0 <= m < s.len() && s[m].key() == j;
                            lemma_lookup_at(s, m);
                            assert(t[m] == s[m]);
                            lemma_lookup_at(t, m);
                        } else {
                            assert forall|m: int| 0 <= m < t.len() implies t[m].key() != j by {
                                if m != i {
                                    assert(t[m] == s[m]);
                                }
                            }
                        }
                    }
                }
                return;
            }
            i = i + 1;
        }
    }

    /// Removes the record under `k` and returns it.
    pub fn remove(&mut self, k: u64) -> (r: Option<T>)
        requires
            old(self).wf(),
        ensures
            final(self).wf(),
            r == old(self).get_spec(k),
            final(self).last_id() == old(self).last_id(),
            forall|j: u64| #[trigger]
                final(self).get_spec(j) == if j == k {
                    None
                } else {
                    old(self).get_spec(j)
                },
            old(self).get_spec(k) is None ==> final(self).entries() == old(self).entries(),
    {
        let mut i: usize = 0;
        while i < self.rows.len()
            invariant
                0 <= i <= self.rows@.len(),
                self.rows@ == old(self).rows@,
                self.last_id == old(self).last_id,
                ascending(self.rows@),
                forall|j: int| 0 <= j < i ==> self.rows@[j].key() != k,
            decreases self.rows@.len() - i,
        {
            if self.rows[i].id() == k {
                let ghost s = self.rows@;
                proof {
                    lemma_lookup_at(s, i as int);
                }
                let rec = self.rows.remove(i);
                proof {
                    let t = self.rows@;
                    assert(t == s.remove(i as int));
                    assert forall|j: u64| #[trigger] lookup(t, j) == if j == k {
                        None
                    } else {
                        lookup(s, j)
                    } by {
                        if j == k {
                            assert forall|m: int| 0 <= m < t.len() implies t[m].key() != k by {
                                if m < i {
                                    assert(t[m] == s[m]);
                                    assert(s[m].key() < s[i as int].key());
                                } else {
                                    assert(t[m] == s[m + 1]);
                                    assert(s[i as int].key() < s[m + 1].key());
                                }
                            }
                        } else if has_key(s, j) {
                            let m = choose|m: int| 0 <= m < s.len() && s[m].key() == j;
                            lemma_lookup_at(s, m);
                            if m < i {
                                assert(t[m] == s[m]);
                                lemma_lookup_at(t, m);
                            } else {
                                assert(m != i);
                                assert(t[m - 1] == s[m]);
                                lemma_lookup_at(t, m - 1);
                            }
                        } else {
                            assert forall|m: int| 0 <= m < t.len() implies t[m].key() != j by {
                                if m < i {
                                    assert(t[m] == s[m]);
                                } else {
                                    assert(t[m] == s[m + 1]);
                                }
                            }
                        }
                    }
                }
                return Some(rec);
            }
            i = i + 1;
        }
        None
    }
}

} // verus!
