//! Maps keyed by application name, held as lists of entries with distinct
//! keys. The status registry, the handler maps and the catalogs all share
//! this one key space.
use vstd::prelude::*;

verus! {

/// Entries keyed by name; `wf` says the names are distinct.
pub struct Keyed<V> {
    pub entries: Vec<(String, V)>,
}

impl<V> Keyed<V> {
    pub open spec fn len_spec(&self) -> nat {
        self.entries@.len()
    }

    pub open spec fn key_at(&self, i: int) -> Seq<char> {
        self.entries@[i].0@
    }

    pub open spec fn value_at(&self, i: int) -> V {
        self.entries@[i].1
    }

    /// No name occurs twice.
    pub open spec fn wf(&self) -> bool {
        forall|i: int, j: int|
            0 <= i < self.len_spec() && 0 <= j < self.len_spec() && i != j
                ==> #[trigger] self.key_at(i) != #[trigger] self.key_at(j)
    }

    pub open spec fn has(&self, k: Seq<char>) -> bool {
        exists|i: int| 0 <= i < self.len_spec() && #[trigger] self.key_at(i) == k
    }

    /// An empty map.
    pub fn new() -> (r: Self)
        ensures
            r.len_spec() == 0,
            r.wf(),
    {
        Keyed { entries: Vec::new() }
    }

    /// The number of entries.
    pub fn len(&self) -> (r: usize)
        ensures
            r == self.len_spec(),
    {
        self.entries.len()
    }

    /// The index of the entry named `k`.
    pub fn find(&self, k: &String) -> (r: Option<usize>)
        ensures
            r matches Some(i) ==> i < self.len_spec() && self.key_at(i as int) == k@,
            r is None ==> !self.has(k@),
    {
        let mut i: usize = 0;
        while i < self.entries.len()
            invariant
                i <= self.len_spec(),
                forall|j: int| 0 <= j < i ==> #[trigger] self.key_at(j) != k@,
            decreases self.entries.len() - i,
        {
            if self.entries[i].0 == *k {
                return Some(i);
            }
            i = i + 1;
        }
        None
    }

    /// Whether an entry is named `k`.
    pub fn contains(&self, k: &String) -> (r: bool)
        ensures
            r == self.has(k@),
    {
        self.find(k).is_some()
    }

    /// Adds an entry under a name that is not yet present.
    pub fn insert_new(&mut self, k: String, v: V)
        requires
            old(self).wf(),
            !old(self).has(k@),
        ensures
            final(self).wf(),
            final(self).entries@ == old(self).entries@.push((k, v)),
    {
        self.entries.push((k, v));
        assert forall|i: int, j: int|
            0 <= i < self.len_spec() && 0 <= j < self.len_spec() && i != j
                implies #[trigger] self.key_at(i) != #[trigger] self.key_at(j) by {
            let n = self.len_spec() - 1;
            if i == n {
                assert(old(self).key_at(j) == self.key_at(j));
            } else if j == n {
                assert(old(self).key_at(i) == self.key_at(i));
            } else {
                assert(old(self).key_at(i) == self.key_at(i));
                assert(old(self).key_at(j) == self.key_at(j));
            }
        }
    }

    /// Sets the entry named `k` to `v`, adding it at the end when absent.
    pub fn upsert(&mut self, k: String, v: V)
        requires
            old(self).wf(),
        ensures
            final(self).wf(),
            old(self).has(k@) ==> {
                &&& final(self).len_spec() == old(self).len_spec()
                &&& forall|j: int|
                    0 <= j < old(self).len_spec() ==> #[trigger] final(self).key_at(j) == old(self).key_at(j)
                        && final(self).value_at(j) == if old(self).key_at(j) == k@ {
                        v
                    } else {
                        old(self).value_at(j)
                    }
            },
            !old(self).has(k@) ==> final(self).entries@ == old(self).entries@.push((k, v)),
    {
        match self.find(&k) {
            Some(i) => {
                let ghost before = *self;
                let (name, _) = self.entries.remove(i);
                self.entries.insert(i, (name, v));
                assert forall|j: int|
                    0 <= j < before.len_spec() implies #[trigger] self.key_at(j) == before.key_at(j)
                        && self.value_at(j) == if before.key_at(j) == k@ {
                        v
                    } else {
                        before.value_at(j)
                    } by {
                    if j != i {
                        assert(before.key_at(j) != before.key_at(i as int));
                    }
                }
                assert forall|a: int, b: int|
                    0 <= a < self.len_spec() && 0 <= b < self.len_spec() && a != b
                        implies #[trigger] self.key_at(a) != #[trigger] self.key_at(b) by {
                    assert(before.key_at(a) == self.key_at(a));
                    assert(before.key_at(b) == self.key_at(b));
                }
            },
            None => {
                self.insert_new(k, v);
            },
        }
    }

    /// Removes the entry named `k`, if any, and returns its value.
    pub fn remove_key(&mut self, k: &String) -> (r: Option<V>)
        requires
            old(self).wf(),
        ensures
            final(self).wf(),
            !final(self).has(k@),
            forall|x: Seq<char>| x != k@ ==> (#[trigger] final(self).has(x) <==> old(self).has(x)),
            !old(self).has(k@) ==> r is None && *final(self) == *old(self),
            old(self).has(k@) ==> r is Some && exists|i: int|
                0 <= i < old(self).len_spec() && #[trigger] old(self).key_at(i) == k@ && r == Some(old(self).value_at(i))
                    && final(self).entries@ == old(self).entries@.remove(i),
    {
        match self.find(k) {
            None => None,
            Some(i) => {
                let ghost before = *self;
                let (_, v) = self.entries.remove(i);
                assert(before.entries@.remove(i as int) == self.entries@);
                assert forall|a: int, b: int|
                    0 <= a < self.len_spec() && 0 <= b < self.len_spec() && a != b
                        implies #[trigger] self.key_at(a) != #[trigger] self.key_at(b) by {
                    let a0 = if a < i { a } else { a + 1 };
                    let b0 = if b < i { b } else { b + 1 };
                    assert(self.key_at(a) == before.key_at(a0));
                    assert(self.key_at(b) == before.key_at(b0));
                }
                assert forall|a: int| 0 <= a < self.len_spec() implies #[trigger] self.key_at(a) != k@ by {
                    let a0 = if a < i { a } else { a + 1 };
                    assert(self.key_at(a) == before.key_at(a0));
                }
                assert forall|x: Seq<char>| x != k@ implies (#[trigger] self.has(x) <==> before.has(x)) by {
                    if before.has(x) {
                        let a0 = choose|a0: int| 0 <= a0 < before.len_spec() && #[trigger] before.key_at(a0) == x;
                        assert(a0 != i);
                        let a = if a0 < i { a0 } else { a0 - 1 };
                        assert(self.key_at(a) == x);
                    }
                    if self.has(x) {
                        let a = choose|a: int| 0 <= a < self.len_spec() && #[trigger] self.key_at(a) == x;
                        let a0 = if a < i { a } else { a + 1 };
                        assert(before.key_at(a0) == x);
                    }
                }
                Some(v)
            },
        }
    }
}

/// A name present in `a` is present in `b`.
pub open spec fn covered_by<V, W>(a: Keyed<V>, b: Keyed<W>) -> bool {
    forall|i: int| 0 <= i < a.len_spec() ==> b.has(#[trigger] a.key_at(i))
}

} // verus!
