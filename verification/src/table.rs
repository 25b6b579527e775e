use vstd::prelude::*;

verus! {

/// An association list from names to values in which no name occurs twice.
///
/// Its view is the finite map from each stored name to the value stored
/// with it.
pub struct NameTable<V> {
    entries: Vec<(String, V)>,
}

impl<V> NameTable<V> {
    /// The name stored at position `i`.
    pub closed spec fn key_at(&self, i: int) -> Seq<char> {
        self.entries@[i].0@
    }

    /// No name is stored twice.
    pub closed spec fn wf(&self) -> bool {
        forall|i: int, j: int|
            0 <= i < self.entries.len() && 0 <= j < self.entries.len() && i != j
                ==> #[trigger] self.key_at(i) != #[trigger] self.key_at(j)
    }

    pub closed spec fn holds(&self, k: Seq<char>) -> bool {
        exists|i: int| 0 <= i < self.entries.len() && #[trigger] self.key_at(i) == k
    }

    pub closed spec fn view(&self) -> Map<Seq<char>, V> {
        Map::new(
            |k: Seq<char>| self.holds(k),
            |k: Seq<char>|
                self.entries@[choose|i: int| 0 <= i < self.entries.len() && #[trigger] self.key_at(i) == k].1,
        )
    }

    proof fn lemma_view_at(&self, i: int)
        requires
            self.wf(),
            0 <= i < self.entries.len(),
        ensures
            self.view().contains_key(self.key_at(i)),
            self.view()[self.key_at(i)] == self.entries@[i].1,
    {
        let k = self.key_at(i);
        assert(self.holds(k));
        let j = choose|j: int| 0 <= j < self.entries.len() && #[trigger] self.key_at(j) == k;
        assert(self.key_at(j) == k);
        assert(j == i);
    }

    /// An empty table.
    pub fn new() -> (t: Self)
        ensures
            t.wf(),
            t.view() == Map::<Seq<char>, V>::empty(),
    {
        let t = NameTable { entries: Vec::new() };
        assert(t.view() =~= Map::<Seq<char>, V>::empty());
        t
    }

    /// The position at which `key` is stored, if it is stored.
    fn position(&self, key: &String) -> (r: Option<usize>)
        requires
            self.wf(),
        ensures
            match r {
                Some(i) => i < self.entries.len() && self.key_at(i as int) == key@,
                None => !self.view().contains_key(key@),
            },
    {
        let mut i: usize = 0;
        while i < self.entries.len()
            invariant
                i <= self.entries.len(),
                forall|j: int| 0 <= j < i ==> #[trigger] self.key_at(j) != key@,
            decreases self.entries.len() - i,
        {
            if self.entries[i].0 == *key {
                return Some(i);
            }
            i = i + 1;
        }
        None
    }

    /// The value stored under `key`, if any.
    pub fn get(&self, key: &String) -> (r: Option<&V>)
        requires
            self.wf(),
        ensures
            match r {
                Some(v) => self.view().contains_key(key@) && *v == self.view()[key@],
                None => !self.view().contains_key(key@),
            },
    {
        match self.position(key) {
            Some(i) => {
                proof {
                    self.lemma_view_at(i as int);
                }
                Some(&self.entries[i].1)
            },
            None => None,
        }
    }

    /// Stores `value` under `key`, replacing what was stored there before.
    pub fn insert(&mut self, key: String, value: V)
        requires
            old(self).wf(),
        ensures
            final(self).wf(),
            final(self).view() == old(self).view().insert(key@, value),
    {
        let ghost k = key@;
        match self.position(&key) {
            Some(i) => {
                self.entries.set(i, (key, value));
                proof {
                    assert forall|a: int, b: int|
                        0 <= a < self.entries.len() && 0 <= b < self.entries.len() && a != b
                            implies #[trigger] self.key_at(a) != #[trigger] self.key_at(b) by {
                        assert(old(self).key_at(i as int) == k);
                        if a != i && b != i {
                            assert(self.key_at(a) == old(self).key_at(a));
                            assert(self.key_at(b) == old(self).key_at(b));
                        } else if a == i {
                            assert(self.key_at(b) == old(self).key_at(b));
                        } else {
                            assert(self.key_at(a) == old(self).key_at(a));
                        }
                    }
                    self.lemma_same_keys_view(old(self), i as int, value);
                }
            },
            None => {
                self.entries.push((key, value));
                proof {
                    let n = old(self).entries.len() as int;
                    assert forall|a: int, b: int|
                        0 <= a < self.entries.len() && 0 <= b < self.entries.len() && a != b
                            implies #[trigger] self.key_at(a) != #[trigger] self.key_at(b) by {
                        if a < n && b < n {
                            assert(self.key_at(a) == old(self).key_at(a));
                            assert(self.key_at(b) == old(self).key_at(b));
                        } else if a == n {
                            assert(self.key_at(b) == old(self).key_at(b));
                            assert(old(self).holds(self.key_at(b)));
                        } else {
                            assert(self.key_at(a) == old(self).key_at(a));
                            assert(old(self).holds(self.key_at(a)));
                        }
                    }
                    self.lemma_pushed_view(old(self), value);
                }
            },
        }
    }

    proof fn lemma_same_keys_view(&self, before: &Self, i: int, value: V)
        requires
            before.wf(),
            self.wf(),
            0 <= i < before.entries.len(),
            self.entries@ == before.entries@.update(i, (self.entries@[i].0, value)),
            self.key_at(i) == before.key_at(i),
        ensures
            self.view() == before.view().insert(before.key_at(i), value),
    {
        let k = before.key_at(i);
        assert forall|x: Seq<char>| self.holds(x) <==> before.holds(x) || x == k by {
            if self.holds(x) {
                let j = choose|j: int| 0 <= j < self.entries.len() && #[trigger] self.key_at(j) == x;
                assert(before.key_at(j) == self.key_at(j));
            }
            if before.holds(x) {
                let j = choose|j: int| 0 <= j < before.entries.len() && #[trigger] before.key_at(j) == x;
                assert(before.key_at(j) == self.key_at(j));
            }
            if x == k {
                assert(self.key_at(i) == x);
            }
        }
        assert forall|x: Seq<char>| #[trigger] self.view().contains_key(x) implies self.view()[x]
            == before.view().insert(k, value)[x] by {
            let j = choose|j: int| 0 <= j < self.entries.len() && #[trigger] self.key_at(j) == x;
            self.lemma_view_at(j);
            if j != i {
                assert(before.key_at(j) == self.key_at(j));
                before.lemma_view_at(j);
            }
        }
        assert(self.view() =~= before.view().insert(k, value));
    }

    proof fn lemma_pushed_view(&self, before: &Self, value: V)
        requires
            before.wf(),
            self.wf(),
            self.entries.len() == before.entries.len() + 1,
            forall|j: int| 0 <= j < before.entries.len() ==> self.entries@[j] == before.entries@[j],
            self.entries@.last().1 == value,
        ensures
            self.view() == before.view().insert(self.key_at(before.entries.len() as int), value),
    {
        let n = before.entries.len() as int;
        let k = self.key_at(n);
        assert forall|x: Seq<char>| self.holds(x) <==> before.holds(x) || x == k by {
            if self.holds(x) {
                let j = choose|j: int| 0 <= j < self.entries.len() && #[trigger] self.key_at(j) == x;
                if j < n {
                    assert(before.key_at(j) == self.key_at(j));
                }
            }
            if before.holds(x) {
                let j = choose|j: int| 0 <= j < before.entries.len() && #[trigger] before.key_at(j) == x;
                assert(before.key_at(j) == self.key_at(j));
            }
            if x == k {
                assert(self.key_at(n) == x);
            }
        }
        assert forall|x: Seq<char>| #[trigger] self.view().contains_key(x) implies self.view()[x]
            == before.view().insert(k, value)[x] by {
            let j = choose|j: int| 0 <= j < self.entries.len() && #[trigger] self.key_at(j) == x;
            self.lemma_view_at(j);
            if j != n {
                assert(before.key_at(j) == self.key_at(j));
                before.lemma_view_at(j);
            }
        }
        assert(self.view() =~= before.view().insert(k, value));
    }

    /// Takes out the value stored under `key`, if any.
    pub fn remove(&mut self, key: &String) -> (r: Option<V>)
        requires
            old(self).wf(),
        ensures
            final(self).wf(),
            final(self).view() == old(self).view().remove(key@),
            match r {
                Some(v) => old(self).view().contains_key(key@) && v == old(self).view()[key@],
                None => !old(self).view().contains_key(key@),
            },
    {
        match self.position(key) {
            Some(i) => {
                proof {
                    self.lemma_view_at(i as int);
                }
                let (_, v) = self.entries.remove(i);
                proof {
                    let ii = i as int;
                    assert forall|a: int, b: int|
                        0 <= a < self.entries.len() && 0 <= b < self.entries.len() && a != b
                            implies #[trigger] self.key_at(a) != #[trigger] self.key_at(b) by {
                        let oa = if a < ii { a } else { a + 1 };
                        let ob = if b < ii { b } else { b + 1 };
                        assert(self.key_at(a) == old(self).key_at(oa));
                        assert(self.key_at(b) == old(self).key_at(ob));
                    }
                    self.lemma_removed_view(old(self), ii);
                }
                Some(v)
            },
            None => {
                assert(old(self).view().remove(key@) =~= old(self).view());
                None
            },
        }
    }

    proof fn lemma_removed_view(&self, before: &Self, i: int)
        requires
            before.wf(),
            self.wf(),
            0 <= i < before.entries.len(),
            self.entries@ == before.entries@.remove(i),
        ensures
            self.view() == before.view().remove(before.key_at(i)),
    {
        let k = before.key_at(i);
        assert forall|x: Seq<char>| self.holds(x) <==> before.holds(x) && x != k by {
            if self.holds(x) {
                let j = choose|j: int| 0 <= j < self.entries.len() && #[trigger] self.key_at(j) == x;
                let oj = if j < i { j } else { j + 1 };
                assert(before.key_at(oj) == self.key_at(j));
                assert(oj != i);
            }
            if before.holds(x) && x != k {
                let j = choose|j: int| 0 <= j < before.entries.len() && #[trigger] before.key_at(j) == x;
                assert(j != i);
                let nj = if j < i { j } else { j - 1 };
                assert(self.key_at(nj) == before.key_at(j));
            }
        }
        assert forall|x: Seq<char>| #[trigger] self.view().contains_key(x) implies self.view()[x]
            == before.view().remove(k)[x] by {
            let j = choose|j: int| 0 <= j < self.entries.len() && #[trigger] self.key_at(j) == x;
            self.lemma_view_at(j);
            let oj = if j < i { j } else { j + 1 };
            assert(before.key_at(oj) == self.key_at(j));
            before.lemma_view_at(oj);
        }
        assert(self.view() =~= before.view().remove(k));
    }

    /// How many names the table holds.
    pub closed spec fn size(&self) -> nat {
        self.entries@.len()
    }

    /// How many names the table holds.
    pub fn len(&self) -> (n: usize)
        ensures
            n == self.size(),
    {
        self.entries.len()
    }

    /// A table cannot hold `size() + 1` different names: of any that many
    /// pairwise different names, one is missing.
    pub proof fn lemma_cannot_hold_all(&self, names: spec_fn(int) -> Seq<char>)
        requires
            self.wf(),
            forall|a: int, b: int| 0 <= a < b <= self.size() ==> #[trigger] names(a) != #[trigger] names(b),
        ensures
            exists|k: int| 0 <= k <= self.size() && !self.view().contains_key(#[trigger] names(k)),
    {
        if forall|k: int| 0 <= k <= self.size() ==> self.view().contains_key(#[trigger] names(k)) {
            let n = self.size() as int;
            let pos = |k: int| choose|i: int| 0 <= i < n && #[trigger] self.key_at(i) == names(k);
            let x = vstd::set_lib::set_int_range(0, n + 1);
            vstd::set_lib::lemma_int_range(0, n + 1);
            vstd::set_lib::lemma_int_range(0, n);
            assert forall|k: int| 0 <= k <= n implies 0 <= #[trigger] pos(k) < n
                && self.key_at(pos(k)) == names(k) by {
                assert(self.view().contains_key(names(k)));
                assert(self.holds(names(k)));
            }
            assert(vstd::relations::injective_on(pos, x)) by {
                assert forall|a: int, b: int| x.contains(a) && x.contains(b) && #[trigger] pos(a)
                    == #[trigger] pos(b) implies a == b by {
                    if a != b {
                        if a < b {
                            assert(names(a) != names(b));
                        } else {
                            assert(names(b) != names(a));
                        }
                    }
                }
            }
            let y = x.map(pos);
            vstd::set_lib::lemma_map_size(x, y, pos);
            assert(y.subset_of(vstd::set_lib::set_int_range(0, n))) by {
                assert forall|v: int| y.contains(v) implies vstd::set_lib::set_int_range(0, n).contains(v) by {
                    let k = choose|k: int| x.contains(k) && pos(k) == v;
                }
            }
            vstd::set_lib::lemma_len_subset(y, vstd::set_lib::set_int_range(0, n));
            assert(false);
        }
    }
}

} // verus!
