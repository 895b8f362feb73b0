//! A map from strings to values, as the contract's keyed stores hold them.
use vstd::prelude::*;

verus! {

/// Values stored under string keys; each key occurs at most once.
pub struct StringMap<V> {
    entries: Vec<(String, V)>,
}

impl<V> StringMap<V> {
    /// No key occurs twice.
    pub closed spec fn wf(&self) -> bool {
        forall|i: int, j: int|
            0 <= i < j < self.entries@.len() ==> #[trigger] self.entries@[i].0@ != #[trigger] self.entries@[j].0@
    }

    pub closed spec fn has_key_at(&self, k: Seq<char>, i: int) -> bool {
        0 <= i < self.entries@.len() && self.entries@[i].0@ == k
    }

    /// The stored values by key.
    pub closed spec fn spec_map(&self) -> Map<Seq<char>, V> {
        Map::new(
            |k: Seq<char>| exists|i: int| self.has_key_at(k, i),
            |k: Seq<char>| self.entries@[choose|i: int| self.has_key_at(k, i)].1,
        )
    }

    proof fn lemma_lookup(&self, i: int)
        requires
            self.wf(),
            0 <= i < self.entries@.len(),
        ensures
            self.spec_map().dom().contains(self.entries@[i].0@),
            self.spec_map()[self.entries@[i].0@] == self.entries@[i].1,
    {
        let k = self.entries@[i].0@;
        assert(self.has_key_at(k, i));
        let c = choose|c: int| self.has_key_at(k, c);
        if c != i {
            if c < i {
                assert(self.entries@[c].0@ != self.entries@[i].0@);
            } else {
                assert(self.entries@[i].0@ != self.entries@[c].0@);
            }
        }
    }

    /// The empty map.
    pub fn new() -> (res: Self)
        ensures
            res.wf(),
            res.spec_map() == Map::<Seq<char>, V>::empty(),
    {
        let res = StringMap { entries: Vec::new() };
        assert(res.spec_map() =~= Map::<Seq<char>, V>::empty());
        res
    }

    /// The position of `key`, if it is stored.
    fn find(&self, key: &String) -> (res: Option<usize>)
        requires
            self.wf(),
        ensures
            match res {
                Some(i) => i < self.entries@.len() && self.entries@[i as int].0@ == key@,
                None => !self.spec_map().dom().contains(key@),
            },
    {
        let n = self.entries.len();
        for i in 0..n
            invariant
                n == self.entries@.len(),
                forall|j: int| 0 <= j < i ==> self.entries@[j].0@ != key@,
        {
            if self.entries[i].0 == *key {
                return Some(i);
            }
        }
        proof {
            if self.spec_map().dom().contains(key@) {
                let c = choose|c: int| self.has_key_at(key@, c);
                assert(self.entries@[c].0@ != key@);
            }
        }
        None
    }

    /// The value stored under `key`, if any.
    pub fn get(&self, key: &String) -> (res: Option<&V>)
        requires
            self.wf(),
        ensures
            match res {
                Some(v) => self.spec_map().dom().contains(key@) && *v == self.spec_map()[key@],
                None => !self.spec_map().dom().contains(key@),
            },
    {
        match self.find(key) {
            Some(i) => {
                proof {
                    self.lemma_lookup(i as int);
                }
                Some(&self.entries[i].1)
            },
            None => None,
        }
    }

    /// Stores `value` under `key`, replacing what was stored there.
    pub fn insert(&mut self, key: String, value: V)
        requires
            old(self).wf(),
        ensures
            final(self).wf(),
            final(self).spec_map() == old(self).spec_map().insert(key@, value),
    {
        let ghost k = key@;
        let ghost v = value;
        let ghost before = *self;
        match self.find(&key) {
            Some(i) => {
                self.entries.set(i, (key, value));
                proof {
                    assert forall|a: int, b: int|
                        0 <= a < b < self.entries@.len() implies #[trigger] self.entries@[a].0@
                        != #[trigger] self.entries@[b].0@ by {
                        assert(before.entries@[a].0@ != before.entries@[b].0@);
                    }
                    assert forall|q: Seq<char>|
                        #[trigger] self.spec_map().dom().contains(q) <==> before.spec_map().insert(
                            k,
                            v,
                        ).dom().contains(q) by {
                        if before.spec_map().dom().contains(q) {
                            let c = choose|c: int| before.has_key_at(q, c);
                            assert(self.has_key_at(q, c));
                        }
                        if self.spec_map().dom().contains(q) && q != k {
                            let c = choose|c: int| self.has_key_at(q, c);
                            assert(before.has_key_at(q, c));
                        }
                        if q == k {
                            assert(self.has_key_at(q, i as int));
                        }
                    }
                    assert forall|q: Seq<char>| #[trigger]
                        self.spec_map().dom().contains(q) implies self.spec_map()[q]
                        == before.spec_map().insert(k, v)[q] by {
                        let c = choose|c: int| self.has_key_at(q, c);
                        self.lemma_lookup(c);
                        if q != k {
                            before.lemma_lookup(c);
                        }
                    }
                    assert(self.spec_map() =~= before.spec_map().insert(k, v));
                }
            },
            None => {
                self.entries.push((key, value));
                proof {
                    let n = before.entries@.len() as int;
                    assert forall|a: int, b: int|
                        0 <= a < b < self.entries@.len() implies #[trigger] self.entries@[a].0@
                        != #[trigger] self.entries@[b].0@ by {
                        if b == n {
                            assert(before.has_key_at(before.entries@[a].0@, a));
                        } else {
                            assert(before.entries@[a].0@ != before.entries@[b].0@);
                        }
                    }
                    assert forall|q: Seq<char>|
                        #[trigger] self.spec_map().dom().contains(q) <==> before.spec_map().insert(
                            k,
                            v,
                        ).dom().contains(q) by {
                        if before.spec_map().dom().contains(q) {
                            let c = choose|c: int| before.has_key_at(q, c);
                            assert(self.has_key_at(q, c));
                        }
                        if self.spec_map().dom().contains(q) && q != k {
                            let c = choose|c: int| self.has_key_at(q, c);
                            assert(before.has_key_at(q, c));
                        }
                        if q == k {
                            assert(self.has_key_at(q, n));
                        }
                    }
                    assert forall|q: Seq<char>| #[trigger]
                        self.spec_map().dom().contains(q) implies self.spec_map()[q]
                        == before.spec_map().insert(k, v)[q] by {
                        let c = choose|c: int| self.has_key_at(q, c);
                        self.lemma_lookup(c);
                        if q != k {
                            before.lemma_lookup(c);
                        }
                    }
                    assert(self.spec_map() =~= before.spec_map().insert(k, v));
                }
            },
        }
    }

    /// How many keys are stored.
    pub fn len(&self) -> (res: usize)
        requires
            self.wf(),
        ensures
            res == self.spec_map().dom().len(),
    {
        proof {
            self.lemma_dom_len();
        }
        self.entries.len()
    }

    proof fn lemma_dom_len(&self)
        requires
            self.wf(),
        ensures
            self.spec_map().dom().finite(),
            self.spec_map().dom().len() == self.entries@.len(),
    {
        let keys = self.entries@.map_values(|e: (String, V)| e.0@);
        assert(self.spec_map().dom() =~= keys.to_set()) by {
            assert forall|q: Seq<char>| self.spec_map().dom().contains(q) implies keys.to_set().contains(q) by {
                let c = choose|c: int| self.has_key_at(q, c);
                assert(keys[c] == q);
            }
            assert forall|q: Seq<char>| keys.to_set().contains(q) implies self.spec_map().dom().contains(q) by {
                let c = choose|c: int| 0 <= c < keys.len() && keys[c] == q;
                assert(self.has_key_at(q, c));
            }
        }
        assert(keys.no_duplicates()) by {
            assert forall|a: int, b: int| 0 <= a < keys.len() && 0 <= b < keys.len() && a != b implies keys[a] != keys[b] by {
                if a < b {
                    assert(self.entries@[a].0@ != self.entries@[b].0@);
                } else {
                    assert(self.entries@[b].0@ != self.entries@[a].0@);
                }
            }
        }
        keys.unique_seq_to_set();
    }

    /// The key and value at position `i`, for walking all entries.
    pub fn entry_at(&self, i: usize) -> (res: (&String, &V))
        requires
            self.wf(),
            i < self.spec_map().dom().len(),
        ensures
            self.spec_map().dom().contains(res.0@),
            self.spec_map()[res.0@] == *res.1,
    {
        proof {
            self.lemma_dom_len();
            self.lemma_lookup(i as int);
        }
        (&self.entries[i].0, &self.entries[i].1)
    }
}

} // verus!
