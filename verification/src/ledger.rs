use vstd::prelude::*;

verus! {

/// The characters of each text.
pub open spec fn key_views(keys: Seq<String>) -> Seq<Seq<char>> {
    Seq::new(keys.len(), |i: int| keys[i]@)
}

/// Whether no text stands twice among the keys.
pub open spec fn distinct(keys: Seq<Seq<char>>) -> bool {
    forall|i: int, j: int| 0 <= i < j < keys.len() ==> keys[i] != keys[j]
}

/// A position of `key` among the keys.
pub open spec fn key_position(keys: Seq<String>, key: Seq<char>) -> int {
    choose|i: int| 0 <= i < keys.len() && keys[i]@ == key
}

/// A map from texts to values that keeps its entries in a list, each key
/// once.
pub struct Ledger<V> {
    keys: Vec<String>,
    values: Vec<V>,
}

impl<V> Ledger<V> {
    /// What the ledger holds of itself between calls.
    pub closed spec fn wf(&self) -> bool {
        &&& self.keys@.len() == self.values@.len()
        &&& distinct(key_views(self.keys@))
    }

    /// The number of entries.
    pub closed spec fn count(&self) -> nat {
        self.keys@.len()
    }

    /// The key of entry `i`.
    pub closed spec fn key_at(&self, i: int) -> Seq<char> {
        self.keys@[i]@
    }

    /// The value of entry `i`.
    pub closed spec fn value_at(&self, i: int) -> V {
        self.values@[i]
    }

    /// The entries as a map.
    pub closed spec fn entries(&self) -> Map<Seq<char>, V> {
        Map::new(
            |key: Seq<char>| exists|i: int| 0 <= i < self.keys@.len() && self.keys@[i]@ == key,
            |key: Seq<char>| self.values@[key_position(self.keys@, key)],
        )
    }

    /// Entry `i` is in the map, under its key and with its value.
    pub proof fn lemma_entry(&self, i: int)
        requires
            self.wf(),
            0 <= i < self.count(),
        ensures
            self.entries().contains_key(self.key_at(i)),
            self.entries()[self.key_at(i)] == self.value_at(i),
    {
        let key = self.keys@[i]@;
        let j = key_position(self.keys@, key);
        let keys = key_views(self.keys@);
        assert(keys[i] == key && keys[j] == key);
        if i < j {
            assert(keys[i] != keys[j]);
        } else if j < i {
            assert(keys[j] != keys[i]);
        }
    }

    /// Every key of the map is the key of an entry.
    pub proof fn lemma_key(&self, key: Seq<char>) -> (i: int)
        requires
            self.wf(),
            self.entries().contains_key(key),
        ensures
            0 <= i < self.count(),
            self.key_at(i) == key,
            self.entries()[key] == self.value_at(i),
    {
        let i = key_position(self.keys@, key);
        self.lemma_entry(i);
        i
    }

    /// No two entries share a key.
    pub proof fn lemma_keys_differ(&self, i: int, j: int)
        requires
            self.wf(),
            0 <= i < self.count(),
            0 <= j < self.count(),
            i != j,
        ensures
            self.key_at(i) != self.key_at(j),
    {
        let keys = key_views(self.keys@);
        if i < j {
            assert(keys[i] != keys[j]);
        } else {
            assert(keys[j] != keys[i]);
        }
    }

    /// A ledger without entries.
    pub fn new() -> (l: Self)
        ensures
            l.wf(),
            l.count() == 0,
            l.entries() == Map::<Seq<char>, V>::empty(),
    {
        let l = Ledger { keys: Vec::new(), values: Vec::new() };
        assert(l.entries() =~= Map::<Seq<char>, V>::empty());
        l
    }

    /// The number of entries.
    pub fn len(&self) -> (n: usize)
        requires
            self.wf(),
        ensures
            n == self.count(),
    {
        self.keys.len()
    }

    /// The value of entry `i`.
    pub fn value(&self, i: usize) -> (v: &V)
        requires
            self.wf(),
            i < self.count(),
        ensures
            *v == self.value_at(i as int),
    {
        &self.values[i]
    }

    /// The entry with the key `key`.
    pub fn find(&self, key: &str) -> (r: Option<usize>)
        requires
            self.wf(),
        ensures
            match r {
                Some(i) => i < self.count() && self.key_at(i as int) == key@
                    && self.entries().contains_key(key@) && self.entries()[key@] == self.value_at(
                    i as int,
                ),
                None => !self.entries().contains_key(key@),
            },
    {
        let wanted = key.to_owned();
        let mut i: usize = 0;
        while i < self.keys.len()
            invariant
                self.wf(),
                i <= self.keys@.len(),
                wanted@ == key@,
                forall|k: int| 0 <= k < i ==> self.keys@[k]@ != key@,
            decreases self.keys@.len() - i,
        {
            if self.keys[i] == wanted {
                proof {
                    self.lemma_entry(i as int);
                }
                return Some(i);
            }
            i += 1;
        }
        None
    }

    /// Puts `value` under `key`, in place of what was there.
    pub fn put(&mut self, key: &str, value: V)
        requires
            old(self).wf(),
        ensures
            final(self).wf(),
            final(self).entries() == old(self).entries().insert(key@, value),
    {
        let at = match self.find(key) {
            Some(i) => {
                self.values.set(i, value);
                i
            },
            None => {
                self.keys.push(key.to_owned());
                self.values.push(value);
                proof {
                    let keys = key_views(self.keys@);
                    let before = key_views(old(self).keys@);
                    assert forall|i: int, j: int| 0 <= i < j < keys.len() implies keys[i]
                        != keys[j] by {
                        if j < before.len() {
                            assert(before[i] != before[j]);
                        } else {
                            assert(old(self).keys@[i]@ != key@);
                        }
                    }
                }
                self.keys.len() - 1
            },
        };
        proof {
            let target = old(self).entries().insert(key@, value);
            self.lemma_entry(at as int);
            assert forall|k: Seq<char>| self.entries().contains_key(k) <==> target.contains_key(
                k,
            ) by {
                if self.entries().contains_key(k) && k != key@ {
                    let i = self.lemma_key(k);
                    assert(old(self).keys@[i]@ == k);
                }
                if old(self).entries().contains_key(k) {
                    let i = old(self).lemma_key(k);
                    assert(self.keys@[i]@ == k);
                }
            }
            assert forall|k: Seq<char>| self.entries().contains_key(k) implies self.entries()[k]
                == target[k] by {
                if k != key@ {
                    let i = old(self).lemma_key(k);
                    assert(self.keys@[i]@ == k);
                    self.lemma_entry(i);
                }
            }
            assert(self.entries() =~= target);
        }
    }

    /// Keeps the entries that are marked and drops the others.
    pub fn keep_marked(&mut self, keep: &Vec<bool>)
        requires
            old(self).wf(),
            keep@.len() == old(self).count(),
        ensures
            final(self).wf(),
            forall|i: int|
                0 <= i < old(self).count() ==> (final(self).entries().contains_key(
                    #[trigger] old(self).key_at(i),
                ) <==> keep@[i]),
            forall|k: Seq<char>| #[trigger]
                final(self).entries().contains_key(k) ==> old(self).entries().contains_key(k)
                    && final(self).entries()[k] == old(self).entries()[k],
    {
        let mut keys: Vec<String> = Vec::new();
        let mut values: Vec<V> = Vec::new();
        let ghost all_keys = self.keys@;
        let ghost all_values = self.values@;
        let ghost mut from: Seq<int> = Seq::empty();
        let mut i: usize = self.keys.len();
        while i > 0
            invariant
                old(self).wf(),
                all_keys == old(self).keys@,
                all_values == old(self).values@,
                keep@.len() == all_keys.len(),
                i <= all_keys.len(),
                self.keys@ == all_keys.take(i as int),
                self.values@ == all_values.take(i as int),
                keys@.len() == values@.len(),
                from.len() == keys@.len(),
                forall|k: int|
                    0 <= k < from.len() ==> i <= (#[trigger] from[k]) < all_keys.len()
                        && keep@[from[k]] && all_keys[from[k]]@ == keys@[k]@
                        && all_values[from[k]] == values@[k],
                forall|j: int|
                    i <= j < all_keys.len() && #[trigger] keep@[j] ==> exists|k: int|
                        0 <= k < keys@.len() && (#[trigger] keys@[k])@ == all_keys[j]@,
                distinct(key_views(keys@)),
            decreases i,
        {
            i -= 1;
            let key = self.keys.pop().unwrap();
            let value = self.values.pop().unwrap();
            assert(key == all_keys[i as int] && value == all_values[i as int]);
            assert(self.keys@ =~= all_keys.take(i as int));
            assert(self.values@ =~= all_values.take(i as int));
            if keep[i] {
                let ghost held = keys@;
                proof {
                    assert forall|k: int| 0 <= k < held.len() implies held[k]@ != key@ by {
                        old(self).lemma_keys_differ(i as int, from[k]);
                    }
                }
                keys.push(key);
                values.push(value);
                proof {
                    from = from.push(i as int);
                    let views = key_views(keys@);
                    let before = key_views(held);
                    assert forall|a: int, b: int| 0 <= a < b < views.len() implies views[a]
                        != views[b] by {
                        if b < before.len() {
                            assert(before[a] != before[b]);
                        } else {
                            assert(held[a]@ != key@);
                        }
                    }
                    assert forall|j: int| i <= j < all_keys.len() && #[trigger] keep@[j] implies exists|
                        k: int,
                    | 0 <= k < keys@.len() && (#[trigger] keys@[k])@ == all_keys[j]@ by {
                        if j == i {
                            assert(keys@[held.len() as int]@ == all_keys[j]@);
                        } else {
                            let k = choose|k: int|
                                0 <= k < held.len() && (#[trigger] held[k])@ == all_keys[j]@;
                            assert(keys@[k]@ == all_keys[j]@);
                        }
                    }
                }
            }
        }
        self.keys = keys;
        self.values = values;
        proof {
            assert forall|a: int| 0 <= a < old(self).count() implies (self.entries().contains_key(
                #[trigger] old(self).key_at(a),
            ) <==> keep@[a]) by {
                if keep@[a] {
                    let k = choose|k: int|
                        0 <= k < self.keys@.len() && (#[trigger] self.keys@[k])@ == all_keys[a]@;
                    self.lemma_entry(k);
                }
                if self.entries().contains_key(old(self).key_at(a)) {
                    let k = self.lemma_key(old(self).key_at(a));
                    let j = from[k];
                    if j != a {
                        old(self).lemma_keys_differ(a, j);
                    }
                }
            }
            assert forall|key: Seq<char>| #[trigger]
                self.entries().contains_key(key) implies old(self).entries().contains_key(key)
                && self.entries()[key] == old(self).entries()[key] by {
                let k = self.lemma_key(key);
                old(self).lemma_entry(from[k]);
            }
        }
    }

    /// Drops the entry with the key `key`, if there is one.
    pub fn remove(&mut self, key: &str)
        requires
            old(self).wf(),
        ensures
            final(self).wf(),
            final(self).entries() == old(self).entries().remove(key@),
    {
        let at = match self.find(key) {
            Some(i) => i,
            None => {
                assert(self.entries() =~= self.entries().remove(key@));
                return ;
            },
        };
        let mut keep: Vec<bool> = Vec::new();
        let mut i: usize = 0;
        while i < self.keys.len()
            invariant
                i <= self.keys@.len(),
                keep@.len() == i,
                forall|k: int| 0 <= k < i ==> keep@[k] == (k != at),
            decreases self.keys@.len() - i,
        {
            keep.push(i != at);
            i += 1;
        }
        self.keep_marked(&keep);
        proof {
            let target = old(self).entries().remove(key@);
            assert forall|k: Seq<char>| self.entries().contains_key(k) <==> target.contains_key(
                k,
            ) by {
                if old(self).entries().contains_key(k) {
                    let j = old(self).lemma_key(k);
                    assert(self.entries().contains_key(old(self).key_at(j)) <==> keep@[j]);
                    if j != at {
                        old(self).lemma_keys_differ(j, at as int);
                    }
                }
            }
            assert(self.entries() =~= target);
        }
    }
}

} // verus!
