use vstd::prelude::*;

verus! {

/// One key and its value.
pub struct Entry<V> {
    key: String,
    value: V,
}

/// `k` is the first position in `keys` that holds `key`.
pub open spec fn is_first_key(keys: Seq<Seq<char>>, key: Seq<char>, k: int) -> bool {
    &&& 0 <= k < keys.len()
    &&& keys[k] == key
    &&& forall|j: int| 0 <= j < k ==> keys[j] != key
}

/// The map that a list of keys and values stands for: each key maps to the
/// value at its first position.
pub open spec fn first_key_map<V>(keys: Seq<Seq<char>>, values: Seq<V>) -> Map<Seq<char>, V> {
    Map::new(
        |key: Seq<char>| exists|k: int| is_first_key(keys, key, k),
        |key: Seq<char>| values[choose|k: int| is_first_key(keys, key, k)],
    )
}

/// A map keyed by strings, kept as a list of entries in the order in which
/// their keys were first inserted.
pub struct StringMap<V> {
    entries: Vec<Entry<V>>,
}

proof fn lemma_first_key_unique(keys: Seq<Seq<char>>, key: Seq<char>, k1: int, k2: int)
    requires
        is_first_key(keys, key, k1),
        is_first_key(keys, key, k2),
    ensures
        k1 == k2,
{
    if k1 < k2 {
        assert(keys[k1] != key);
    }
    if k2 < k1 {
        assert(keys[k2] != key);
    }
}

/// Replacing the value at the first position of a key maps that key to the
/// new value and leaves every other key as it was.
proof fn lemma_update_first<V>(keys: Seq<Seq<char>>, values: Seq<V>, key: Seq<char>, k: int, v: V)
    requires
        keys.len() == values.len(),
        is_first_key(keys, key, k),
    ensures
        first_key_map(keys, values.update(k, v)) == first_key_map(keys, values).insert(key, v),
{
    let m1 = first_key_map(keys, values.update(k, v));
    let m2 = first_key_map(keys, values).insert(key, v);
    assert forall|x: Seq<char>| #[trigger] m1.contains_key(x) <==> m2.contains_key(x) by {}
    assert forall|x: Seq<char>| m1.contains_key(x) implies #[trigger] m1[x] == m2[x] by {
        let c = choose|c: int| is_first_key(keys, x, c);
        if x == key {
            lemma_first_key_unique(keys, key, c, k);
        } else {
            assert(c != k);
        }
    }
    assert(m1 =~= m2);
}

/// Adding a key that is not there yet at the end maps it to its value and
/// leaves every other key as it was.
proof fn lemma_push_new<V>(keys: Seq<Seq<char>>, values: Seq<V>, key: Seq<char>, v: V)
    requires
        keys.len() == values.len(),
        forall|j: int| 0 <= j < keys.len() ==> keys[j] != key,
    ensures
        first_key_map(keys.push(key), values.push(v)) == first_key_map(keys, values).insert(key, v),
{
    let keys2 = keys.push(key);
    let values2 = values.push(v);
    let m1 = first_key_map(keys2, values2);
    let m2 = first_key_map(keys, values).insert(key, v);
    assert(is_first_key(keys2, key, keys.len() as int));
    assert forall|x: Seq<char>| #[trigger] m1.contains_key(x) <==> m2.contains_key(x) by {
        if x != key {
            if m1.contains_key(x) {
                let c = choose|c: int| is_first_key(keys2, x, c);
                assert(c != keys.len());
                assert(forall|j: int| 0 <= j < c ==> keys2[j] == keys[j]);
                assert(is_first_key(keys, x, c));
            }
            if m2.contains_key(x) {
                let c = choose|c: int| is_first_key(keys, x, c);
                assert(is_first_key(keys2, x, c));
            }
        }
    }
    assert forall|x: Seq<char>| m1.contains_key(x) implies #[trigger] m1[x] == m2[x] by {
        let c = choose|c: int| is_first_key(keys2, x, c);
        if x == key {
            lemma_first_key_unique(keys2, key, c, keys.len() as int);
        } else {
            assert(c != keys.len());
            assert(forall|j: int| 0 <= j < c ==> keys2[j] == keys[j]);
            assert(is_first_key(keys, x, c));
            let d = choose|d: int| is_first_key(keys, x, d);
            lemma_first_key_unique(keys, x, c, d);
        }
    }
    assert(m1 =~= m2);
}

impl<V> StringMap<V> {
    /// The keys, in the order of the entries.
    pub closed spec fn keys(self) -> Seq<Seq<char>> {
        self.entries@.map_values(|e: Entry<V>| e.key@)
    }

    /// The values, in the order of the entries.
    pub closed spec fn values(self) -> Seq<V> {
        self.entries@.map_values(|e: Entry<V>| e.value)
    }

    /// No key is held by two entries.
    pub closed spec fn wf(self) -> bool {
        self.keys().no_duplicates()
    }

    /// The key of the earliest entry, when there is one.
    pub closed spec fn first_key(self) -> Seq<char> {
        self.keys()[0]
    }

    /// The map that the entries stand for.
    pub open spec fn view(self) -> Map<Seq<char>, V> {
        first_key_map(self.keys(), self.values())
    }

    pub fn new() -> (m: Self)
        ensures
            m.view() == Map::<Seq<char>, V>::empty(),
            m.wf(),
    {
        let m = StringMap { entries: Vec::new() };
        assert(m.view() =~= Map::<Seq<char>, V>::empty());
        m
    }

    /// The position of the first entry with the key, if any.
    fn position(&self, key: &String) -> (r: Option<usize>)
        ensures
            match r {
                Some(k) => is_first_key(self.keys(), key@, k as int),
                None => forall|j: int| 0 <= j < self.keys().len() ==> self.keys()[j] != key@,
            },
            self.keys().len() == self.values().len(),
            self.keys().len() == self.entries@.len(),
    {
        let n = self.entries.len();
        let mut i: usize = 0;
        while i < n
            invariant
                n == self.entries@.len(),
                i <= n,
                forall|j: int| 0 <= j < i ==> self.keys()[j] != key@,
            decreases n - i,
        {
            if self.entries[i].key == *key {
                return Some(i);
            }
            i = i + 1;
        }
        None
    }

    /// The value of the key, if there is one.
    pub fn get(&self, key: &String) -> (r: Option<&V>)
        ensures
            match r {
                Some(v) => self.view().contains_key(key@) && *v == self.view()[key@],
                None => !self.view().contains_key(key@),
            },
    {
        match self.position(key) {
            Some(k) => {
                proof {
                    let c = choose|c: int| is_first_key(self.keys(), key@, c);
                    lemma_first_key_unique(self.keys(), key@, c, k as int);
                }
                Some(&self.entries[k].value)
            },
            None => None,
        }
    }

    /// The value of the key, to change in place, if there is one. What the
    /// caller leaves there becomes the key's value.
    pub fn get_mut(&mut self, key: &String) -> (r: Option<&mut V>)
        ensures
            match r {
                Some(v) => {
                    &&& old(self).view().contains_key(key@)
                    &&& *v == old(self).view()[key@]
                    &&& final(self).view() == old(self).view().insert(key@, *final(v))
                },
                None => {
                    &&& !old(self).view().contains_key(key@)
                    &&& *final(self) == *old(self)
                },
            },
            old(self).wf() ==> final(self).wf(),
    {
        match self.position(key) {
            Some(k) => {
                proof {
                    let c = choose|c: int| is_first_key(self.keys(), key@, c);
                    lemma_first_key_unique(self.keys(), key@, c, k as int);
                    let es = self.entries@;
                    assert forall|w: V|
                        #![trigger es.update(k as int, Entry { key: es[k as int].key, value: w })]
                        {
                            let es2 = es.update(k as int, Entry { key: es[k as int].key, value: w });
                            &&& first_key_map(
                                es2.map_values(|e: Entry<V>| e.key@),
                                es2.map_values(|e: Entry<V>| e.value),
                            ) == self.view().insert(key@, w)
                            &&& es2.map_values(|e: Entry<V>| e.key@) == self.keys()
                        } by {
                        let es2 = es.update(k as int, Entry { key: es[k as int].key, value: w });
                        assert(es2.map_values(|e: Entry<V>| e.key@) =~= self.keys());
                        assert(es2.map_values(|e: Entry<V>| e.value) =~= self.values().update(
                            k as int,
                            w,
                        ));
                        lemma_update_first(self.keys(), self.values(), key@, k as int, w);
                    }
                }
                let v = &mut self.entries[k].value;
                Some(v)
            },
            None => None,
        }
    }

    /// Maps the key to the value, in place of any value that it had.
    pub fn insert(&mut self, key: String, value: V)
        ensures
            final(self).view() == old(self).view().insert(key@, value),
            old(self).wf() ==> final(self).wf(),
    {
        match self.position(&key) {
            Some(k) => {
                let ghost keys = self.keys();
                let ghost values = self.values();
                self.entries.set(k, Entry { key, value });
                proof {
                    assert(self.keys() =~= keys);
                    assert(self.values() =~= values.update(k as int, value));
                    lemma_update_first(keys, values, key@, k as int, value);
                }
            },
            None => {
                let ghost keys = self.keys();
                let ghost values = self.values();
                let ghost kv = key@;
                self.entries.push(Entry { key, value });
                proof {
                    assert(self.keys() =~= keys.push(kv));
                    assert(old(self).wf() ==> self.keys().no_duplicates()) by {
                        if old(self).wf() {
                            assert forall|a: int, b: int|
                                0 <= a < self.keys().len() && 0 <= b < self.keys().len() && a != b
                                implies self.keys()[a] != self.keys()[b] by {
                                if a < keys.len() && b < keys.len() {
                                    assert(keys[a] != keys[b]);
                                }
                            }
                        }
                    }
                    assert(self.values() =~= values.push(value));
                    lemma_push_new(keys, values, kv, value);
                }
            },
        }
    }

    /// The value of the earliest entry, to change in place, if the map is not
    /// empty. What the caller leaves there becomes that key's value.
    pub fn first_value_mut(&mut self) -> (r: Option<&mut V>)
        ensures
            match r {
                Some(v) => {
                    &&& old(self).view().contains_key(old(self).first_key())
                    &&& *v == old(self).view()[old(self).first_key()]
                    &&& final(self).view() == old(self).view().insert(old(self).first_key(), *final(v))
                },
                None => {
                    &&& old(self).view().dom() == Set::<Seq<char>>::empty()
                    &&& *final(self) == *old(self)
                },
            },
            old(self).wf() ==> final(self).wf(),
    {
        if self.entries.len() == 0 {
            proof {
                assert(self.view().dom() =~= Set::<Seq<char>>::empty());
            }
            return None;
        }
        proof {
            let keys = self.keys();
            let key = keys[0];
            assert(is_first_key(keys, key, 0));
            let c = choose|c: int| is_first_key(keys, key, c);
            lemma_first_key_unique(keys, key, c, 0);
            let es = self.entries@;
            assert forall|w: V|
                #![trigger es.update(0, Entry { key: es[0].key, value: w })]
                {
                    let es2 = es.update(0, Entry { key: es[0].key, value: w });
                    &&& first_key_map(
                        es2.map_values(|e: Entry<V>| e.key@),
                        es2.map_values(|e: Entry<V>| e.value),
                    ) == self.view().insert(key, w)
                    &&& es2.map_values(|e: Entry<V>| e.key@) == keys
                } by {
                let es2 = es.update(0, Entry { key: es[0].key, value: w });
                assert(es2.map_values(|e: Entry<V>| e.key@) =~= keys);
                assert(es2.map_values(|e: Entry<V>| e.value) =~= self.values().update(0, w));
                lemma_update_first(keys, self.values(), key, 0, w);
            }
            assert(self.view().contains_key(key));
        }
        let v = &mut self.entries[0].value;
        Some(v)
    }
}

/// A key that has just been inserted is found with the inserted value, and
/// every other key is found as before.
pub proof fn lemma_get_after_insert<V>(m: Map<Seq<char>, V>, key: Seq<char>, value: V, other: Seq<char>)
    ensures
        m.insert(key, value).contains_key(key),
        m.insert(key, value)[key] == value,
        other != key ==> m.insert(key, value).contains_key(other) == m.contains_key(other),
        other != key && m.contains_key(other) ==> m.insert(key, value)[other] == m[other],
{
}

/// Inserting a key twice keeps only the later value.
pub proof fn lemma_insert_twice<V>(m: Map<Seq<char>, V>, key: Seq<char>, v1: V, v2: V)
    ensures
        m.insert(key, v1).insert(key, v2) == m.insert(key, v2),
{
    assert(m.insert(key, v1).insert(key, v2) =~= m.insert(key, v2));
}

} // verus!
