use vstd::prelude::*;

verus! {

/// The map that a sequence of keys and a sequence of values of the same
/// length stand for: each key maps to the value at its position.
pub open spec fn pairs_to_map<V>(keys: Seq<Seq<char>>, values: Seq<V>) -> Map<Seq<char>, V> {
    Map::new(|k: Seq<char>| keys.contains(k), |k: Seq<char>| values[keys.index_of(k)])
}

/// With distinct keys, the key at position `i` maps to the value at `i`.
pub proof fn lemma_pair_at<V>(keys: Seq<Seq<char>>, values: Seq<V>, i: int)
    requires
        keys.no_duplicates(),
        0 <= i < keys.len(),
    ensures
        pairs_to_map(keys, values).contains_key(keys[i]),
        pairs_to_map(keys, values)[keys[i]] == values[i],
{
    assert(keys.contains(keys[i]));
    let j = keys.index_of(keys[i]);
    assert(0 <= j < keys.len() && keys[j] == keys[i]);
}

/// Appending a key that is not yet there inserts it into the map.
pub proof fn lemma_pair_pushed<V>(keys: Seq<Seq<char>>, values: Seq<V>, k: Seq<char>, v: V)
    requires
        keys.no_duplicates(),
        keys.len() == values.len(),
        !keys.contains(k),
    ensures
        keys.push(k).no_duplicates(),
        pairs_to_map(keys.push(k), values.push(v)) == pairs_to_map(keys, values).insert(k, v),
{
    let keys2 = keys.push(k);
    let values2 = values.push(v);
    assert forall|i: int, j: int| 0 <= i < keys2.len() && 0 <= j < keys2.len() && i != j
        implies keys2[i] != keys2[j] by {
        if i < keys.len() {
            assert(keys[i] == keys2[i]);
        }
        if j < keys.len() {
            assert(keys[j] == keys2[j]);
        }
    }
    let m = pairs_to_map(keys, values).insert(k, v);
    let m2 = pairs_to_map(keys2, values2);
    assert forall|x: Seq<char>| m.contains_key(x) <==> m2.contains_key(x) by {
        if keys.contains(x) {
            let i = keys.index_of(x);
            assert(keys2[i] == x);
        }
        if keys2.contains(x) && x != k {
            let i = keys2.index_of(x);
            assert(keys[i] == x);
        }
        assert(keys2[keys.len() as int] == k);
    }
    assert forall|x: Seq<char>| m.contains_key(x) implies m[x] == m2[x] by {
        let i2 = keys2.index_of(x);
        assert(keys2.contains(x));
        if x == k {
            assert(keys2[keys.len() as int] == k);
            assert(i2 == keys.len());
        } else {
            let i = keys.index_of(x);
            assert(keys2[i] == x);
            assert(i2 == i);
        }
    }
    assert(m =~= m2);
}

/// Replacing the value at position `i` replaces what the key at `i` maps to.
pub proof fn lemma_pair_replaced<V>(keys: Seq<Seq<char>>, values: Seq<V>, i: int, v: V)
    requires
        keys.no_duplicates(),
        keys.len() == values.len(),
        0 <= i < keys.len(),
    ensures
        pairs_to_map(keys, values.update(i, v)) == pairs_to_map(keys, values).insert(keys[i], v),
{
    let m = pairs_to_map(keys, values).insert(keys[i], v);
    let m2 = pairs_to_map(keys, values.update(i, v));
    assert(keys.contains(keys[i]));
    assert forall|x: Seq<char>| m.contains_key(x) implies m[x] == m2[x] by {
        let j = keys.index_of(x);
        assert(keys.contains(x));
    }
    assert(m =~= m2);
}

/// Dropping the last pair removes its key from the map.
pub proof fn lemma_pair_dropped<V>(keys: Seq<Seq<char>>, values: Seq<V>)
    requires
        keys.no_duplicates(),
        keys.len() == values.len(),
        keys.len() > 0,
    ensures
        keys.drop_last().no_duplicates(),
        pairs_to_map(keys.drop_last(), values.drop_last()) == pairs_to_map(keys, values).remove(
            keys.last(),
        ),
{
    let keys2 = keys.drop_last();
    let values2 = values.drop_last();
    let m = pairs_to_map(keys, values).remove(keys.last());
    let m2 = pairs_to_map(keys2, values2);
    assert forall|x: Seq<char>| m.contains_key(x) <==> m2.contains_key(x) by {
        if keys.contains(x) && x != keys.last() {
            let i = keys.index_of(x);
            assert(keys2[i] == x);
        }
        if keys2.contains(x) {
            let i = keys2.index_of(x);
            assert(keys[i] == x);
        }
    }
    assert forall|x: Seq<char>| m.contains_key(x) implies m[x] == m2[x] by {
        assert(keys2.contains(x));
        let i = keys.index_of(x);
        let i2 = keys2.index_of(x);
        assert(keys[i2] == x);
        assert(i == i2);
    }
    assert(m =~= m2);
}

/// The keys of a sequence of entries, in order.
pub open spec fn keys_of<V>(entries: Seq<(String, V)>) -> Seq<Seq<char>> {
    Seq::new(entries.len(), |i: int| entries[i].0@)
}

/// The values of a sequence of entries, in order.
pub open spec fn values_of<V>(entries: Seq<(String, V)>) -> Seq<V> {
    Seq::new(entries.len(), |i: int| entries[i].1)
}

/// A map from text keys to values that keeps its entries in the order in
/// which their keys were first inserted. No key occurs twice.
#[derive(Debug)]
pub struct StrMap<V> {
    entries: Vec<(String, V)>,
}

impl<V> StrMap<V> {
    /// The keys, in insertion order.
    pub closed spec fn keys(&self) -> Seq<Seq<char>> {
        keys_of(self.entries@)
    }

    /// The values, each at the position of its key.
    pub closed spec fn values(&self) -> Seq<V> {
        values_of(self.entries@)
    }

    /// Every key has one value, and no key occurs twice. This holds of every
    /// map that a program can hold.
    #[verifier::type_invariant]
    pub open spec fn wf(&self) -> bool {
        &&& self.keys().len() == self.values().len()
        &&& self.keys().no_duplicates()
    }

    /// The entries as a mathematical map.
    pub open spec fn view(&self) -> Map<Seq<char>, V> {
        pairs_to_map(self.keys(), self.values())
    }

    /// A map without entries.
    pub fn new() -> (r: Self)
        ensures
            r.keys() == Seq::<Seq<char>>::empty(),
            r@ == Map::<Seq<char>, V>::empty(),
    {
        let r = StrMap { entries: Vec::new() };
        assert(r.keys() =~= Seq::<Seq<char>>::empty());
        assert(r@ =~= Map::<Seq<char>, V>::empty());
        r
    }

    /// The number of entries.
    pub fn len(&self) -> (r: usize)
        ensures
            r == self.keys().len(),
            r == self.values().len(),
    {
        self.entries.len()
    }

    /// Whether the map has no entry.
    pub fn is_empty(&self) -> (r: bool)
        ensures
            r == (self.keys().len() == 0),
    {
        self.entries.len() == 0
    }

    /// The position of `key` among the keys, if it is one of them.
    pub fn position(&self, key: &str) -> (r: Option<usize>)
        ensures
            match r {
                Some(i) => i < self.keys().len() && self.keys()[i as int] == key@,
                None => !self.keys().contains(key@),
            },
    {
        let wanted: String = key.to_owned();
        let mut i: usize = 0;
        while i < self.entries.len()
            invariant
                i <= self.entries@.len(),
                wanted@ == key@,
                forall|j: int| 0 <= j < i ==> self.keys()[j] != key@,
            decreases self.entries@.len() - i,
        {
            if self.entries[i].0 == wanted {
                return Some(i);
            }
            i += 1;
        }
        None
    }

    /// Whether `key` has a value.
    pub fn contains_key(&self, key: &str) -> (r: bool)
        ensures
            r == self@.contains_key(key@),
    {
        match self.position(key) {
            Some(i) => {
                assert(self.keys().contains(key@));
                true
            },
            None => false,
        }
    }

    /// The value of `key`, if it has one.
    pub fn get(&self, key: &str) -> (r: Option<&V>)
        ensures
            match r {
                Some(v) => self@.contains_key(key@) && *v == self@[key@],
                None => !self@.contains_key(key@),
            },
    {
        match self.position(key) {
            Some(i) => {
                proof {
                    use_type_invariant(self);
                    lemma_pair_at(self.keys(), self.values(), i as int);
                }
                Some(&self.entries[i].1)
            },
            None => None,
        }
    }

    /// The key at position `i`.
    pub fn key_at(&self, i: usize) -> (r: &String)
        requires
            i < self.keys().len(),
        ensures
            r@ == self.keys()[i as int],
            self@.contains_key(r@),
    {
        proof {
            use_type_invariant(self);
            lemma_pair_at(self.keys(), self.values(), i as int);
        }
        &self.entries[i].0
    }

    /// The value at position `i`: the value of the key at that position.
    pub fn value_at(&self, i: usize) -> (r: &V)
        requires
            i < self.values().len(),
        ensures
            *r == self.values()[i as int],
            i < self.keys().len(),
            self@.contains_key(self.keys()[i as int]),
            self@[self.keys()[i as int]] == *r,
    {
        proof {
            use_type_invariant(self);
            lemma_pair_at(self.keys(), self.values(), i as int);
        }
        &self.entries[i].1
    }

    /// Gives `key` the value `value`, whether or not it had one. A new key
    /// goes behind the others; a known key keeps its position.
    pub fn insert(&mut self, key: String, value: V)
        ensures
            final(self)@ == old(self)@.insert(key@, value),
            final(self).keys() == if old(self).keys().contains(key@) {
                old(self).keys()
            } else {
                old(self).keys().push(key@)
            },
    {
        proof {
            use_type_invariant(&*self);
        }
        // The entries are taken out of the map while they change and put back
        // once they meet the invariant again.
        let found = self.position(key.as_str());
        match found {
            Some(i) => {
                proof {
                    lemma_pair_replaced(old(self).keys(), old(self).values(), i as int, value);
                }
                let mut entries: Vec<(String, V)> = Vec::new();
                core::mem::swap(&mut self.entries, &mut entries);
                entries[i] = (key, value);
                assert(keys_of(entries@) =~= old(self).keys());
                assert(values_of(entries@) =~= old(self).values().update(i as int, value));
                core::mem::swap(&mut self.entries, &mut entries);
            },
            None => {
                proof {
                    lemma_pair_pushed(old(self).keys(), old(self).values(), key@, value);
                }
                let mut entries: Vec<(String, V)> = Vec::new();
                core::mem::swap(&mut self.entries, &mut entries);
                entries.push((key, value));
                assert(keys_of(entries@) =~= old(self).keys().push(key@));
                assert(values_of(entries@) =~= old(self).values().push(value));
                core::mem::swap(&mut self.entries, &mut entries);
            },
        }
    }

    /// Gives `key` the value `value` unless it has one already, and says
    /// whether it did so. An existing value is never replaced.
    pub fn insert_if_absent(&mut self, key: String, value: V) -> (inserted: bool)
        ensures
            inserted == !old(self)@.contains_key(key@),
            inserted ==> final(self)@ == old(self)@.insert(key@, value) && final(self).keys()
                == old(self).keys().push(key@) && final(self).values() == old(self).values().push(
                value,
            ),
            !inserted ==> final(self)@ == old(self)@ && final(self).keys() == old(self).keys()
                && final(self).values() == old(self).values(),
    {
        proof {
            use_type_invariant(&*self);
        }
        let found = self.position(key.as_str());
        match found {
            Some(i) => {
                assert(self.keys().contains(key@));
                false
            },
            None => {
                proof {
                    lemma_pair_pushed(old(self).keys(), old(self).values(), key@, value);
                }
                let mut entries: Vec<(String, V)> = Vec::new();
                core::mem::swap(&mut self.entries, &mut entries);
                entries.push((key, value));
                assert(keys_of(entries@) =~= old(self).keys().push(key@));
                assert(values_of(entries@) =~= old(self).values().push(value));
                core::mem::swap(&mut self.entries, &mut entries);
                true
            },
        }
    }

    /// Takes the last entry out of the map, if there is one.
    pub fn pop(&mut self) -> (r: Option<(String, V)>)
        ensures
            match r {
                Some(entry) => {
                    &&& old(self).keys().len() > 0
                    &&& entry.0@ == old(self).keys().last()
                    &&& entry.1 == old(self).values().last()
                    &&& final(self).keys() == old(self).keys().drop_last()
                    &&& final(self).values() == old(self).values().drop_last()
                    &&& old(self)@.contains_key(entry.0@)
                    &&& old(self)@[entry.0@] == entry.1
                    &&& final(self)@ == old(self)@.remove(entry.0@)
                },
                None => {
                    &&& old(self).keys().len() == 0
                    &&& final(self).keys() == old(self).keys()
                    &&& final(self).values() == old(self).values()
                },
            },
    {
        proof {
            use_type_invariant(&*self);
            if self.keys().len() > 0 {
                lemma_pair_dropped(self.keys(), self.values());
                lemma_pair_at(self.keys(), self.values(), self.keys().len() - 1);
            }
        }
        let mut entries: Vec<(String, V)> = Vec::new();
        core::mem::swap(&mut self.entries, &mut entries);
        let r = entries.pop();
        proof {
            if r.is_some() {
                let n = old(self).entries@.len() - 1;
                assert(old(self).keys()[n] == r.unwrap().0@);
                assert(old(self).values()[n] == r.unwrap().1);
                assert(keys_of(entries@) =~= old(self).keys().drop_last());
                assert(values_of(entries@) =~= old(self).values().drop_last());
            } else {
                assert(keys_of(entries@) =~= old(self).keys());
                assert(values_of(entries@) =~= old(self).values());
            }
        }
        core::mem::swap(&mut self.entries, &mut entries);
        r
    }
}

} // verus!
