//! A small map from text to values, kept in insertion order.

use vstd::prelude::*;
use crate::text::string_views;

verus! {

/// Whether no text occurs twice in `keys`.
pub open spec fn distinct(keys: Seq<Seq<char>>) -> bool {
    forall|i: int, j: int| 0 <= i < j < keys.len() ==> keys[i] != keys[j]
}

/// The map that sends `keys[i]` to `values[i]`.
pub open spec fn pairing<V>(keys: Seq<Seq<char>>, values: Seq<V>) -> Map<Seq<char>, V> {
    Map::new(
        |k: Seq<char>| keys.contains(k),
        |k: Seq<char>| values[keys.index_of(k)],
    )
}

/// With distinct keys, the pairing sends each key to the value at its place.
pub proof fn lemma_pairing_at<V>(keys: Seq<Seq<char>>, values: Seq<V>, i: int)
    requires
        distinct(keys),
        0 <= i < keys.len(),
    ensures
        pairing(keys, values).dom().contains(keys[i]),
        pairing(keys, values)[keys[i]] == values[i],
        keys.index_of(keys[i]) == i,
{
    assert(keys.contains(keys[i]));
    let j = keys.index_of(keys[i]);
    assert(0 <= j < keys.len() && keys[j] == keys[i]);
    if j < i {
        assert(keys[j] != keys[i]);
    } else if i < j {
        assert(keys[i] != keys[j]);
    }
}

/// A pair appended under a new key is an insertion.
pub proof fn lemma_pairing_push<V>(keys: Seq<Seq<char>>, values: Seq<V>, k: Seq<char>, v: V)
    requires
        distinct(keys),
        keys.len() == values.len(),
        !keys.contains(k),
    ensures
        distinct(keys.push(k)),
        pairing(keys.push(k), values.push(v)) == pairing(keys, values).insert(k, v),
{
    let ks = keys.push(k);
    let vs = values.push(v);
    assert forall|i: int, j: int| 0 <= i < j < ks.len() implies ks[i] != ks[j] by {
        if j == keys.len() {
            assert(keys.contains(keys[i]));
        }
    }
    assert forall|x: Seq<char>| ks.contains(x) <==> (keys.contains(x) || x == k) by {
        if ks.contains(x) {
            let i = choose|i: int| 0 <= i < ks.len() && ks[i] == x;
            if i < keys.len() {
                assert(keys[i] == x);
            }
        }
        if keys.contains(x) {
            let i = choose|i: int| 0 <= i < keys.len() && keys[i] == x;
            assert(ks[i] == x);
        }
        if x == k {
            assert(ks[keys.len() as int] == x);
        }
    }
    assert forall|x: Seq<char>| ks.contains(x) implies pairing(ks, vs)[x] == pairing(
        keys,
        values,
    ).insert(k, v)[x] by {
        let i = choose|i: int| 0 <= i < ks.len() && ks[i] == x;
        lemma_pairing_at(ks, vs, i);
        if i < keys.len() {
            lemma_pairing_at(keys, values, i);
        }
    }
    assert(pairing(ks, vs) =~= pairing(keys, values).insert(k, v));
}

/// A value replaced in place is an insertion under the same key.
pub proof fn lemma_pairing_update<V>(keys: Seq<Seq<char>>, values: Seq<V>, i: int, v: V)
    requires
        distinct(keys),
        keys.len() == values.len(),
        0 <= i < keys.len(),
    ensures
        pairing(keys, values.update(i, v)) == pairing(keys, values).insert(keys[i], v),
{
    let vs = values.update(i, v);
    assert(keys.contains(keys[i]));
    assert forall|x: Seq<char>| keys.contains(x) implies pairing(keys, vs)[x] == pairing(
        keys,
        values,
    ).insert(keys[i], v)[x] by {
        let j = choose|j: int| 0 <= j < keys.len() && keys[j] == x;
        lemma_pairing_at(keys, vs, j);
        lemma_pairing_at(keys, values, j);
    }
    assert(pairing(keys, vs) =~= pairing(keys, values).insert(keys[i], v));
}

/// A pair taken out is a removal of its key.
pub proof fn lemma_pairing_remove<V>(keys: Seq<Seq<char>>, values: Seq<V>, i: int)
    requires
        distinct(keys),
        keys.len() == values.len(),
        0 <= i < keys.len(),
    ensures
        distinct(keys.remove(i)),
        pairing(keys.remove(i), values.remove(i)) == pairing(keys, values).remove(keys[i]),
{
    let ks = keys.remove(i);
    let vs = values.remove(i);
    let gone = keys[i];
    assert forall|a: int, b: int| 0 <= a < b < ks.len() implies ks[a] != ks[b] by {
        let a0 = if a < i { a } else { a + 1 };
        let b0 = if b < i { b } else { b + 1 };
        assert(keys[a0] != keys[b0]);
    }
    assert forall|x: Seq<char>| ks.contains(x) <==> (keys.contains(x) && x != gone) by {
        if ks.contains(x) {
            let j = choose|j: int| 0 <= j < ks.len() && ks[j] == x;
            let j0 = if j < i { j } else { j + 1 };
            assert(keys[j0] == x);
            if j0 < i {
                assert(keys[j0] != keys[i]);
            } else {
                assert(keys[i] != keys[j0]);
            }
        }
        if keys.contains(x) && x != gone {
            let j = choose|j: int| 0 <= j < keys.len() && keys[j] == x;
            let j1 = if j < i { j } else { j - 1 };
            assert(ks[j1] == x);
        }
    }
    assert forall|x: Seq<char>| ks.contains(x) implies pairing(ks, vs)[x] == pairing(
        keys,
        values,
    ).remove(gone)[x] by {
        let j = choose|j: int| 0 <= j < ks.len() && ks[j] == x;
        let j0 = if j < i { j } else { j + 1 };
        lemma_pairing_at(ks, vs, j);
        lemma_pairing_at(keys, values, j0);
    }
    assert(pairing(ks, vs) =~= pairing(keys, values).remove(gone));
}

/// With distinct keys, the pairing has as many entries as there are keys.
pub proof fn lemma_pairing_len<V>(keys: Seq<Seq<char>>, values: Seq<V>)
    requires
        distinct(keys),
        keys.len() == values.len(),
    ensures
        pairing(keys, values).dom().finite(),
        pairing(keys, values).dom().len() == keys.len(),
    decreases keys.len(),
{
    if keys.len() == 0 {
        assert(pairing(keys, values).dom() =~= Set::<Seq<char>>::empty());
    } else {
        let ks = keys.drop_last();
        let vs = values.drop_last();
        assert(distinct(ks)) by {
            assert forall|a: int, b: int| 0 <= a < b < ks.len() implies ks[a] != ks[b] by {
                assert(keys[a] != keys[b]);
            }
        }
        assert(!ks.contains(keys.last())) by {
            if ks.contains(keys.last()) {
                let j = choose|j: int| 0 <= j < ks.len() && ks[j] == keys.last();
                assert(keys[j] != keys[keys.len() - 1]);
            }
        }
        lemma_pairing_len(ks, vs);
        lemma_pairing_push(ks, vs, keys.last(), values.last());
        assert(ks.push(keys.last()) =~= keys);
        assert(vs.push(values.last()) =~= values);
        assert(pairing(keys, values).dom() =~= pairing(ks, vs).dom().insert(keys.last()));
    }
}

/// A map from text to values of type `V`. Entries keep the order in which
/// their keys were first inserted.
pub struct Table<V> {
    keys: Vec<String>,
    values: Vec<V>,
}

impl<V> View for Table<V> {
    type V = Map<Seq<char>, V>;

    closed spec fn view(&self) -> Map<Seq<char>, V> {
        pairing(string_views(self.keys@), self.values@)
    }
}

impl<V> Table<V> {
    #[verifier::type_invariant]
    spec fn well_formed(&self) -> bool {
        self.keys.len() == self.values.len() && distinct(string_views(self.keys@))
    }

    /// The keys, in insertion order.
    pub closed spec fn spec_keys(&self) -> Seq<Seq<char>> {
        string_views(self.keys@)
    }

    /// The values, in the order of their keys.
    pub closed spec fn spec_values(&self) -> Seq<V> {
        self.values@
    }

    /// How keys, values and the map hang together: there is a value for each
    /// key, no key occurs twice, and the map sends each key to its value.
    /// Every table that a program can hold is coherent, and every operation
    /// says so.
    pub open spec fn coherent(&self) -> bool {
        &&& self.spec_keys().len() == self.spec_values().len()
        &&& distinct(self.spec_keys())
        &&& self@ == pairing(self.spec_keys(), self.spec_values())
    }

    /// An empty table.
    pub fn new() -> (t: Self)
        ensures
            t@ == Map::<Seq<char>, V>::empty(),
            t.spec_keys() == Seq::<Seq<char>>::empty(),
            t.spec_values() == Seq::<V>::empty(),
            t.coherent(),
    {
        let t = Table { keys: Vec::new(), values: Vec::new() };
        assert(t@ =~= Map::<Seq<char>, V>::empty());
        assert(t.spec_keys() =~= Seq::<Seq<char>>::empty());
        t
    }

    /// Number of entries.
    pub fn len(&self) -> (n: usize)
        ensures
            n == self.spec_keys().len(),
            n == self@.dom().len(),
            self@.dom().finite(),
            self.coherent(),
    {
        proof {
            use_type_invariant(self);
            lemma_pairing_len(string_views(self.keys@), self.values@);
        }
        self.keys.len()
    }

    /// Position of `key` among the keys.
    pub fn position(&self, key: &str) -> (r: Option<usize>)
        ensures
            self.coherent(),
            match r {
                Some(i) => i < self.spec_keys().len() && self.spec_keys()[i as int] == key@
                    && self@.dom().contains(key@) && self@[key@] == self.spec_values()[i as int],
                None => !self@.dom().contains(key@) && !self.spec_keys().contains(key@),
            },
    {
        proof {
            use_type_invariant(self);
        }
        let owned = key.to_owned();
        let mut i: usize = 0;
        while i < self.keys.len()
            invariant
                0 <= i <= self.keys.len(),
                self.keys.len() == self.values.len(),
                distinct(string_views(self.keys@)),
                owned@ == key@,
                forall|k: int| 0 <= k < i ==> self.keys[k]@ != key@,
            decreases self.keys.len() - i,
        {
            if self.keys[i] == owned {
                proof {
                    lemma_pairing_at(string_views(self.keys@), self.values@, i as int);
                }
                return Some(i);
            }
            i = i + 1;
        }
        assert(!string_views(self.keys@).contains(key@)) by {
            if string_views(self.keys@).contains(key@) {
                let j = choose|j: int|
                    0 <= j < string_views(self.keys@).len() && string_views(self.keys@)[j] == key@;
                assert(self.keys[j]@ != key@);
            }
        }
        None
    }

    /// Whether `key` has a value.
    pub fn contains_key(&self, key: &str) -> (r: bool)
        ensures
            self.coherent(),
            r == self@.dom().contains(key@),
    {
        self.position(key).is_some()
    }

    /// The value of `key`, if it has one.
    pub fn get(&self, key: &str) -> (r: Option<&V>)
        ensures
            self.coherent(),
            match r {
                Some(v) => self@.dom().contains(key@) && *v == self@[key@],
                None => !self@.dom().contains(key@),
            },
    {
        match self.position(key) {
            Some(i) => {
                proof {
                    use_type_invariant(self);
                }
                Some(&self.values[i])
            },
            None => None,
        }
    }

    /// The key at position `i`.
    pub fn key_at(&self, i: usize) -> (k: &String)
        requires
            i < self.spec_keys().len(),
        ensures
            k@ == self.spec_keys()[i as int],
    {
        &self.keys[i]
    }

    /// The value at position `i`.
    pub fn value_at(&self, i: usize) -> (v: &V)
        requires
            i < self.spec_values().len(),
        ensures
            *v == self.spec_values()[i as int],
    {
        &self.values[i]
    }

    /// Gives `key` the value `value`. A key that had a value keeps its place and
    /// the old value is returned; a new key goes to the end.
    pub fn insert(&mut self, key: &str, value: V) -> (previous: Option<V>)
        ensures
            old(self).coherent(),
            final(self).coherent(),
            final(self)@ == old(self)@.insert(key@, value),
            match previous {
                Some(v) => old(self)@.dom().contains(key@) && v == old(self)@[key@]
                    && final(self).spec_keys() == old(self).spec_keys()
                    && final(self).spec_values() == old(self).spec_values().update(
                    old(self).spec_keys().index_of(key@),
                    value,
                ),
                None => !old(self)@.dom().contains(key@) && final(self).spec_keys() == old(
                    self,
                ).spec_keys().push(key@) && final(self).spec_values() == old(
                    self,
                ).spec_values().push(value),
            },
    {
        proof {
            use_type_invariant(&*self);
        }
        let found = self.position(key);
        let mut taken: Table<V> = Table::new();
        std::mem::swap(self, &mut taken);
        let Table { mut keys, mut values } = taken;
        let previous = match found {
            Some(i) => {
                proof {
                    lemma_pairing_at(string_views(keys@), values@, i as int);
                    lemma_pairing_update(string_views(keys@), values@, i as int, value);
                }
                let mut slot = value;
                std::mem::swap(&mut slot, &mut values[i]);
                Some(slot)
            },
            None => {
                let owned = key.to_owned();
                proof {
                    lemma_pairing_push(string_views(keys@), values@, key@, value);
                    assert(string_views(keys@.push(owned)) =~= string_views(keys@).push(key@));
                }
                keys.push(owned);
                values.push(value);
                None
            },
        };
        *self = Table { keys, values };
        previous
    }

    /// Takes `key` and its value out and returns the value.
    pub fn remove(&mut self, key: &str) -> (r: Option<V>)
        ensures
            old(self).coherent(),
            final(self).coherent(),
            final(self)@ == old(self)@.remove(key@),
            match r {
                Some(v) => old(self)@.dom().contains(key@) && v == old(self)@[key@]
                    && final(self).spec_keys() == old(self).spec_keys().remove(
                    old(self).spec_keys().index_of(key@),
                ) && final(self).spec_values() == old(self).spec_values().remove(
                    old(self).spec_keys().index_of(key@),
                ),
                None => !old(self)@.dom().contains(key@) && final(self).spec_keys() == old(
                    self,
                ).spec_keys() && final(self).spec_values() == old(self).spec_values(),
            },
    {
        proof {
            use_type_invariant(&*self);
        }
        match self.position(key) {
            None => {
                assert(self@.remove(key@) =~= self@);
                None
            },
            Some(i) => {
                let mut taken: Table<V> = Table::new();
                std::mem::swap(self, &mut taken);
                let Table { mut keys, mut values } = taken;
                proof {
                    lemma_pairing_at(string_views(keys@), values@, i as int);
                    lemma_pairing_remove(string_views(keys@), values@, i as int);
                    assert(string_views(keys@.remove(i as int)) =~= string_views(keys@).remove(
                        i as int,
                    ));
                }
                keys.remove(i);
                let value = values.remove(i);
                *self = Table { keys, values };
                Some(value)
            },
        }
    }
}

} // verus!
