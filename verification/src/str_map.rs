//! A map from strings to values, kept as a list of entries in the order in
//! which their keys were first inserted. No key occurs twice.
use vstd::prelude::*;

verus! {

/// A map from strings to values. A std `HashMap` is not used because
/// vstd's model of it holds only for keys whose hashing and equality it
/// knows, which `String` is not; with a list of entries every operation is
/// proved, and the order in which the keys are walked is the order of
/// insertion rather than one chosen by a seeded hasher.
/// Inserting a key that is present replaces
/// its value, as a hash map does.
pub struct StrMap<V> {
    entries: Vec<(String, V)>,
}

impl<V> StrMap<V> {
    /// No two entries have the same key.
    #[verifier::type_invariant]
    closed spec fn keys_distinct(self) -> bool {
        forall|i: int, j: int|
            0 <= i < j < self.entries@.len() ==> #[trigger] self.entries@[i].0@
                != #[trigger] self.entries@[j].0@
    }

    /// The keys in the order in which they were first inserted.
    pub closed spec fn keys_seq(self) -> Seq<Seq<char>> {
        self.entries@.map_values(|e: (String, V)| e.0@)
    }

    /// The map that the entries make up.
    pub closed spec fn view(self) -> Map<Seq<char>, V> {
        Map::new(
            |k: Seq<char>| exists|i: int| 0 <= i < self.entries@.len() && self.entries@[i].0@ == k,
            |k: Seq<char>|
                self.entries@[choose|i: int|
                    0 <= i < self.entries@.len() && self.entries@[i].0@ == k].1,
        )
    }

    proof fn lemma_keys(self)
        requires
            self.keys_distinct(),
        ensures
            forall|i: int, j: int|
                0 <= i < j < self.keys_seq().len() ==> #[trigger] self.keys_seq()[i]
                    != #[trigger] self.keys_seq()[j],
            forall|k: Seq<char>| #[trigger]
                self.view().contains_key(k) <==> self.keys_seq().contains(k),
    {
        assert forall|k: Seq<char>| #[trigger]
            self.view().contains_key(k) <==> self.keys_seq().contains(k) by {
            if self.view().contains_key(k) {
                let i = choose|i: int| 0 <= i < self.entries@.len() && self.entries@[i].0@ == k;
                assert(self.keys_seq()[i] == k);
            }
            if self.keys_seq().contains(k) {
                let i = choose|i: int| 0 <= i < self.keys_seq().len() && self.keys_seq()[i] == k;
                assert(self.entries@[i].0@ == k);
            }
        }
    }

    proof fn lemma_value_at(self, i: int)
        requires
            self.keys_distinct(),
            0 <= i < self.entries@.len(),
        ensures
            self.view().contains_key(self.entries@[i].0@),
            self.view()[self.entries@[i].0@] == self.entries@[i].1,
    {
        let k = self.entries@[i].0@;
        assert(self.view().contains_key(k));
        let j = choose|j: int| 0 <= j < self.entries@.len() && self.entries@[j].0@ == k;
        if j < i {
            assert(self.entries@[j].0@ != self.entries@[i].0@);
        }
        if i < j {
            assert(self.entries@[i].0@ != self.entries@[j].0@);
        }
    }

    /// An empty map.
    pub fn new() -> (r: Self)
        ensures
            r@ == Map::<Seq<char>, V>::empty(),
            r.keys_seq() == Seq::<Seq<char>>::empty(),
    {
        let r = StrMap { entries: Vec::new() };
        assert(r@ =~= Map::<Seq<char>, V>::empty());
        assert(r.keys_seq() =~= Seq::<Seq<char>>::empty());
        r
    }

    /// The number of keys. The keys in insertion order are exactly the keys of
    /// the map, each once.
    pub fn len(&self) -> (r: usize)
        ensures
            r == self.keys_seq().len(),
            forall|i: int, j: int|
                0 <= i < j < self.keys_seq().len() ==> #[trigger] self.keys_seq()[i]
                    != #[trigger] self.keys_seq()[j],
            forall|k: Seq<char>| #[trigger]
                self@.contains_key(k) <==> self.keys_seq().contains(k),
    {
        proof {
            use_type_invariant(self);
            self.lemma_keys();
        }
        self.entries.len()
    }

    /// The key at position `i` of the insertion order.
    pub fn key_at(&self, i: usize) -> (r: &String)
        requires
            i < self.keys_seq().len(),
        ensures
            r@ == self.keys_seq()[i as int],
    {
        &self.entries[i].0
    }

    /// The value of the key at position `i` of the insertion order.
    pub fn value_at(&self, i: usize) -> (r: &V)
        requires
            i < self.keys_seq().len(),
        ensures
            self@.contains_key(self.keys_seq()[i as int]),
            *r == self@[self.keys_seq()[i as int]],
    {
        proof {
            use_type_invariant(self);
            self.lemma_value_at(i as int);
        }
        &self.entries[i].1
    }

    fn find(&self, key: &String) -> (r: Option<usize>)
        ensures
            match r {
                Some(i) => i < self.entries@.len() && self.entries@[i as int].0@ == key@,
                None => forall|i: int|
                    0 <= i < self.entries@.len() ==> self.entries@[i].0@ != key@,
            },
    {
        let mut i: usize = 0;
        while i < self.entries.len()
            invariant
                i <= self.entries@.len(),
                forall|j: int| 0 <= j < i ==> self.entries@[j].0@ != key@,
            decreases self.entries.len() - i,
        {
            if self.entries[i].0 == *key {
                return Some(i);
            }
            i = i + 1;
        }
        None
    }

    /// Whether the key is present.
    pub fn contains_key(&self, key: &String) -> (r: bool)
        ensures
            r == self@.contains_key(key@),
    {
        proof {
            use_type_invariant(self);
        }
        match self.find(key) {
            Some(i) => {
                proof {
                    self.lemma_value_at(i as int);
                }
                true
            },
            None => false,
        }
    }

    /// The value of the key, if it is present.
    pub fn get(&self, key: &String) -> (r: Option<&V>)
        ensures
            match r {
                Some(v) => self@.contains_key(key@) && *v == self@[key@],
                None => !self@.contains_key(key@),
            },
    {
        proof {
            use_type_invariant(self);
        }
        match self.find(key) {
            Some(i) => {
                proof {
                    self.lemma_value_at(i as int);
                }
                Some(&self.entries[i].1)
            },
            None => None,
        }
    }

    /// Inserts the key with the value, replacing the value of a present key.
    pub fn insert(&mut self, key: String, value: V)
        ensures
            final(self)@ == old(self)@.insert(key@, value),
            old(self)@.contains_key(key@) ==> final(self).keys_seq() == old(self).keys_seq(),
            !old(self)@.contains_key(key@) ==> final(self).keys_seq() == old(self).keys_seq().push(
                key@,
            ),
    {
        proof {
            use_type_invariant(&*self);
        }
        let ghost old_entries = self.entries@;
        let ghost k = key@;
        match self.find(&key) {
            Some(i) => {
                proof {
                    self.lemma_value_at(i as int);
                }
                let mut entries: Vec<(String, V)> = Vec::new();
                std::mem::swap(&mut entries, &mut self.entries);
                entries.set(i, (key, value));
                assert forall|a: int, b: int|
                    0 <= a < b < entries@.len() implies #[trigger] entries@[a].0@
                    != #[trigger] entries@[b].0@ by {
                    assert(old_entries[a].0@ != old_entries[b].0@);
                }
                self.entries = entries;
                assert(self.keys_seq() =~= old(self).keys_seq()) by {
                    assert forall|j: int| 0 <= j < self.entries@.len() implies
                        self.keys_seq()[j] == old(self).keys_seq()[j] by {}
                }
                assert(self@ =~= old(self)@.insert(k, value)) by {
                    assert forall|kk: Seq<char>| #[trigger]
                        self@.contains_key(kk) <==> old(self)@.insert(k, value).contains_key(kk) by {
                        if old(self)@.contains_key(kk) {
                            let j = choose|j: int|
                                0 <= j < old_entries.len() && old_entries[j].0@ == kk;
                            assert(self.entries@[j].0@ == kk);
                        }
                        if kk == k {
                            assert(self.entries@[i as int].0@ == kk);
                        }
                        if self@.contains_key(kk) {
                            let j = choose|j: int|
                                0 <= j < self.entries@.len() && self.entries@[j].0@ == kk;
                            if j != i {
                                assert(old_entries[j].0@ == kk);
                            }
                        }
                    }
                    assert forall|kk: Seq<char>| #[trigger] self@.contains_key(kk) implies self@[kk]
                        == old(self)@.insert(k, value)[kk] by {
                        let j = choose|j: int|
                            0 <= j < self.entries@.len() && self.entries@[j].0@ == kk;
                        self.lemma_value_at(j);
                        if j != i {
                            old(self).lemma_value_at(j);
                        }
                    }
                }
            },
            None => {
                let mut entries: Vec<(String, V)> = Vec::new();
                std::mem::swap(&mut entries, &mut self.entries);
                entries.push((key, value));
                self.entries = entries;
                let ghost n = old_entries.len();
                assert(self.keys_seq() =~= old(self).keys_seq().push(k));
                assert(self@ =~= old(self)@.insert(k, value)) by {
                    assert forall|kk: Seq<char>| #[trigger]
                        self@.contains_key(kk) <==> old(self)@.insert(k, value).contains_key(kk) by {
                        if old(self)@.contains_key(kk) {
                            let j = choose|j: int|
                                0 <= j < old_entries.len() && old_entries[j].0@ == kk;
                            assert(self.entries@[j].0@ == kk);
                        }
                        if kk == k {
                            assert(self.entries@[n as int].0@ == kk);
                        }
                        if self@.contains_key(kk) {
                            let j = choose|j: int|
                                0 <= j < self.entries@.len() && self.entries@[j].0@ == kk;
                            if j != n {
                                assert(old_entries[j].0@ == kk);
                            }
                        }
                    }
                    assert forall|kk: Seq<char>| #[trigger] self@.contains_key(kk) implies self@[kk]
                        == old(self)@.insert(k, value)[kk] by {
                        let j = choose|j: int|
                            0 <= j < self.entries@.len() && self.entries@[j].0@ == kk;
                        self.lemma_value_at(j);
                        if j != n {
                            old(self).lemma_value_at(j);
                        }
                    }
                }
            },
        }
    }
}

} // verus!
