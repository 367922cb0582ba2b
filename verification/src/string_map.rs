//! A map from texts to values that keeps the order in which the keys came.
use vstd::prelude::*;

use crate::text::{same_text, views};

verus! {

struct Entry<V> {
    key: String,
    value: V,
}

/// A map from texts to values. Each key stands in it once; a key that is
/// inserted again keeps its place.
pub struct StringMap<V> {
    entries: Vec<Entry<V>>,
}

impl<V> View for StringMap<V> {
    type V = Map<Seq<char>, V>;

    closed spec fn view(&self) -> Map<Seq<char>, V> {
        Map::new(
            |key: Seq<char>| self.keys().contains(key),
            |key: Seq<char>| self.entries@[self.keys().index_of(key)].value,
        )
    }
}

impl<V> StringMap<V> {
    /// The keys, in the order in which they came.
    pub closed spec fn keys(&self) -> Seq<Seq<char>> {
        Seq::new(self.entries@.len(), |i: int| self.entries@[i].key@)
    }

    /// No key stands in the map twice.
    pub closed spec fn wf(&self) -> bool {
        self.keys().no_duplicates()
    }

    proof fn lemma_value(&self, i: int)
        requires
            self.wf(),
            0 <= i < self.entries@.len(),
        ensures
            self@.contains_key(self.keys()[i]),
            self@[self.keys()[i]] == self.entries@[i].value,
    {
        let key = self.keys()[i];
        assert(self.keys().contains(key));
        let j = self.keys().index_of(key);
        assert(self.keys()[j] == key);
        assert(i == j);
    }

    proof fn lemma_values(&self)
        requires
            self.wf(),
        ensures
            forall|i: int|
                0 <= i < self.entries@.len() ==> self@.contains_key(#[trigger] self.keys()[i])
                    && self@[self.keys()[i]] == self.entries@[i].value,
    {
        assert forall|i: int| 0 <= i < self.entries@.len() implies self@.contains_key(
            #[trigger] self.keys()[i],
        ) && self@[self.keys()[i]] == self.entries@[i].value by {
            self.lemma_value(i);
        }
    }

    /// Whether `after` is this map with another value at place `at`.
    spec fn changes_to(&self, after: Self, at: int) -> bool {
        &&& 0 <= at < self.entries@.len()
        &&& after.entries@ == self.entries@.update(
            at,
            Entry { key: self.entries@[at].key, value: after.entries@[at].value },
        )
    }

    proof fn lemma_changed(&self, after: Self, at: int)
        requires
            self.wf(),
            self.changes_to(after, at),
        ensures
            after.wf(),
            after.keys() == self.keys(),
            after@ == self@.insert(self.keys()[at], after.entries@[at].value),
    {
        assert(after.keys() =~= self.keys());
        self.lemma_values();
        after.lemma_values();
        assert(after@ =~= self@.insert(self.keys()[at], after.entries@[at].value));
    }

    /// The keys are what the map maps, each once.
    pub proof fn lemma_keys(&self)
        requires
            self.wf(),
        ensures
            self.keys().no_duplicates(),
            forall|key: Seq<char>| self@.contains_key(key) <==> self.keys().contains(key),
    {
    }

    /// An empty map.
    pub fn new() -> (map: Self)
        ensures
            map.wf(),
            map@ == Map::<Seq<char>, V>::empty(),
            map.keys() == Seq::<Seq<char>>::empty(),
    {
        let map = StringMap { entries: Vec::new() };
        assert(map@ =~= Map::<Seq<char>, V>::empty());
        map
    }

    /// How many keys the map holds.
    pub fn len(&self) -> (len: usize)
        ensures
            len == self.keys().len(),
    {
        self.entries.len()
    }

    fn position(&self, key: &str) -> (position: Option<usize>)
        requires
            self.wf(),
        ensures
            match position {
                Some(i) => i < self.entries@.len() && self.keys()[i as int] == key@,
                None => !self@.contains_key(key@),
            },
    {
        let mut at: usize = 0;
        while at < self.entries.len()
            invariant
                at <= self.entries@.len(),
                forall|i: int| 0 <= i < at ==> self.keys()[i] != key@,
            decreases self.entries@.len() - at,
        {
            if same_text(self.entries[at].key.as_str(), key) {
                return Some(at);
            }
            at = at + 1;
        }
        None
    }

    /// Whether `key` stands in the map.
    pub fn contains_key(&self, key: &str) -> (found: bool)
        requires
            self.wf(),
        ensures
            found == self@.contains_key(key@),
    {
        match self.position(key) {
            Some(at) => {
                proof {
                    self.lemma_value(at as int);
                }
                true
            },
            None => false,
        }
    }

    /// The value of `key`, where it stands in the map.
    pub fn get(&self, key: &str) -> (value: Option<&V>)
        requires
            self.wf(),
        ensures
            match value {
                Some(value) => self@.contains_key(key@) && *value == self@[key@],
                None => !self@.contains_key(key@),
            },
    {
        match self.position(key) {
            Some(at) => {
                proof {
                    self.lemma_value(at as int);
                }
                Some(&self.entries[at].value)
            },
            None => None,
        }
    }

    /// The key at place `at` of the order.
    pub fn key_at(&self, at: usize) -> (key: &String)
        requires
            at < self.keys().len(),
        ensures
            key@ == self.keys()[at as int],
    {
        &self.entries[at].key
    }

    /// The value of the key at place `at` of the order.
    pub fn value_at(&self, at: usize) -> (value: &V)
        requires
            self.wf(),
            at < self.keys().len(),
        ensures
            *value == self@[self.keys()[at as int]],
    {
        proof {
            self.lemma_value(at as int);
        }
        &self.entries[at].value
    }

    /// Gives the key at place `at` of the order another value.
    pub fn set_at(&mut self, at: usize, value: V)
        requires
            old(self).wf(),
            at < old(self).keys().len(),
        ensures
            final(self).wf(),
            final(self).keys() == old(self).keys(),
            final(self)@ == old(self)@.insert(old(self).keys()[at as int], value),
    {
        self.entries[at].value = value;
        proof {
            old(self).lemma_changed(*self, at as int);
        }
    }

    /// The value of `key`, where it stands in the map, to be changed.
    pub fn get_mut(&mut self, key: &str) -> (value: Option<&mut V>)
        requires
            old(self).wf(),
        ensures
            match value {
                Some(value) => {
                    &&& old(self)@.contains_key(key@)
                    &&& *value == old(self)@[key@]
                    &&& final(self).wf()
                    &&& final(self).keys() == old(self).keys()
                    &&& final(self)@ == old(self)@.insert(key@, *final(value))
                },
                None => !old(self)@.contains_key(key@) && *final(self) == *old(self),
            },
    {
        match self.position(key) {
            Some(at) => {
                proof {
                    self.lemma_value(at as int);
                }
                proof {
                    let before = *self;
                    assert forall|after: Self|
                        #![trigger after.keys()]
                        #![trigger after.view()]
                        #![trigger after.wf()]
                        before.changes_to(after, at as int) implies after.wf() && after.keys()
                        == before.keys() && after@ == before@.insert(
                        key@,
                        after.entries@[at as int].value,
                    ) by {
                        before.lemma_changed(after, at as int);
                    }
                }
                Some(&mut self.entries[at].value)
            },
            None => None,
        }
    }

    /// Gives `key` the value `value`.
    pub fn insert(&mut self, key: String, value: V)
        requires
            old(self).wf(),
        ensures
            final(self).wf(),
            final(self)@ == old(self)@.insert(key@, value),
            final(self).keys() == if old(self)@.contains_key(key@) {
                old(self).keys()
            } else {
                old(self).keys().push(key@)
            },
    {
        match self.position(key.as_str()) {
            Some(at) => {
                proof {
                    self.lemma_value(at as int);
                }
                self.set_at(at, value);
            },
            None => {
                let ghost text = key@;
                self.entries.push(Entry { key, value });
                proof {
                    assert(self.keys() =~= old(self).keys().push(text));
                    assert(forall|i: int|
                        0 <= i < old(self).keys().len() ==> old(self).keys()[i] != text);
                    self.lemma_values();
                    old(self).lemma_values();
                    assert(self@ =~= old(self)@.insert(text, value)) by {
                        assert forall|k: Seq<char>| self@.contains_key(k) == old(self)@.insert(
                            text,
                            value,
                        ).contains_key(k) by {
                            if k == text {
                                assert(self.keys()[old(self).keys().len() as int] == text);
                            } else if old(self).keys().contains(k) {
                                let i = old(self).keys().index_of(k);
                                assert(self.keys()[i] == k);
                            } else if self.keys().contains(k) {
                                let i = self.keys().index_of(k);
                                assert(old(self).keys()[i] == k);
                            }
                        }
                        assert forall|k: Seq<char>| self@.contains_key(k) implies self@[k]
                            == old(self)@.insert(text, value)[k] by {
                            let i = self.keys().index_of(k);
                            assert(self.keys()[i] == k);
                            if i < old(self).keys().len() {
                                assert(old(self).keys()[i] == k);
                            }
                        }
                    }
                }
            },
        }
    }

    /// Takes `key` out of the map, and gives its value, where it has one.
    pub fn remove(&mut self, key: &str) -> (value: Option<V>)
        requires
            old(self).wf(),
        ensures
            match value {
                Some(value) => old(self)@.contains_key(key@) && value == old(self)@[key@],
                None => !old(self)@.contains_key(key@),
            },
            final(self).wf(),
            final(self)@ == old(self)@.remove(key@),
            old(self)@.contains_key(key@) ==> final(self).keys() == old(self).keys().remove(
                old(self).keys().index_of(key@),
            ),
            !old(self)@.contains_key(key@) ==> *final(self) == *old(self),
    {
        match self.position(key) {
            Some(at) => {
                proof {
                    self.lemma_value(at as int);
                }
                let entry = self.entries.remove(at);
                proof {
                    assert(old(self).keys().index_of(key@) == at);
                    assert(self.keys() =~= old(self).keys().remove(at as int));
                    self.lemma_values();
                    old(self).lemma_values();
                    assert(self@ =~= old(self)@.remove(key@)) by {
                        assert forall|k: Seq<char>| self@.contains_key(k) == old(self)@.remove(
                            key@,
                        ).contains_key(k) by {
                            if old(self).keys().contains(k) && k != key@ {
                                let i = old(self).keys().index_of(k);
                                assert(old(self).keys()[i] == k);
                                let j = if i < at { i } else { i - 1 };
                                assert(self.keys()[j] == k);
                            } else if self.keys().contains(k) {
                                let i = self.keys().index_of(k);
                                let j = if i < at { i } else { i + 1 };
                                assert(old(self).keys()[j] == k);
                            }
                        }
                        assert forall|k: Seq<char>| self@.contains_key(k) implies self@[k]
                            == old(self)@.remove(key@)[k] by {
                            let i = self.keys().index_of(k);
                            assert(self.keys()[i] == k);
                            let j = if i < at { i } else { i + 1 };
                            assert(old(self).keys()[j] == k);
                        }
                    }
                }
                Some(entry.value)
            },
            None => {
                assert(self@ =~= old(self)@.remove(key@));
                None
            },
        }
    }

    /// Takes every key out of the map.
    pub fn clear(&mut self)
        ensures
            final(self).wf(),
            final(self)@ == Map::<Seq<char>, V>::empty(),
            final(self).keys() == Seq::<Seq<char>>::empty(),
    {
        self.entries.clear();
        assert(self@ =~= Map::<Seq<char>, V>::empty());
    }

    /// The keys, in the order in which they came.
    pub fn key_list(&self) -> (keys: Vec<String>)
        ensures
            views(keys@) == self.keys(),
    {
        let mut keys: Vec<String> = Vec::new();
        let mut at: usize = 0;
        while at < self.entries.len()
            invariant
                at <= self.entries@.len(),
                views(keys@) == self.keys().take(at as int),
            decreases self.entries@.len() - at,
        {
            let ghost before = keys@;
            keys.push(self.entries[at].key.clone());
            assert(views(keys@) =~= views(before).push(self.keys()[at as int]));
            assert(self.keys().take(at + 1) =~= self.keys().take(at as int).push(
                self.keys()[at as int],
            ));
            at = at + 1;
        }
        assert(self.keys().take(at as int) =~= self.keys());
        keys
    }
}

} // verus!
