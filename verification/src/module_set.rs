//! Sets of module names.
use vstd::prelude::*;

use crate::text::{same_text, views};

verus! {

/// A set of module names, which are listed in the order in which they came.
#[derive(Debug)]
pub struct ModuleSet {
    names: Vec<String>,
}

impl View for ModuleSet {
    type V = Set<Seq<char>>;

    closed spec fn view(&self) -> Set<Seq<char>> {
        self.listed().to_set()
    }
}

impl ModuleSet {
    /// The names, in the order in which they came.
    pub closed spec fn listed(&self) -> Seq<Seq<char>> {
        views(self.names@)
    }

    /// No name is listed twice.
    pub closed spec fn wf(&self) -> bool {
        self.listed().no_duplicates()
    }

    /// The set of the listed names, of which none is listed twice.
    pub proof fn lemma_listed(&self)
        requires
            self.wf(),
        ensures
            self.listed().no_duplicates(),
            self@ == self.listed().to_set(),
    {
    }

    /// The empty set.
    pub fn new() -> (set: Self)
        ensures
            set.wf(),
            set@ == Set::<Seq<char>>::empty(),
            set.listed() == Seq::<Seq<char>>::empty(),
    {
        let set = ModuleSet { names: Vec::new() };
        assert(set.listed() =~= Seq::<Seq<char>>::empty());
        assert(set@ =~= Set::<Seq<char>>::empty());
        set
    }

    /// Whether `name` is in the set.
    pub fn contains(&self, name: &str) -> (found: bool)
        ensures
            found == self@.contains(name@),
    {
        let mut at: usize = 0;
        while at < self.names.len()
            invariant
                at <= self.names@.len(),
                forall|i: int| 0 <= i < at ==> self.listed()[i] != name@,
            decreases self.names@.len() - at,
        {
            if same_text(self.names[at].as_str(), name) {
                assert(self.listed()[at as int] == name@);
                return true;
            }
            at = at + 1;
        }
        false
    }

    /// Puts `name` into the set.
    pub fn insert(&mut self, name: String)
        requires
            old(self).wf(),
        ensures
            final(self).wf(),
            final(self)@ == old(self)@.insert(name@),
            final(self).listed() == if old(self)@.contains(name@) {
                old(self).listed()
            } else {
                old(self).listed().push(name@)
            },
    {
        if self.contains(name.as_str()) {
            assert(self@ =~= old(self)@.insert(name@));
        } else {
            let ghost text = name@;
            self.names.push(name);
            proof {
                assert(self.listed() =~= old(self).listed().push(text));
                assert(!old(self).listed().contains(text));
                assert(self@ =~= old(self)@.insert(text)) by {
                    assert forall|t: Seq<char>| self@.contains(t) == old(self)@.insert(
                        text,
                    ).contains(t) by {
                        if t == text {
                            assert(self.listed()[old(self).listed().len() as int] == t);
                        } else if old(self).listed().contains(t) {
                            let i = old(self).listed().index_of(t);
                            assert(self.listed()[i] == t);
                        } else if self.listed().contains(t) {
                            let i = self.listed().index_of(t);
                            assert(old(self).listed()[i] == t);
                        }
                    }
                }
            }
        }
    }

    /// Whether nothing is in the set.
    pub fn is_empty(&self) -> (empty: bool)
        ensures
            empty == (self@ == Set::<Seq<char>>::empty()),
    {
        let empty = self.names.len() == 0;
        proof {
            if empty {
                assert(self@ =~= Set::<Seq<char>>::empty());
            } else {
                assert(self@.contains(self.listed()[0]));
            }
        }
        empty
    }

    /// How many names are in the set.
    pub fn len(&self) -> (len: usize)
        ensures
            len == self.listed().len(),
    {
        self.names.len()
    }

    /// The name at place `at` of the list.
    pub fn name_at(&self, at: usize) -> (name: &String)
        requires
            at < self.listed().len(),
        ensures
            name@ == self.listed()[at as int],
    {
        &self.names[at]
    }

    /// The names that are in this set and not in `other`.
    pub fn difference(&self, other: &ModuleSet) -> (rest: ModuleSet)
        ensures
            rest.wf(),
            rest@ == self@.difference(other@),
    {
        let mut rest = ModuleSet::new();
        let mut at: usize = 0;
        while at < self.names.len()
            invariant
                at <= self.names@.len(),
                rest.wf(),
                forall|t: Seq<char>|
                    rest@.contains(t) <==> self.listed().take(at as int).contains(t)
                        && !other@.contains(t),
            decreases self.names@.len() - at,
        {
            let name = &self.names[at];
            let ghost before = rest@;
            if !other.contains(name.as_str()) {
                rest.insert(name.clone());
            }
            proof {
                let shorter = self.listed().take(at as int);
                let longer = self.listed().take(at + 1);
                assert(longer =~= shorter.push(name@));
                assert forall|t: Seq<char>| rest@.contains(t) <==> longer.contains(t)
                    && !other@.contains(t) by {
                    if longer.contains(t) {
                        let i = longer.index_of(t);
                        if i < at {
                            assert(shorter[i] == t);
                        }
                    }
                    if shorter.contains(t) {
                        let i = shorter.index_of(t);
                        assert(longer[i] == t);
                    }
                    assert(longer[at as int] == name@);
                }
            }
            at = at + 1;
        }
        proof {
            assert(self.listed().take(at as int) =~= self.listed());
            assert(rest@ =~= self@.difference(other@));
        }
        rest
    }

    /// The names, in the order in which they came.
    pub fn into_list(self) -> (names: Vec<String>)
        ensures
            views(names@) == self.listed(),
    {
        self.names
    }
}

} // verus!
