//! The custom components that a user has registered, by name.

use vstd::prelude::*;
use crate::text::{lemma_index_of_first_is, lemma_index_of_first_none, str_eq};

verus! {

/// A store of components. A name is looked up exactly as it was registered,
/// capitals and all.
pub struct CustomComponents<C> {
    entries: Vec<(String, C)>,
}

impl<C> CustomComponents<C> {
    /// The names of the entries, in their order.
    pub closed spec fn names(&self) -> Seq<Seq<char>> {
        self.entries@.map_values(|e: (String, C)| e.0@)
    }

    /// The component registered under `name`.
    pub closed spec fn lookup(&self, name: Seq<char>) -> Option<C> {
        match self.names().index_of_first(name) {
            Some(i) => Some(self.entries@[i].1),
            None => None,
        }
    }

    /// A store without components.
    pub fn new() -> (store: Self)
        ensures
            forall|name: Seq<char>| store.lookup(name) is None,
    {
        let store = CustomComponents { entries: Vec::new() };
        assert forall|name: Seq<char>| store.lookup(name) is None by {
            lemma_index_of_first_none(store.names(), name);
        }
        store
    }

    /// The index of the entry called `name`.
    fn position(&self, name: &str) -> (r: Option<usize>)
        ensures
            r matches Some(i) ==> i < self.entries@.len() && self.names().index_of_first(name@)
                == Some(i as int),
            r is None ==> self.names().index_of_first(name@) is None,
    {
        let mut i: usize = 0;
        while i < self.entries.len()
            invariant
                i <= self.entries.len(),
                forall|j: int| 0 <= j < i ==> self.names()[j] != name@,
            decreases self.entries.len() - i,
        {
            if str_eq(self.entries[i].0.as_str(), name) {
                proof {
                    lemma_index_of_first_is(self.names(), name@, i as int);
                }
                return Some(i);
            }
            i += 1;
        }
        proof {
            lemma_index_of_first_none(self.names(), name@);
        }
        None
    }

    /// Registers `component` under `name`, in place of a component that had the name before.
    pub fn register(&mut self, name: &str, component: C)
        ensures
            forall|other: Seq<char>|
                final(self).lookup(other) == (if other == name@ {
                    Some(component)
                } else {
                    old(self).lookup(other)
                }),
    {
        let ghost before = self.names();
        let ghost entries = self.entries@;
        match self.position(name) {
            Some(i) => {
                proof {
                    before.index_of_first_ensures(name@);
                }
                self.entries.set(i, (name.to_string(), component));
                assert(self.names() =~= before);
                assert forall|other: Seq<char>|
                    self.lookup(other) == (if other == name@ {
                        Some(component)
                    } else {
                        old(self).lookup(other)
                    }) by {
                    before.index_of_first_ensures(other);
                }
            },
            None => {
                self.entries.push((name.to_string(), component));
                assert(self.names() =~= before.push(name@));
                assert forall|other: Seq<char>|
                    self.lookup(other) == (if other == name@ {
                        Some(component)
                    } else {
                        old(self).lookup(other)
                    }) by {
                    before.index_of_first_ensures(other);
                    before.index_of_first_ensures(name@);
                    let now = before.push(name@);
                    if other == name@ {
                        assert forall|j: int| 0 <= j < before.len() implies now[j] != other by {
                            if now[j] == other {
                                assert(before[j] == name@);
                                assert(before.contains(name@));
                            }
                        }
                        lemma_index_of_first_is(now, other, before.len() as int);
                    } else if before.contains(other) {
                        let k = before.index_of_first(other)->Some_0;
                        assert forall|j: int| 0 <= j < k implies now[j] != other by {
                            assert(now[j] == before[j]);
                        }
                        lemma_index_of_first_is(now, other, k);
                    } else {
                        assert forall|j: int| 0 <= j < now.len() implies now[j] != other by {
                            if j < before.len() && now[j] == other {
                                assert(before[j] == other);
                                assert(before.contains(other));
                            }
                        }
                        lemma_index_of_first_none(now, other);
                    }
                }
            },
        }
    }

    /// The component registered under `name`.
    pub fn get(&self, name: &str) -> (r: Option<&C>)
        ensures
            match self.lookup(name@) {
                Some(component) => r matches Some(c) && *c == component,
                None => r is None,
            },
    {
        match self.position(name) {
            Some(i) => Some(&self.entries[i].1),
            None => None,
        }
    }

    /// Whether a component is registered under `name`.
    pub fn contains(&self, name: &str) -> (b: bool)
        ensures
            b == self.lookup(name@) is Some,
    {
        self.position(name).is_some()
    }
}

} // verus!
