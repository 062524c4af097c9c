//! Maps and sets keyed by text.
use vstd::prelude::*;

use crate::seqs;
use crate::text;

verus! {

broadcast use crate::seqs::group_views;

/// A map from names to values. No name occurs twice among the entries.
pub struct Table<V: View> {
    entries: Vec<(String, V)>,
}

impl<V: View> View for Table<V> {
    type V = Map<Seq<char>, V::V>;

    closed spec fn view(&self) -> Map<Seq<char>, V::V> {
        Map::new(
            |k: Seq<char>| exists|i: int| #[trigger] holds_key(self.entries@, i, k),
            |k: Seq<char>| self.entries@[choose|i: int| holds_key(self.entries@, i, k)].1@,
        )
    }
}

spec fn holds_key<V>(entries: Seq<(String, V)>, i: int, k: Seq<char>) -> bool {
    0 <= i < entries.len() && entries[i].0@ == k
}

spec fn distinct_keys<V>(entries: Seq<(String, V)>) -> bool {
    forall|i: int, j: int|
        0 <= i < j < entries.len() ==> (#[trigger] entries[i]).0@ != (#[trigger] entries[j]).0@
}

impl<V: View> Table<V> {
    #[verifier::type_invariant]
    spec fn inv(self) -> bool {
        distinct_keys(self.entries@)
    }

    proof fn lemma_at(self, i: int)
        requires
            self.inv(),
            0 <= i < self.entries@.len(),
        ensures
            self@.contains_key(self.entries@[i].0@),
            self@[self.entries@[i].0@] == self.entries@[i].1@,
    {
        let k = self.entries@[i].0@;
        assert(holds_key(self.entries@, i, k));
        let j = choose|j: int| holds_key(self.entries@, j, k);
        assert(holds_key(self.entries@, j, k));
        if i < j {
            assert(self.entries@[i].0@ != self.entries@[j].0@);
        } else if j < i {
            assert(self.entries@[j].0@ != self.entries@[i].0@);
        }
    }

    /// The empty map.
    pub fn new() -> (r: Self)
        ensures
            r@ == Map::<Seq<char>, V::V>::empty(),
    {
        let r = Table { entries: Vec::new() };
        assert(r@ =~= Map::<Seq<char>, V::V>::empty()) by {
            assert forall|k: Seq<char>| !(#[trigger] r@.contains_key(k)) by {
                assert(forall|i: int| !holds_key(r.entries@, i, k));
            }
        }
        r
    }

    fn position(&self, k: &str) -> (r: Option<usize>)
        ensures
            match r {
                Some(i) => holds_key(self.entries@, i as int, k@),
                None => forall|i: int| !holds_key(self.entries@, i, k@),
            },
    {
        let mut i: usize = 0;
        while i < self.entries.len()
            invariant
                i <= self.entries@.len(),
                forall|j: int| 0 <= j < i ==> !holds_key(self.entries@, j, k@),
            decreases self.entries@.len() - i,
        {
            if text::same(self.entries[i].0.as_str(), k) {
                return Some(i);
            }
            i = i + 1;
        }
        None
    }

    /// Whether the map has a value for `k`.
    pub fn contains_key(&self, k: &str) -> (r: bool)
        ensures
            r == self@.contains_key(k@),
    {
        match self.position(k) {
            Some(i) => true,
            None => false,
        }
    }

    /// The value for `k`.
    pub fn get(&self, k: &str) -> (r: Option<&V>)
        ensures
            match r {
                Some(v) => self@.contains_key(k@) && v@ == self@[k@],
                None => !self@.contains_key(k@),
            },
    {
        proof {
            use_type_invariant(self);
        }
        match self.position(k) {
            Some(i) => {
                proof {
                    self.lemma_at(i as int);
                }
                Some(&self.entries[i].1)
            },
            None => None,
        }
    }

    /// Takes the value for `k` out of the map.
    pub fn remove(&mut self, k: &str) -> (r: Option<V>)
        ensures
            final(self)@ == old(self)@.remove(k@),
            match r {
                Some(v) => old(self)@.contains_key(k@) && v@ == old(self)@[k@],
                None => !old(self)@.contains_key(k@),
            },
    {
        proof {
            use_type_invariant(&*self);
        }
        let ghost before = *self;
        match self.position(k) {
            Some(i) => {
                proof {
                    before.lemma_at(i as int);
                }
                let mut entries: Vec<(String, V)> = Vec::new();
                std::mem::swap(&mut entries, &mut self.entries);
                let e = entries.remove(i);
                self.entries = entries;
                proof {
                    let a = before.entries@;
                    let b = self.entries@;
                    assert forall|q: Seq<char>| #![trigger self@.contains_key(q)]
                        self@.contains_key(q) == before@.remove(k@).contains_key(q) && (
                        self@.contains_key(q) ==> self@[q] == before@[q]) by {
                        if self@.contains_key(q) {
                            let j = choose|j: int| holds_key(b, j, q);
                            assert(holds_key(b, j, q));
                            let j2 = if j < i {
                                j
                            } else {
                                j + 1
                            };
                            assert(a[j2] == b[j]);
                            assert(holds_key(a, j2, q));
                            self.lemma_at(j);
                            before.lemma_at(j2);
                        }
                        if before@.contains_key(q) && q != k@ {
                            let j = choose|j: int| holds_key(a, j, q);
                            assert(holds_key(a, j, q));
                            let j2 = if j < i {
                                j
                            } else {
                                j - 1
                            };
                            assert(a[j] == b[j2]);
                            assert(holds_key(b, j2, q));
                        }
                    }
                    assert(self@ =~= before@.remove(k@));
                }
                Some(e.1)
            },
            None => {
                assert(self@ =~= before@.remove(k@));
                None
            },
        }
    }

    /// Sets the value for `k`.
    pub fn insert(&mut self, k: String, v: V)
        ensures
            final(self)@ == old(self)@.insert(k@, v@),
    {
        let ghost start = self@;
        self.remove(k.as_str());
        proof {
            use_type_invariant(&*self);
        }
        let ghost before = *self;
        assert(!before@.contains_key(k@));
        let mut entries: Vec<(String, V)> = Vec::new();
        std::mem::swap(&mut entries, &mut self.entries);
        proof {
            assert forall|i: int| 0 <= i < entries@.len() implies (#[trigger] entries@[i]).0@
                != k@ by {
                if entries@[i].0@ == k@ {
                    assert(holds_key(before.entries@, i, k@));
                }
            }
        }
        let ghost key = k@;
        entries.push((k, v));
        self.entries = entries;
        proof {
            let a = before.entries@;
            let b = self.entries@;
            let n = a.len() as int;
            assert(holds_key(b, n, key));
            self.lemma_at(n);
            assert forall|q: Seq<char>| #![trigger self@.contains_key(q)]
                self@.contains_key(q) == start.insert(key, v@).contains_key(q) && (
                self@.contains_key(q) ==> self@[q] == start.insert(key, v@)[q]) by {
                if self@.contains_key(q) && q != key {
                    let j = choose|j: int| holds_key(b, j, q);
                    assert(holds_key(b, j, q));
                    assert(a[j] == b[j]);
                    assert(holds_key(a, j, q));
                    self.lemma_at(j);
                    before.lemma_at(j);
                }
                if before@.contains_key(q) {
                    let j = choose|j: int| holds_key(a, j, q);
                    assert(holds_key(a, j, q));
                    assert(a[j] == b[j]);
                    assert(holds_key(b, j, q));
                }
            }
            assert(self@ =~= start.insert(key, v@));
        }
    }

    /// The names that have a value, each once.
    pub fn names(&self) -> (r: Vec<String>)
        ensures
            seqs::views(r@).no_duplicates(),
            forall|k: Seq<char>| #[trigger]
                seqs::views(r@).contains(k) <==> self@.contains_key(k),
    {
        proof {
            use_type_invariant(self);
        }
        let mut r: Vec<String> = Vec::new();
        let mut i: usize = 0;
        while i < self.entries.len()
            invariant
                i <= self.entries@.len(),
                r@.len() == i,
                forall|j: int| 0 <= j < i ==> (#[trigger] r@[j])@ == self.entries@[j].0@,
            decreases self.entries@.len() - i,
        {
            r.push(self.entries[i].0.clone());
            i = i + 1;
        }
        proof {
            let names = seqs::views(r@);
            assert forall|k: Seq<char>| #[trigger]
                names.contains(k) <==> self@.contains_key(k) by {
                if names.contains(k) {
                    let j = choose|j: int| 0 <= j < names.len() && names[j] == k;
                    assert(holds_key(self.entries@, j, k));
                }
                if self@.contains_key(k) {
                    let j = choose|j: int| holds_key(self.entries@, j, k);
                    assert(holds_key(self.entries@, j, k));
                    assert(names[j] == k);
                }
            }
            assert forall|a: int, b: int|
                0 <= a < names.len() && 0 <= b < names.len() && a != b implies names[a]
                != names[b] by {
                if a < b {
                    assert(self.entries@[a].0@ != self.entries@[b].0@);
                } else {
                    assert(self.entries@[b].0@ != self.entries@[a].0@);
                }
            }
        }
        r
    }
}

/// A set of names.
pub struct NameSet {
    items: Table<bool>,
}

impl View for NameSet {
    type V = Set<Seq<char>>;

    closed spec fn view(&self) -> Set<Seq<char>> {
        self.items@.dom()
    }
}

impl NameSet {
    /// The empty set.
    pub fn new() -> (r: Self)
        ensures
            r@ == Set::<Seq<char>>::empty(),
    {
        let r = NameSet { items: Table::new() };
        assert(r@ =~= Set::<Seq<char>>::empty());
        r
    }

    /// Whether `k` is in the set.
    pub fn contains(&self, k: &str) -> (r: bool)
        ensures
            r == self@.contains(k@),
    {
        self.items.contains_key(k)
    }

    /// Adds `k` to the set.
    pub fn insert(&mut self, k: String)
        ensures
            final(self)@ == old(self)@.insert(k@),
    {
        let ghost before = self@;
        let ghost key = k@;
        self.items.insert(k, true);
        assert(self@ =~= before.insert(key));
    }

    /// Takes `k` out of the set, and says whether it was in it.
    pub fn remove(&mut self, k: &str) -> (r: bool)
        ensures
            final(self)@ == old(self)@.remove(k@),
            r == old(self)@.contains(k@),
    {
        let ghost before = self@;
        let gone = self.items.remove(k);
        assert(self@ =~= before.remove(k@));
        gone.is_some()
    }
}

} // verus!
