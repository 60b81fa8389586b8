//! Variable bindings: names mapped to values, each name at most once.

use vstd::prelude::*;

verus! {

/// A binding table. Its view is the map from each bound name to the view
/// of its value.
pub struct Environment<V> {
    entries: Vec<(String, V)>,
}

impl<V: View> Environment<V> {
    /// No name is bound twice.
    pub closed spec fn wf(&self) -> bool {
        forall|a: int, b: int|
            0 <= a < self.entries@.len() && 0 <= b < self.entries@.len() && #[trigger] self.entries@[a].0@
                == #[trigger] self.entries@[b].0@ ==> a == b
    }

    pub closed spec fn has(&self, name: Seq<char>) -> bool {
        exists|k: int| 0 <= k < self.entries@.len() && #[trigger] self.entries@[k].0@ == name
    }

    pub closed spec fn value_of(&self, name: Seq<char>) -> V::V {
        let k = choose|k: int| 0 <= k < self.entries@.len() && #[trigger] self.entries@[k].0@ == name;
        self.entries@[k].1@
    }

    pub closed spec fn view(&self) -> Map<Seq<char>, V::V> {
        Map::new(|name: Seq<char>| self.has(name), |name: Seq<char>| self.value_of(name))
    }

    proof fn lemma_at(&self, k: int)
        requires
            self.wf(),
            0 <= k < self.entries@.len(),
        ensures
            self.view().contains_key(self.entries@[k].0@),
            self.view()[self.entries@[k].0@] == self.entries@[k].1@,
    {
        let name = self.entries@[k].0@;
        assert(self.has(name));
        let j = choose|j: int| 0 <= j < self.entries@.len() && #[trigger] self.entries@[j].0@ == name;
        assert(j == k);
    }

    pub fn new() -> (r: Self)
        ensures
            r.wf(),
            r.view() == Map::<Seq<char>, V::V>::empty(),
    {
        let r = Environment { entries: Vec::new() };
        assert(r.view() =~= Map::<Seq<char>, V::V>::empty());
        r
    }

    fn position(&self, name: &String) -> (r: Option<usize>)
        requires
            self.wf(),
        ensures
            r matches Some(k) ==> k < self.entries@.len() && self.entries@[k as int].0@ == name@,
            r is None ==> !self.view().contains_key(name@),
    {
        let mut k: usize = 0;
        while k < self.entries.len()
            invariant
                k <= self.entries@.len(),
                forall|j: int| 0 <= j < k ==> #[trigger] self.entries@[j].0@ != name@,
            decreases self.entries@.len() - k,
        {
            if self.entries[k].0 == *name {
                return Some(k);
            }
            k = k + 1;
        }
        None
    }

    /// The value bound to `name`, if any.
    pub fn get(&self, name: &String) -> (r: Option<&V>)
        requires
            self.wf(),
        ensures
            r is None <==> !self.view().contains_key(name@),
            r matches Some(v) ==> self.view()[name@] == v@,
    {
        match self.position(name) {
            Some(k) => {
                proof {
                    self.lemma_at(k as int);
                }
                Some(&self.entries[k].1)
            },
            None => None,
        }
    }

    /// Whether `name` is bound.
    pub fn contains(&self, name: &String) -> (r: bool)
        requires
            self.wf(),
        ensures
            r == self.view().contains_key(name@),
    {
        match self.position(name) {
            Some(k) => {
                proof {
                    self.lemma_at(k as int);
                }
                true
            },
            None => false,
        }
    }

    /// Binds `name` to `value`, replacing any earlier binding.
    pub fn insert(&mut self, name: String, value: V)
        requires
            old(self).wf(),
        ensures
            final(self).wf(),
            final(self).view() == old(self).view().insert(name@, value@),
    {
        let ghost before = *self;
        let ghost key = name@;
        let ghost val = value@;
        match self.position(&name) {
            Some(k) => {
                self.entries.set(k, (name, value));
                proof {
                    assert forall|x: Seq<char>| #[trigger] self.has(x) == before.view().insert(key, val).contains_key(x) by {
                        if before.has(x) && x != key {
                            let j = choose|j: int| 0 <= j < before.entries@.len() && #[trigger] before.entries@[j].0@ == x;
                            assert(self.entries@[j].0@ == x);
                        }
                        if x == key {
                            assert(self.entries@[k as int].0@ == x);
                        }
                    }
                    assert forall|x: Seq<char>| #[trigger] self.has(x) implies self.value_of(x) == before.view().insert(key, val)[x] by {
                        let j = choose|j: int| 0 <= j < self.entries@.len() && #[trigger] self.entries@[j].0@ == x;
                        if x != key {
                            assert(j != k);
                            before.lemma_at(j);
                        }
                    }
                    assert(self.view() =~= before.view().insert(key, val));
                }
            },
            None => {
                self.entries.push((name, value));
                proof {
                    let n = before.entries@.len() as int;
                    assert forall|x: Seq<char>| #[trigger] self.has(x) == before.view().insert(key, val).contains_key(x) by {
                        if before.has(x) {
                            let j = choose|j: int| 0 <= j < before.entries@.len() && #[trigger] before.entries@[j].0@ == x;
                            assert(self.entries@[j].0@ == x);
                        }
                        if x == key {
                            assert(self.entries@[n].0@ == x);
                        }
                    }
                    assert forall|x: Seq<char>| #[trigger] self.has(x) implies self.value_of(x) == before.view().insert(key, val)[x] by {
                        let j = choose|j: int| 0 <= j < self.entries@.len() && #[trigger] self.entries@[j].0@ == x;
                        if x != key {
                            assert(j != n);
                            before.lemma_at(j);
                        } else {
                            assert(j == n);
                        }
                    }
                    assert(self.view() =~= before.view().insert(key, val));
                }
            },
        }
    }

    /// Unbinds `name`, handing back the value it had.
    pub fn remove(&mut self, name: &String) -> (r: Option<V>)
        requires
            old(self).wf(),
        ensures
            final(self).wf(),
            final(self).view() == old(self).view().remove(name@),
            r is None <==> !old(self).view().contains_key(name@),
            r matches Some(v) ==> old(self).view()[name@] == v@,
    {
        let ghost before = *self;
        match self.position(name) {
            Some(k) => {
                proof {
                    before.lemma_at(k as int);
                }
                let (_, v) = self.entries.remove(k);
                proof {
                    let key = name@;
                    assert forall|a: int, b: int|
                        0 <= a < self.entries@.len() && 0 <= b < self.entries@.len() && #[trigger] self.entries@[a].0@
                            == #[trigger] self.entries@[b].0@ implies a == b by {
                        let a0 = if a < k { a } else { a + 1 };
                        let b0 = if b < k { b } else { b + 1 };
                        assert(self.entries@[a] == before.entries@[a0]);
                        assert(self.entries@[b] == before.entries@[b0]);
                    }
                    assert forall|x: Seq<char>| #[trigger] self.has(x) == before.view().remove(key).contains_key(x) by {
                        if before.has(x) && x != key {
                            let j = choose|j: int| 0 <= j < before.entries@.len() && #[trigger] before.entries@[j].0@ == x;
                            assert(j != k);
                            let j1 = if j < k { j } else { j - 1 };
                            assert(self.entries@[j1] == before.entries@[j]);
                        }
                        if self.has(x) {
                            let j = choose|j: int| 0 <= j < self.entries@.len() && #[trigger] self.entries@[j].0@ == x;
                            let j0 = if j < k { j } else { j + 1 };
                            assert(self.entries@[j] == before.entries@[j0]);
                            assert(j0 != k);
                        }
                    }
                    assert forall|x: Seq<char>| #[trigger] self.has(x) implies self.value_of(x) == before.view().remove(key)[x] by {
                        let j = choose|j: int| 0 <= j < self.entries@.len() && #[trigger] self.entries@[j].0@ == x;
                        let j0 = if j < k { j } else { j + 1 };
                        assert(self.entries@[j] == before.entries@[j0]);
                        before.lemma_at(j0);
                    }
                    assert(self.view() =~= before.view().remove(key));
                }
                Some(v)
            },
            None => {
                assert(self.view() =~= before.view().remove(name@));
                None
            },
        }
    }
}

} // verus!
