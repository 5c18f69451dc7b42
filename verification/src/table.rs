//! A small table keyed by text, kept as two parallel vectors with distinct
//! keys. Its view is a map from key text to value.

use vstd::prelude::*;
use vstd::string::*;

verus! {

pub struct KeyedTable<V> {
    keys: Vec<String>,
    values: Vec<V>,
}

impl<V> KeyedTable<V> {
    /// Keys and values run in parallel and no key text occurs twice.
    pub closed spec fn wf(&self) -> bool {
        &&& self.keys@.len() == self.values@.len()
        &&& forall|i: int, j: int|
            0 <= i < j < self.keys@.len() ==> (#[trigger] self.keys@[i])@ != (
            #[trigger] self.keys@[j])@
    }

    pub closed spec fn holds_at(&self, key: Seq<char>, i: int) -> bool {
        0 <= i < self.keys@.len() && self.keys@[i]@ == key
    }

    /// The table as a map from key text to value.
    pub closed spec fn view(&self) -> Map<Seq<char>, V> {
        Map::new(
            |k: Seq<char>| exists|i: int| self.holds_at(k, i),
            |k: Seq<char>| self.values@[choose|i: int| self.holds_at(k, i)],
        )
    }

    proof fn lemma_view_at(&self, i: int)
        requires
            self.wf(),
            0 <= i < self.keys@.len(),
        ensures
            self@.contains_key(self.keys@[i]@),
            self@[self.keys@[i]@] == self.values@[i],
    {
        let k = self.keys@[i]@;
        assert(self.holds_at(k, i));
        let j = choose|j: int| self.holds_at(k, j);
        assert(self.holds_at(k, j));
        if i < j {
            assert(self.keys@[i]@ != self.keys@[j]@);
        } else if j < i {
            assert(self.keys@[j]@ != self.keys@[i]@);
        }
    }

    proof fn lemma_absent(&self, key: Seq<char>)
        requires
            forall|i: int| 0 <= i < self.keys@.len() ==> (#[trigger] self.keys@[i])@ != key,
        ensures
            !self@.contains_key(key),
    {
        if self@.contains_key(key) {
            let j = choose|j: int| self.holds_at(key, j);
            assert(self.holds_at(key, j));
            assert(self.keys@[j]@ != key);
        }
    }

    proof fn lemma_present(&self, key: Seq<char>) -> (i: int)
        requires
            self.wf(),
            self@.contains_key(key),
        ensures
            0 <= i < self.keys@.len(),
            self.keys@[i]@ == key,
            self@[key] == self.values@[i],
    {
        let j = choose|j: int| self.holds_at(key, j);
        assert(self.holds_at(key, j));
        self.lemma_view_at(j);
        j
    }

    /// An empty table.
    pub fn new() -> (table: Self)
        ensures
            table.wf(),
            table@ == Map::<Seq<char>, V>::empty(),
    {
        let table = KeyedTable { keys: Vec::new(), values: Vec::new() };
        proof {
            assert forall|k: Seq<char>| !table@.contains_key(k) by {
                table.lemma_absent(k);
            }
            assert(table@ =~= Map::<Seq<char>, V>::empty());
        }
        table
    }

    fn position(&self, key: &str) -> (r: Option<usize>)
        requires
            self.wf(),
        ensures
            match r {
                Some(i) => i < self.keys@.len() && self.keys@[i as int]@ == key@
                    && self@.contains_key(key@) && self@[key@] == self.values@[i as int],
                None => !self@.contains_key(key@),
            },
    {
        let wanted = key.to_owned();
        let mut i: usize = 0;
        while i < self.keys.len()
            invariant
                self.wf(),
                wanted@ == key@,
                i <= self.keys@.len(),
                forall|k: int| 0 <= k < i ==> (#[trigger] self.keys@[k])@ != key@,
            decreases self.keys@.len() - i,
        {
            if self.keys[i] == wanted {
                proof {
                    self.lemma_view_at(i as int);
                }
                return Some(i);
            }
            i += 1;
        }
        proof {
            self.lemma_absent(key@);
        }
        None
    }

    /// The value stored under `key`, if any.
    pub fn get(&self, key: &str) -> (r: Option<&V>)
        requires
            self.wf(),
        ensures
            match r {
                Some(value) => self@.contains_key(key@) && *value == self@[key@],
                None => !self@.contains_key(key@),
            },
    {
        match self.position(key) {
            Some(i) => Some(&self.values[i]),
            None => None,
        }
    }

    /// Removes the entry of `key` and hands its value out.
    pub fn remove(&mut self, key: &str) -> (r: Option<V>)
        requires
            old(self).wf(),
        ensures
            final(self).wf(),
            final(self)@ == old(self)@.remove(key@),
            match r {
                Some(value) => old(self)@.contains_key(key@) && value == old(self)@[key@],
                None => !old(self)@.contains_key(key@),
            },
    {
        match self.position(key) {
            Some(i) => {
                let ghost before = *self;
                self.keys.remove(i);
                let value = self.values.remove(i);
                proof {
                    let after = *self;
                    assert(after.wf()) by {
                        assert forall|a: int, b: int| 0 <= a < b < after.keys@.len() implies (
                        #[trigger] after.keys@[a])@ != (#[trigger] after.keys@[b])@ by {
                            let a0 = if a < i { a } else { a + 1 };
                            let b0 = if b < i { b } else { b + 1 };
                            assert(after.keys@[a] == before.keys@[a0]);
                            assert(after.keys@[b] == before.keys@[b0]);
                        }
                    }
                    assert forall|k: Seq<char>|
                        #![trigger after@.dom().contains(k)]
                        #![trigger before@.remove(key@).dom().contains(k)]
                        after@.contains_key(k) == before@.remove(key@).contains_key(k) && (
                        after@.contains_key(k) ==> after@[k] == before@.remove(key@)[k]) by {
                        if after@.contains_key(k) {
                            let j = after.lemma_present(k);
                            let j0 = if j < i { j } else { j + 1 };
                            assert(after.keys@[j] == before.keys@[j0]);
                            before.lemma_view_at(j0);
                            if i < j0 {
                                assert(before.keys@[i as int]@ != before.keys@[j0]@);
                            } else {
                                assert(before.keys@[j0]@ != before.keys@[i as int]@);
                            }
                        } else if before@.contains_key(k) && k != key@ {
                            let j0 = before.lemma_present(k);
                            let j = if j0 < i { j0 } else { j0 - 1 };
                            assert(after.keys@[j] == before.keys@[j0]);
                            after.lemma_view_at(j);
                        }
                    }
                    assert(after@ =~= before@.remove(key@));
                }
                Some(value)
            },
            None => {
                proof {
                    assert(self@ =~= self@.remove(key@));
                }
                None
            },
        }
    }

    /// Stores `value` under `key`, replacing what was there.
    pub fn insert(&mut self, key: String, value: V)
        requires
            old(self).wf(),
        ensures
            final(self).wf(),
            final(self)@ == old(self)@.insert(key@, value),
    {
        let _ = self.remove(key.as_str());
        let ghost before = *self;
        self.keys.push(key);
        self.values.push(value);
        proof {
            let after = *self;
            let n = before.keys@.len() as int;
            before.lemma_absent_keys(key@);
            assert(after.wf()) by {
                assert forall|a: int, b: int| 0 <= a < b < after.keys@.len() implies (
                #[trigger] after.keys@[a])@ != (#[trigger] after.keys@[b])@ by {
                    assert(after.keys@[a] == before.keys@[a]);
                    if b < n {
                        assert(after.keys@[b] == before.keys@[b]);
                    }
                }
            }
            assert forall|k: Seq<char>|
                #![trigger after@.dom().contains(k)]
                #![trigger before@.insert(key@, value).dom().contains(k)]
                after@.contains_key(k) == before@.insert(key@, value).contains_key(k) && (
                after@.contains_key(k) ==> after@[k] == before@.insert(key@, value)[k]) by {
                after.lemma_view_at(n);
                if after@.contains_key(k) {
                    let j = after.lemma_present(k);
                    if j < n {
                        assert(after.keys@[j] == before.keys@[j]);
                        before.lemma_view_at(j);
                    }
                } else if before@.contains_key(k) {
                    let j = before.lemma_present(k);
                    assert(after.keys@[j] == before.keys@[j]);
                    after.lemma_view_at(j);
                }
            }
            assert(after@ =~= before@.insert(key@, value));
            assert(before@.insert(key@, value) =~= old(self)@.insert(key@, value));
        }
    }

    proof fn lemma_absent_keys(&self, key: Seq<char>)
        requires
            self.wf(),
            !self@.contains_key(key),
        ensures
            forall|i: int| 0 <= i < self.keys@.len() ==> (#[trigger] self.keys@[i])@ != key,
    {
        assert forall|i: int| 0 <= i < self.keys@.len() implies (#[trigger] self.keys@[i])@
            != key by {
            self.lemma_view_at(i);
        }
    }
}

} // verus!
