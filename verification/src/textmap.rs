//! A map from texts to values, for the small keyed collections of the engine.

use vstd::prelude::*;

use crate::text::same_text;

verus! {

/// A map from texts to values. No key occurs twice; the entries keep the order in which their
/// keys first came in.
#[derive(Debug)]
pub struct TextMap<V> {
    /// The entries.
    pub entries: Vec<(String, V)>,
}

/// Whether no two entries share a key.
pub open spec fn distinct_keys<V>(entries: Seq<(String, V)>) -> bool {
    forall|i: int, j: int|
        0 <= i < j < entries.len() ==> (#[trigger] entries[i]).0@ != (#[trigger] entries[j]).0@
}

/// Whether an entry has a key.
pub open spec fn has_key<V>(entries: Seq<(String, V)>, key: Seq<char>) -> bool {
    exists|i: int| 0 <= i < entries.len() && (#[trigger] entries[i]).0@ == key
}

/// The position of a key.
pub open spec fn position_of<V>(entries: Seq<(String, V)>, key: Seq<char>) -> int {
    choose|i: int| 0 <= i < entries.len() && (#[trigger] entries[i]).0@ == key
}

impl<V> View for TextMap<V> {
    type V = Map<Seq<char>, V>;

    open spec fn view(&self) -> Map<Seq<char>, V> {
        Map::new(
            |key: Seq<char>| has_key(self.entries@, key),
            |key: Seq<char>| self.entries@[position_of(self.entries@, key)].1,
        )
    }
}

impl<V> TextMap<V> {
    /// No key occurs twice.
    pub open spec fn wf(self) -> bool {
        distinct_keys(self.entries@)
    }

    /// Every entry is in the map under its key.
    pub proof fn lemma_entry(self, i: int)
        requires
            self.wf(),
            0 <= i < self.entries@.len(),
        ensures
            self@.contains_key(self.entries@[i].0@),
            self@[self.entries@[i].0@] == self.entries@[i].1,
    {
        let key = self.entries@[i].0@;
        let at = position_of(self.entries@, key);
        assert(self.entries@[at].0@ == key);
        if at < i || i < at {
            assert(self.entries@[at].0@ != self.entries@[i].0@);
        }
    }

    /// The empty map.
    pub fn new() -> (map: Self)
        ensures
            map.wf(),
            map@ == Map::<Seq<char>, V>::empty(),
            map.entries@.len() == 0,
    {
        let map = TextMap { entries: Vec::new() };
        assert(map@ =~= Map::<Seq<char>, V>::empty());
        map
    }

    /// The position of a key, if the map has it.
    pub fn find(&self, key: &String) -> (at: Option<usize>)
        requires
            self.wf(),
        ensures
            match at {
                Some(i) => i < self.entries@.len() && self.entries@[i as int].0@ == key@
                    && self@.contains_key(key@) && self@[key@] == self.entries@[i as int].1,
                None => !self@.contains_key(key@),
            },
    {
        let mut i: usize = 0;
        while i < self.entries.len()
            invariant
                self.wf(),
                i <= self.entries@.len(),
                forall|k: int| 0 <= k < i ==> (#[trigger] self.entries@[k]).0@ != key@,
            decreases self.entries@.len() - i,
        {
            if same_text(&self.entries[i].0, key) {
                proof {
                    self.lemma_entry(i as int);
                }
                return Some(i);
            }
            i = i + 1;
        }
        None
    }

    /// The value of a key, if the map has it.
    pub fn get(&self, key: &String) -> (value: Option<&V>)
        requires
            self.wf(),
        ensures
            match value {
                Some(v) => self@.contains_key(key@) && self@[key@] == *v,
                None => !self@.contains_key(key@),
            },
    {
        match self.find(key) {
            Some(i) => Some(&self.entries[i].1),
            None => None,
        }
    }

    /// Adds an entry for a key that the map does not have.
    pub fn add_new(&mut self, key: String, value: V)
        requires
            old(self).wf(),
            !old(self)@.contains_key(key@),
        ensures
            final(self).wf(),
            final(self)@ == old(self)@.insert(key@, value),
            final(self).entries@ == old(self).entries@.push((key, value)),
    {
        let ghost before = *self;
        let ghost k = key@;
        self.entries.push((key, value));
        proof {
            let n = before.entries@.len() as int;
            assert forall|i: int, j: int| 0 <= i < j < self.entries@.len() implies (
            #[trigger] self.entries@[i]).0@ != (#[trigger] self.entries@[j]).0@ by {
                if j == n {
                    assert(self.entries@[i] == before.entries@[i]);
                    assert(!has_key(before.entries@, k));
                } else {
                    assert(self.entries@[i] == before.entries@[i]);
                    assert(self.entries@[j] == before.entries@[j]);
                }
            }
            let want = before@.insert(k, value);
            assert forall|j: int| 0 <= j < self.entries@.len() implies want.contains_key(
                (#[trigger] self.entries@[j]).0@,
            ) && want[self.entries@[j].0@] == self.entries@[j].1 by {
                if j < n {
                    assert(self.entries@[j] == before.entries@[j]);
                    before.lemma_entry(j);
                }
            }
            assert forall|x: Seq<char>| want.contains_key(x) implies has_key(self.entries@, x) by {
                if x == k {
                    assert(self.entries@[n].0@ == x);
                } else {
                    let at = position_of(before.entries@, x);
                    assert(before.entries@[at].0@ == x);
                    assert(self.entries@[at] == before.entries@[at]);
                }
            }
            self.lemma_same_as(want);
        }
    }

    /// Sets the value of a key, whether or not the map has it.
    pub fn insert(&mut self, key: String, value: V)
        requires
            old(self).wf(),
        ensures
            final(self).wf(),
            final(self)@ == old(self)@.insert(key@, value),
    {
        match self.find(&key) {
            None => self.add_new(key, value),
            Some(i) => self.set_at(i, value),
        }
    }

    /// Sets the value of the entry at a position.
    pub fn set_at(&mut self, i: usize, value: V)
        requires
            old(self).wf(),
            i < old(self).entries@.len(),
        ensures
            final(self).wf(),
            final(self)@ == old(self)@.insert(old(self).entries@[i as int].0@, value),
            final(self).entries@ == old(self).entries@.update(
                i as int,
                (old(self).entries@[i as int].0, value),
            ),
    {
        let ghost before = *self;
        let key = self.entries[i].0.clone();
        let ghost k = key@;
        self.entries.set(i, (key, value));
        proof {
            assert forall|a: int, b: int| 0 <= a < b < self.entries@.len() implies (
            #[trigger] self.entries@[a]).0@ != (#[trigger] self.entries@[b]).0@ by {
                assert(before.entries@[a].0@ != before.entries@[b].0@);
            }
            let want = before@.insert(k, value);
            assert forall|j: int| 0 <= j < self.entries@.len() implies want.contains_key(
                (#[trigger] self.entries@[j]).0@,
            ) && want[self.entries@[j].0@] == self.entries@[j].1 by {
                if j != i {
                    before.lemma_entry(j);
                    assert(self.entries@[j] == before.entries@[j]);
                    if j < i {
                        assert(before.entries@[j].0@ != before.entries@[i as int].0@);
                    } else {
                        assert(before.entries@[i as int].0@ != before.entries@[j].0@);
                    }
                }
            }
            assert forall|x: Seq<char>| want.contains_key(x) implies has_key(
                self.entries@,
                x,
            ) by {
                if x == k {
                    assert(self.entries@[i as int].0@ == x);
                } else {
                    let at = position_of(before.entries@, x);
                    assert(before.entries@[at].0@ == x);
                    assert(self.entries@[at].0@ == x);
                }
            }
            self.lemma_same_as(want);
        }
    }

    /// Takes a key out of the map.
    pub fn remove(&mut self, key: &String) -> (value: Option<V>)
        requires
            old(self).wf(),
        ensures
            final(self).wf(),
            final(self)@ == old(self)@.remove(key@),
            match value {
                Some(v) => old(self)@.contains_key(key@) && old(self)@[key@] == v,
                None => !old(self)@.contains_key(key@),
            },
    {
        match self.find(key) {
            None => {
                assert(self@ =~= old(self)@.remove(key@));
                None
            },
            Some(i) => {
                let (_, value) = self.remove_at(i);
                Some(value)
            },
        }
    }

    /// Takes out the entry at a position.
    pub fn remove_at(&mut self, i: usize) -> (entry: (String, V))
        requires
            old(self).wf(),
            i < old(self).entries@.len(),
        ensures
            final(self).wf(),
            entry == old(self).entries@[i as int],
            final(self)@ == old(self)@.remove(entry.0@),
            final(self).entries@ == old(self).entries@.remove(i as int),
            old(self)@.contains_key(entry.0@),
            old(self)@[entry.0@] == entry.1,
    {
        let ghost before = *self;
        let entry = self.entries.remove(i);
        proof {
            let at = i as int;
            before.lemma_entry(at);
            assert forall|a: int, b: int| 0 <= a < b < self.entries@.len() implies (
            #[trigger] self.entries@[a]).0@ != (#[trigger] self.entries@[b]).0@ by {
                let x = if a < at { a } else { a + 1 };
                let y = if b < at { b } else { b + 1 };
                assert(self.entries@[a] == before.entries@[x]);
                assert(self.entries@[b] == before.entries@[y]);
            }
            let want = before@.remove(entry.0@);
            assert forall|j: int| 0 <= j < self.entries@.len() implies want.contains_key(
                (#[trigger] self.entries@[j]).0@,
            ) && want[self.entries@[j].0@] == self.entries@[j].1 by {
                let x = if j < at { j } else { j + 1 };
                assert(self.entries@[j] == before.entries@[x]);
                before.lemma_entry(x);
                if x < at {
                    assert(before.entries@[x].0@ != before.entries@[at].0@);
                } else {
                    assert(before.entries@[at].0@ != before.entries@[x].0@);
                }
            }
            assert forall|x: Seq<char>| want.contains_key(x) implies has_key(
                self.entries@,
                x,
            ) by {
                let p = position_of(before.entries@, x);
                assert(before.entries@[p].0@ == x);
                let q = if p < at { p } else { p - 1 };
                assert(self.entries@[q] == before.entries@[p]);
            }
            self.lemma_same_as(want);
        }
        entry
    }

    /// Takes out the last entry.
    pub fn take_last(&mut self) -> (entry: Option<(String, V)>)
        requires
            old(self).wf(),
        ensures
            final(self).wf(),
            match entry {
                Some((key, value)) => old(self)@.contains_key(key@) && old(self)@[key@] == value
                    && final(self)@ == old(self)@.remove(key@) && final(self).entries@
                    == old(self).entries@.drop_last() && old(self).entries@.len() > 0,
                None => old(self)@ == Map::<Seq<char>, V>::empty() && *final(self) == *old(self),
            },
    {
        let n: usize = self.entries.len();
        if n == 0 {
            assert(self@ =~= Map::<Seq<char>, V>::empty());
            return None;
        }
        let ghost before = *self;
        let entry = self.entries.pop();
        proof {
            let last = before.entries@.len() - 1;
            before.lemma_entry(last);
            let key = before.entries@[last].0@;
            let want = before@.remove(key);
            assert forall|a: int, b: int| 0 <= a < b < self.entries@.len() implies (
            #[trigger] self.entries@[a]).0@ != (#[trigger] self.entries@[b]).0@ by {
                assert(self.entries@[a] == before.entries@[a]);
                assert(self.entries@[b] == before.entries@[b]);
            }
            assert forall|j: int| 0 <= j < self.entries@.len() implies want.contains_key(
                (#[trigger] self.entries@[j]).0@,
            ) && want[self.entries@[j].0@] == self.entries@[j].1 by {
                assert(self.entries@[j] == before.entries@[j]);
                before.lemma_entry(j);
                assert(before.entries@[j].0@ != before.entries@[last].0@);
            }
            assert forall|x: Seq<char>| want.contains_key(x) implies has_key(self.entries@, x) by {
                let p = position_of(before.entries@, x);
                assert(before.entries@[p].0@ == x);
                assert(self.entries@[p] == before.entries@[p]);
            }
            self.lemma_same_as(want);
        }
        entry
    }

    /// A map whose entries are exactly those of `want` is `want`.
    proof fn lemma_same_as(self, want: Map<Seq<char>, V>)
        requires
            self.wf(),
            forall|j: int|
                0 <= j < self.entries@.len() ==> want.contains_key(
                    (#[trigger] self.entries@[j]).0@,
                ) && want[self.entries@[j].0@] == self.entries@[j].1,
            forall|x: Seq<char>| #[trigger] want.contains_key(x) ==> has_key(self.entries@, x),
        ensures
            self@ == want,
    {
        assert forall|x: Seq<char>| #[trigger] self@.contains_key(x) implies self@[x] == want[x]
            && want.contains_key(x) by {
            let p = position_of(self.entries@, x);
            assert(self.entries@[p].0@ == x);
        }
        assert(self@ =~= want);
    }

    /// The number of entries is the size of the map.
    pub proof fn lemma_len(self)
        requires
            self.wf(),
        ensures
            self@.dom().finite(),
            self@.dom().len() == self.entries@.len(),
    {
        let keys = self.entries@.map_values(|e: (String, V)| e.0@);
        assert(keys.no_duplicates()) by {
            assert forall|i: int, j: int| 0 <= i < keys.len() && 0 <= j < keys.len() && i
                != j implies keys[i] != keys[j] by {
                if i < j {
                    assert(self.entries@[i].0@ != self.entries@[j].0@);
                } else {
                    assert(self.entries@[j].0@ != self.entries@[i].0@);
                }
            }
        }
        keys.unique_seq_to_set();
        assert forall|x: Seq<char>| keys.to_set().contains(x) == self@.dom().contains(x) by {
            if keys.contains(x) {
                let i = choose|i: int| 0 <= i < keys.len() && keys[i] == x;
                assert(self.entries@[i].0@ == x);
            }
            if has_key(self.entries@, x) {
                let i = position_of(self.entries@, x);
                assert(keys[i] == x);
            }
        }
        assert(keys.to_set() =~= self@.dom());
    }

    /// The number of keys.
    pub fn len(&self) -> (n: usize)
        requires
            self.wf(),
        ensures
            n == self@.dom().len(),
            n == self.entries@.len(),
    {
        proof {
            self.lemma_len();
        }
        self.entries.len()
    }
}

} // verus!
