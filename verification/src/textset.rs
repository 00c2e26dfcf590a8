//! A sorted set of texts.

use vstd::prelude::*;

use crate::text::{
    is_text_before, lemma_text_before_total, lemma_text_before_transitive, same_text, text_before,
};
use crate::types::value::clone_texts;

verus! {

/// Whether texts stand in strictly ascending order.
pub open spec fn ascending(texts: Seq<String>) -> bool {
    forall|i: int, j: int|
        0 <= i < j < texts.len() ==> text_before((#[trigger] texts[i])@, (#[trigger] texts[j])@)
}

/// The texts of a list.
pub open spec fn texts_in(texts: Seq<String>) -> Set<Seq<char>> {
    Set::new(|t: Seq<char>| exists|i: int| 0 <= i < texts.len() && (#[trigger] texts[i])@ == t)
}

/// Whether a list holds exactly the texts of a set, in ascending order. There is one such list.
pub open spec fn lists_sorted(texts: Seq<String>, set: Set<Seq<char>>) -> bool {
    ascending(texts) && texts_in(texts) == set
}

/// A set of texts, kept in ascending order.
#[derive(Debug)]
pub struct TextSet {
    /// The texts.
    pub items: Vec<String>,
}

impl View for TextSet {
    type V = Set<Seq<char>>;

    open spec fn view(&self) -> Set<Seq<char>> {
        texts_in(self.items@)
    }
}

impl Clone for TextSet {
    fn clone(&self) -> (copy: Self)
        ensures
            copy.items@ == self.items@,
    {
        TextSet { items: clone_texts(&self.items) }
    }
}

/// An ascending list of a set is as long as the set is large.
pub proof fn lemma_sorted_len(texts: Seq<String>)
    requires
        ascending(texts),
    ensures
        texts_in(texts).finite(),
        texts_in(texts).len() == texts.len(),
{
    let views = texts.map_values(|t: String| t@);
    assert(views.no_duplicates()) by {
        assert forall|i: int, j: int| 0 <= i < views.len() && 0 <= j < views.len() && i
            != j implies views[i] != views[j] by {
            lemma_text_before_total(texts[i]@, texts[j]@);
            if i < j {
                assert(text_before(texts[i]@, texts[j]@));
            } else {
                assert(text_before(texts[j]@, texts[i]@));
            }
        }
    }
    views.unique_seq_to_set();
    assert forall|t: Seq<char>| views.to_set().contains(t) == texts_in(texts).contains(t) by {
        if views.contains(t) {
            let i = choose|i: int| 0 <= i < views.len() && views[i] == t;
            assert(texts[i]@ == t);
        }
        if texts_in(texts).contains(t) {
            let i = choose|i: int| 0 <= i < texts.len() && (#[trigger] texts[i])@ == t;
            assert(views[i] == t);
        }
    }
    assert(views.to_set() =~= texts_in(texts));
}

impl TextSet {
    /// The texts stand in ascending order.
    pub open spec fn wf(self) -> bool {
        ascending(self.items@)
    }

    /// The empty set.
    pub fn new() -> (set: Self)
        ensures
            set.wf(),
            set@ == Set::<Seq<char>>::empty(),
    {
        let set = TextSet { items: Vec::new() };
        assert(set@ =~= Set::<Seq<char>>::empty());
        set
    }

    /// Where a text stands, or would stand, and whether it is there.
    fn position(&self, text: &String) -> (at: (usize, bool))
        requires
            self.wf(),
        ensures
            at.0 <= self.items@.len(),
            forall|k: int| 0 <= k < at.0 ==> text_before((#[trigger] self.items@[k])@, text@),
            at.1 ==> at.0 < self.items@.len() && self.items@[at.0 as int]@ == text@,
            !at.1 ==> forall|k: int|
                at.0 <= k < self.items@.len() ==> text_before(
                    text@,
                    (#[trigger] self.items@[k])@,
                ),
            at.1 == self@.contains(text@),
    {
        let mut i: usize = 0;
        while i < self.items.len() && is_text_before(&self.items[i], text)
            invariant
                i <= self.items@.len(),
                forall|k: int| 0 <= k < i ==> text_before((#[trigger] self.items@[k])@, text@),
            decreases self.items@.len() - i,
        {
            i = i + 1;
        }
        let found: bool = i < self.items.len() && same_text(&self.items[i], text);
        proof {
            assert forall|k: int| 0 <= k < i implies (#[trigger] self.items@[k])@ != text@ by {
                lemma_text_before_total(self.items@[k]@, text@);
            }
            if !found {
                assert forall|k: int| i <= k < self.items@.len() implies text_before(
                    text@,
                    (#[trigger] self.items@[k])@,
                ) && self.items@[k]@ != text@ by {
                    lemma_text_before_total(self.items@[i as int]@, text@);
                    if k > i {
                        lemma_text_before_transitive(
                            text@,
                            self.items@[i as int]@,
                            self.items@[k]@,
                        );
                    }
                    lemma_text_before_total(self.items@[k]@, text@);
                }
            }
        }
        (i, found)
    }

    /// Whether the set holds a text.
    pub fn contains(&self, text: &String) -> (held: bool)
        requires
            self.wf(),
        ensures
            held == self@.contains(text@),
    {
        self.position(text).1
    }

    /// Puts a text into the set.
    pub fn insert(&mut self, text: String)
        requires
            old(self).wf(),
        ensures
            final(self).wf(),
            final(self)@ == old(self)@.insert(text@),
    {
        let (at, found) = self.position(&text);
        let ghost before = self.items@;
        let ghost t = text@;
        if !found {
            self.items.insert(at, text);
            proof {
                let i = at as int;
                assert forall|a: int, b: int| 0 <= a < b < self.items@.len() implies text_before(
                    (#[trigger] self.items@[a])@,
                    (#[trigger] self.items@[b])@,
                ) by {
                    let x = if a < i { a } else { a - 1 };
                    let y = if b < i { b } else { b - 1 };
                    if a != i {
                        assert(self.items@[a] == before[x]);
                    }
                    if b != i {
                        assert(self.items@[b] == before[y]);
                    }
                }
                assert forall|s: Seq<char>| self@.contains(s) == texts_in(before).insert(t).contains(
                    s,
                ) by {
                    if self@.contains(s) {
                        let k = choose|k: int|
                            0 <= k < self.items@.len() && (#[trigger] self.items@[k])@ == s;
                        let x = if k < i { k } else { k - 1 };
                        if k != i {
                            assert(self.items@[k] == before[x]);
                        }
                    }
                    if texts_in(before).contains(s) {
                        let x = choose|x: int| 0 <= x < before.len() && (#[trigger] before[x])@ == s;
                        let k = if x < i { x } else { x + 1 };
                        assert(self.items@[k] == before[x]);
                    }
                    if s == t {
                        assert(self.items@[i]@ == s);
                    }
                }
            }
        }
        assert(self@ =~= texts_in(before).insert(t));
    }

    /// Takes a text out of the set.
    pub fn remove(&mut self, text: &String)
        requires
            old(self).wf(),
        ensures
            final(self).wf(),
            final(self)@ == old(self)@.remove(text@),
    {
        let (at, found) = self.position(text);
        let ghost before = self.items@;
        if found {
            self.items.remove(at);
            proof {
                let i = at as int;
                assert forall|a: int, b: int| 0 <= a < b < self.items@.len() implies text_before(
                    (#[trigger] self.items@[a])@,
                    (#[trigger] self.items@[b])@,
                ) by {
                    let x = if a < i { a } else { a + 1 };
                    let y = if b < i { b } else { b + 1 };
                    assert(self.items@[a] == before[x]);
                    assert(self.items@[b] == before[y]);
                }
                assert forall|s: Seq<char>| self@.contains(s) == texts_in(before).remove(
                    text@,
                ).contains(s) by {
                    if self@.contains(s) {
                        let k = choose|k: int|
                            0 <= k < self.items@.len() && (#[trigger] self.items@[k])@ == s;
                        let x = if k < i { k } else { k + 1 };
                        assert(self.items@[k] == before[x]);
                        lemma_text_before_total(before[x]@, before[i]@);
                        if x < i {
                            assert(text_before(before[x]@, before[i]@));
                        } else {
                            assert(text_before(before[i]@, before[x]@));
                        }
                    }
                    if texts_in(before).remove(text@).contains(s) {
                        let x = choose|x: int| 0 <= x < before.len() && (#[trigger] before[x])@ == s;
                        let k = if x < i { x } else { x - 1 };
                        assert(self.items@[k] == before[x]);
                    }
                }
            }
        }
        assert(self@ =~= texts_in(before).remove(text@));
    }

    /// Whether the set is empty.
    pub fn is_empty(&self) -> (empty: bool)
        ensures
            empty == (self@ == Set::<Seq<char>>::empty()),
    {
        proof {
            if self.items@.len() > 0 {
                assert(self@.contains(self.items@[0]@));
            } else {
                assert(self@ =~= Set::<Seq<char>>::empty());
            }
        }
        self.items.len() == 0
    }

    /// The texts in ascending order.
    pub fn list(&self) -> (texts: Vec<String>)
        requires
            self.wf(),
        ensures
            lists_sorted(texts@, self@),
    {
        let mut texts: Vec<String> = Vec::new();
        let mut i: usize = 0;
        while i < self.items.len()
            invariant
                i <= self.items@.len(),
                texts@.len() == i,
                forall|k: int| 0 <= k < i ==> (#[trigger] texts@[k]) == self.items@[k],
            decreases self.items@.len() - i,
        {
            texts.push(self.items[i].clone());
            i = i + 1;
        }
        assert(texts@ =~= self.items@);
        texts
    }

    /// The texts that both sets hold.
    pub fn common(&self, other: &TextSet) -> (set: TextSet)
        requires
            self.wf(),
            other.wf(),
        ensures
            set.wf(),
            set@ == self@.intersect(other@),
    {
        let mut set = TextSet::new();
        let mut i: usize = 0;
        while i < self.items.len()
            invariant
                self.wf(),
                other.wf(),
                set.wf(),
                i <= self.items@.len(),
                set@ == texts_in(self.items@.take(i as int)).intersect(other@),
            decreases self.items@.len() - i,
        {
            proof {
                lemma_take(self.items@, i as int);
            }
            if other.contains(&self.items[i]) {
                set.insert(self.items[i].clone());
            }
            i = i + 1;
            assert(set@ =~= texts_in(self.items@.take(i as int)).intersect(other@));
        }
        assert(self.items@.take(i as int) =~= self.items@);
        set
    }

    /// Puts every text of another set into this one.
    pub fn extend(&mut self, other: &TextSet)
        requires
            old(self).wf(),
            other.wf(),
        ensures
            final(self).wf(),
            final(self)@ == old(self)@.union(other@),
    {
        let ghost before = self@;
        let mut i: usize = 0;
        assert(self@ =~= before.union(texts_in(other.items@.take(0))));
        while i < other.items.len()
            invariant
                self.wf(),
                i <= other.items@.len(),
                self@ == before.union(texts_in(other.items@.take(i as int))),
            decreases other.items@.len() - i,
        {
            proof {
                lemma_take(other.items@, i as int);
            }
            self.insert(other.items[i].clone());
            i = i + 1;
            assert(self@ =~= before.union(texts_in(other.items@.take(i as int))));
        }
        assert(other.items@.take(i as int) =~= other.items@);
    }
}

/// The texts of a longer prefix.
pub proof fn lemma_take(texts: Seq<String>, i: int)
    requires
        0 <= i < texts.len(),
    ensures
        texts_in(texts.take(i + 1)) == texts_in(texts.take(i)).insert(texts[i]@),
{
    assert forall|s: Seq<char>| texts_in(texts.take(i + 1)).contains(s) == texts_in(
        texts.take(i),
    ).insert(texts[i]@).contains(s) by {
        if texts_in(texts.take(i + 1)).contains(s) {
            let k = choose|k: int| 0 <= k < i + 1 && (#[trigger] texts.take(i + 1)[k])@ == s;
            if k < i {
                assert(texts.take(i)[k]@ == s);
            }
        }
        if texts_in(texts.take(i)).contains(s) {
            let k = choose|k: int| 0 <= k < i && (#[trigger] texts.take(i)[k])@ == s;
            assert(texts.take(i + 1)[k]@ == s);
        }
        if s == texts[i]@ {
            assert(texts.take(i + 1)[i]@ == s);
        }
    }
    assert(texts_in(texts.take(i + 1)) =~= texts_in(texts.take(i)).insert(texts[i]@));
}

/// There is only one ascending list of a set.
pub proof fn a_sorted_list_is_unique(a: Seq<String>, b: Seq<String>, set: Set<Seq<char>>)
    requires
        lists_sorted(a, set),
        lists_sorted(b, set),
    ensures
        a.map_values(|t: String| t@) == b.map_values(|t: String| t@),
{
    lemma_sorted_len(a);
    lemma_sorted_len(b);
    assert forall|i: int| 0 <= i < a.len() implies (#[trigger] a[i])@ == b[i]@ by {
        lemma_same_prefix(a, b, set, i);
    }
    assert(a.map_values(|t: String| t@) =~= b.map_values(|t: String| t@));
}

proof fn lemma_same_prefix(a: Seq<String>, b: Seq<String>, set: Set<Seq<char>>, i: int)
    requires
        lists_sorted(a, set),
        lists_sorted(b, set),
        a.len() == b.len(),
        0 <= i < a.len(),
    ensures
        a[i]@ == b[i]@,
    decreases i,
{
    lemma_below(a, b, set, i);
    lemma_below(b, a, set, i);
    lemma_text_before_total(a[i]@, b[i]@);
}

/// The text at a position of one list is no later than the one of the other.
proof fn lemma_below(a: Seq<String>, b: Seq<String>, set: Set<Seq<char>>, i: int)
    requires
        lists_sorted(a, set),
        lists_sorted(b, set),
        a.len() == b.len(),
        0 <= i < a.len(),
    ensures
        !text_before(b[i]@, a[i]@),
    decreases i, 0int,
{
    if text_before(b[i]@, a[i]@) {
        assert(texts_in(b).contains(b[i]@));
        let k = choose|k: int| 0 <= k < a.len() && (#[trigger] a[k])@ == b[i]@;
        lemma_text_before_total(b[i]@, a[i]@);
        if k >= i {
            if k > i {
                assert(text_before(a[i]@, a[k]@));
                lemma_text_before_total(a[i]@, a[k]@);
            }
        } else {
            lemma_below(a, b, set, k);
            lemma_below(b, a, set, k);
            lemma_text_before_total(a[k]@, b[k]@);
            assert(text_before(b[k]@, b[i]@));
            lemma_text_before_total(b[k]@, b[i]@);
        }
    }
}

} // verus!
