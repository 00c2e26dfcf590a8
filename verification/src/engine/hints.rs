//! The coin hint index.
//!
//! A coin can be announced under several hints, and the useful question is often which coins are
//! announced under all of them. The index records every hint of a coin, whatever its position
//! among the memos, in both directions: from the hint to its coins, and from the coin to its
//! hints, so that a coin can be withdrawn without a look at every hint.

use vstd::prelude::*;
use vstd::string::*;

use crate::text::same_text;
use crate::textmap::TextMap;
use crate::textset::{a_sorted_list_is_unique, lemma_sorted_len, lists_sorted, texts_in, TextSet};
use crate::types::hint::Hint;
use crate::types::value::texts_view;

verus! {

/// An index of coin ids by the hints that the coins were announced under.
#[derive(Debug)]
pub struct HintIndex {
    by_hint: TextMap<TextSet>,
    by_coin: TextMap<TextSet>,
}

/// Whether every set is in order.
pub open spec fn sets_wf(sets: Map<Seq<char>, TextSet>) -> bool {
    forall|key: Seq<char>| #[trigger] sets.contains_key(key) ==> sets[key].wf()
}

/// Whether the set under one key holds another key.
pub open spec fn linked(sets: Map<Seq<char>, TextSet>, from: Seq<char>, to: Seq<char>) -> bool {
    sets.contains_key(from) && sets[from]@.contains(to)
}

/// Whether two maps of sets say the same in opposite directions.
pub open spec fn mirrored(
    by_hint: Map<Seq<char>, TextSet>,
    by_coin: Map<Seq<char>, TextSet>,
) -> bool {
    forall|hint: Seq<char>, coin: Seq<char>|
        #![trigger linked(by_hint, hint, coin)]
        #![trigger linked(by_coin, coin, hint)]
        linked(by_hint, hint, coin) == linked(by_coin, coin, hint)
}

/// Whether no set is empty.
pub open spec fn no_empty_set(sets: Map<Seq<char>, TextSet>) -> bool {
    forall|key: Seq<char>| #[trigger]
        sets.contains_key(key) ==> sets[key]@ != Set::<Seq<char>>::empty()
}

/// The coins of an index that were announced under a hint.
pub open spec fn announced(index: Map<Seq<char>, Set<Seq<char>>>, hint: Seq<char>) -> Set<
    Seq<char>,
> {
    Set::new(|coin: Seq<char>| index.contains_key(coin) && index[coin].contains(hint))
}

/// The coins of an index that were announced under every one of some hints; none if there are no
/// hints.
pub open spec fn announced_under_all(
    index: Map<Seq<char>, Set<Seq<char>>>,
    hints: Seq<Hint>,
) -> Set<Seq<char>> {
    Set::new(
        |coin: Seq<char>|
            hints.len() > 0 && index.contains_key(coin) && forall|i: int|
                0 <= i < hints.len() ==> index[coin].contains((#[trigger] hints[i])@),
    )
}

/// The coins of an index that were announced under any of some hints.
pub open spec fn announced_under_any(
    index: Map<Seq<char>, Set<Seq<char>>>,
    hints: Seq<Hint>,
) -> Set<Seq<char>> {
    Set::new(
        |coin: Seq<char>|
            index.contains_key(coin) && exists|i: int|
                0 <= i < hints.len() && index[coin].contains((#[trigger] hints[i])@),
    )
}

/// The hints that an index has for a coin; none for a coin that it does not know.
pub open spec fn hints_of(index: Map<Seq<char>, Set<Seq<char>>>, coin: Seq<char>) -> Set<
    Seq<char>,
> {
    if index.contains_key(coin) {
        index[coin]
    } else {
        Set::empty()
    }
}

/// The texts of hints.
pub open spec fn hint_texts(hints: Seq<Hint>) -> Seq<String> {
    hints.map_values(|h: Hint| h.0)
}

impl View for HintIndex {
    type V = Map<Seq<char>, Set<Seq<char>>>;

    /// From each known coin to its hints.
    closed spec fn view(&self) -> Map<Seq<char>, Set<Seq<char>>> {
        self.by_coin@.map_values(|s: TextSet| s@)
    }
}

impl HintIndex {
    /// Both directions are in order and say the same, and no hint is kept without a coin.
    pub closed spec fn wf(self) -> bool {
        &&& self.by_hint.wf()
        &&& self.by_coin.wf()
        &&& sets_wf(self.by_hint@)
        &&& sets_wf(self.by_coin@)
        &&& no_empty_set(self.by_hint@)
        &&& mirrored(self.by_hint@, self.by_coin@)
    }

    /// Whether two indexes know the same coins, each with the same hints.
    pub closed spec fn same_as(self, other: Self) -> bool {
        covered(self.by_coin.entries@, other.by_coin.entries@) && covered(
            other.by_coin.entries@,
            self.by_coin.entries@,
        )
    }

    /// Indexes are equal exactly if they say the same, in whatever order the coins came in.
    pub proof fn equal_indexes_say_the_same(self, other: Self)
        requires
            self.wf(),
            other.wf(),
        ensures
            self.same_as(other) == (self@ == other@),
    {
        if self.same_as(other) {
            lemma_covered(self.by_coin, other.by_coin);
            lemma_covered(other.by_coin, self.by_coin);
            assert(self@ =~= other@);
        }
        if self@ == other@ {
            assert(self@.dom() =~= self.by_coin@.dom());
            assert(other@.dom() =~= other.by_coin@.dom());
            lemma_covers(self.by_coin, other.by_coin);
            lemma_covers(other.by_coin, self.by_coin);
        }
    }

    /// An index knows finitely many coins, each with finitely many hints.
    pub proof fn an_index_is_finite(self)
        requires
            self.wf(),
        ensures
            self@.dom().finite(),
            forall|coin: Seq<char>| #[trigger]
                self@.contains_key(coin) ==> self@[coin].finite(),
    {
        self.by_coin.lemma_len();
        assert(self@.dom() =~= self.by_coin@.dom());
        assert forall|coin: Seq<char>| #[trigger] self@.contains_key(coin) implies self@[coin].finite() by {
            assert(self.by_coin@.contains_key(coin));
            lemma_sorted_len(self.by_coin@[coin].items@);
        }
    }

    /// An empty index.
    pub fn new() -> (index: Self)
        ensures
            index.wf(),
            index@ == Map::<Seq<char>, Set<Seq<char>>>::empty(),
    {
        let index = HintIndex { by_hint: TextMap::new(), by_coin: TextMap::new() };
        assert(index@ =~= Map::<Seq<char>, Set<Seq<char>>>::empty());
        index
    }

    /// Records that a coin was announced under hints, beside those that it has already.
    pub fn index(&mut self, coin_id: String, hints: Vec<Hint>)
        requires
            old(self).wf(),
        ensures
            final(self).wf(),
            final(self)@ == old(self)@.insert(
                coin_id@,
                hints_of(old(self)@, coin_id@).union(texts_in(hint_texts(hints@))),
            ),
    {
        let ghost before = self@;
        if self.by_coin.find(&coin_id).is_none() {
            self.by_coin.add_new(coin_id.clone(), TextSet::new());
            proof {
                assert forall|hint: Seq<char>, coin: Seq<char>| linked(
                    self.by_hint@,
                    hint,
                    coin,
                ) == linked(self.by_coin@, coin, hint) by {
                    assert(linked(self.by_hint@, hint, coin) == linked(
                        old(self).by_coin@,
                        coin,
                        hint,
                    ));
                }
            }
        }
        let ghost start = hints_of(before, coin_id@);
        assert(self@ =~= before.insert(coin_id@, start));
        let ghost texts = hint_texts(hints@);
        let mut i: usize = 0;
        assert(start.union(texts_in(texts.take(0))) =~= start);
        while i < hints.len()
            invariant
                self.wf(),
                i <= hints@.len(),
                texts == hint_texts(hints@),
                self@ == before.insert(coin_id@, start.union(texts_in(texts.take(i as int)))),
            decreases hints@.len() - i,
        {
            self.link(&coin_id, &hints[i].0);
            proof {
                crate::textset::lemma_take(texts, i as int);
                assert(start.union(texts_in(texts.take(i as int))).insert(texts[i as int]@)
                    =~= start.union(texts_in(texts.take(i as int + 1))));
                assert(self@ =~= before.insert(
                    coin_id@,
                    start.union(texts_in(texts.take(i as int + 1))),
                ));
            }
            i = i + 1;
        }
        assert(texts.take(i as int) =~= texts);
    }

    /// Records one hint of a known coin, in both directions.
    fn link(&mut self, coin_id: &String, hint: &String)
        requires
            old(self).wf(),
            old(self)@.contains_key(coin_id@),
        ensures
            final(self).wf(),
            final(self)@ == old(self)@.insert(coin_id@, old(self)@[coin_id@].insert(hint@)),
    {
        let ghost before = *self;
        let mut hints = match self.by_coin.remove(coin_id) {
            Some(hints) => hints,
            None => TextSet::new(),
        };
        hints.insert(hint.clone());
        self.by_coin.insert(coin_id.clone(), hints);
        let mut coins = match self.by_hint.remove(hint) {
            Some(coins) => coins,
            None => TextSet::new(),
        };
        coins.insert(coin_id.clone());
        assert(coins@.contains(coin_id@));
        self.by_hint.insert(hint.clone(), coins);
        proof {
            assert forall|h: Seq<char>, c: Seq<char>| linked(self.by_hint@, h, c) == linked(
                self.by_coin@,
                c,
                h,
            ) by {
                assert(linked(before.by_hint@, h, c) == linked(before.by_coin@, c, h));
            }
            assert(self@ =~= before@.insert(coin_id@, before@[coin_id@].insert(hint@)));
        }
    }

    /// The coins that were announced under a hint, in ascending order.
    pub fn coins_by_hint(&self, hint: &Hint) -> (coins: Vec<String>)
        requires
            self.wf(),
        ensures
            lists_sorted(coins@, announced(self@, hint@)),
    {
        match self.by_hint.get(&hint.0) {
            Some(bucket) => {
                proof {
                    self.lemma_bucket(hint@);
                }
                bucket.list()
            },
            None => {
                proof {
                    self.lemma_bucket(hint@);
                }
                no_texts()
            },
        }
    }

    /// What the direction from hints says is what the index says.
    proof fn lemma_bucket(self, hint: Seq<char>)
        requires
            self.wf(),
        ensures
            self.by_hint@.contains_key(hint) ==> self.by_hint@[hint]@ == announced(self@, hint),
            !self.by_hint@.contains_key(hint) ==> announced(self@, hint)
                == Set::<Seq<char>>::empty(),
    {
        assert forall|coin: Seq<char>| announced(self@, hint).contains(coin) == linked(
            self.by_hint@,
            hint,
            coin,
        ) by {
            assert(linked(self.by_hint@, hint, coin) == linked(self.by_coin@, coin, hint));
        }
        if self.by_hint@.contains_key(hint) {
            assert(self.by_hint@[hint]@ =~= announced(self@, hint));
        } else {
            assert(announced(self@, hint) =~= Set::<Seq<char>>::empty());
        }
    }

    /// The coins that were announced under every hint, in ascending order. Without hints there is
    /// nothing to find.
    pub fn coins_by_all_hints(&self, hints: &[Hint]) -> (coins: Vec<String>)
        requires
            self.wf(),
        ensures
            lists_sorted(coins@, announced_under_all(self@, hints@)),
    {
        if hints.len() == 0 {
            assert(announced_under_all(self@, hints@) =~= Set::<Seq<char>>::empty());
            return no_texts();
        }
        let empty = TextSet::new();
        let mut matched = match self.by_hint.get(&hints[0].0) {
            Some(bucket) => bucket.common(bucket),
            None => TextSet::new(),
        };
        let ghost index = self@;
        proof {
            self.lemma_bucket(hints@[0]@);
            assert forall|coin: Seq<char>| announced_under_all(index, hints@.take(1)).contains(coin)
                == announced(index, hints@[0]@).contains(coin) by {
                let first = hints@.take(1);
                assert(first[0] == hints@[0]);
                if announced_under_all(index, first).contains(coin) {
                    assert(index[coin].contains(first[0]@));
                }
                if announced(index, hints@[0]@).contains(coin) {
                    assert forall|k: int| 0 <= k < first.len() implies index[coin].contains(
                        (#[trigger] first[k])@,
                    ) by {
                        assert(k == 0);
                    }
                }
            }
            assert(matched@ =~= announced_under_all(index, hints@.take(1)));
        }
        let mut i: usize = 1;
        while i < hints.len()
            invariant
                self.wf(),
                index == self@,
                1 <= i <= hints@.len(),
                matched.wf(),
                empty.wf(),
                empty@ == Set::<Seq<char>>::empty(),
                matched@ == announced_under_all(index, hints@.take(i as int)),
            decreases hints@.len() - i,
        {
            let ghost held = matched@;
            matched = match self.by_hint.get(&hints[i].0) {
                Some(bucket) => matched.common(bucket),
                None => matched.common(&empty),
            };
            proof {
                self.lemma_bucket(hints@[i as int]@);
                lemma_one_more_hint(index, hints@, i as int);
                assert(matched@ =~= held.intersect(announced(index, hints@[i as int]@)));
            }
            i = i + 1;
        }
        assert(hints@.take(i as int) =~= hints@);
        matched.list()
    }

    /// The coins that were announced under any hint, in ascending order.
    pub fn coins_by_any_hint(&self, hints: &[Hint]) -> (coins: Vec<String>)
        requires
            self.wf(),
        ensures
            lists_sorted(coins@, announced_under_any(self@, hints@)),
    {
        let mut matched = TextSet::new();
        let ghost index = self@;
        let mut i: usize = 0;
        assert(matched@ =~= announced_under_any(index, hints@.take(0)));
        while i < hints.len()
            invariant
                self.wf(),
                index == self@,
                i <= hints@.len(),
                matched.wf(),
                matched@ == announced_under_any(index, hints@.take(i as int)),
            decreases hints@.len() - i,
        {
            let ghost held = matched@;
            match self.by_hint.get(&hints[i].0) {
                Some(bucket) => matched.extend(bucket),
                None => {},
            }
            proof {
                self.lemma_bucket(hints@[i as int]@);
                lemma_one_more_hint(index, hints@, i as int);
                assert(matched@ =~= held.union(announced(index, hints@[i as int]@)));
            }
            i = i + 1;
        }
        assert(hints@.take(i as int) =~= hints@);
        matched.list()
    }

    /// The hints that a coin was announced under, in ascending order.
    pub fn hints_for(&self, coin_id: &str) -> (hints: Vec<Hint>)
        requires
            self.wf(),
        ensures
            lists_sorted(hint_texts(hints@), hints_of(self@, coin_id@)),
    {
        let texts = match self.by_coin.get(&coin_id.to_owned()) {
            Some(held) => held.list(),
            None => no_texts(),
        };
        let mut hints: Vec<Hint> = Vec::new();
        let mut i: usize = 0;
        while i < texts.len()
            invariant
                i <= texts@.len(),
                hints@.len() == i,
                forall|k: int| 0 <= k < i ==> (#[trigger] hints@[k]).0 == texts@[k],
            decreases texts@.len() - i,
        {
            hints.push(Hint(texts[i].clone()));
            i = i + 1;
        }
        assert(hint_texts(hints@) =~= texts@);
        hints
    }

    /// Withdraws a coin. A hint that was the coin's alone is dropped with it.
    pub fn forget(&mut self, coin_id: &str)
        requires
            old(self).wf(),
        ensures
            final(self).wf(),
            final(self)@ == old(self)@.remove(coin_id@),
    {
        let coin = coin_id.to_owned();
        let ghost before = *self;
        let hints = match self.by_coin.remove(&coin) {
            Some(hints) => hints,
            None => {
                assert(self@ =~= before@.remove(coin@));
                return;
            },
        };
        assert(self@ =~= before@.remove(coin@));
        let mut i: usize = 0;
        assert(texts_in(hints.items@.take(0)) =~= Set::<Seq<char>>::empty());
        proof {
            assert forall|h: Seq<char>, c: Seq<char>| linked(self.by_hint@, h, c) == (linked(
                before.by_coin@,
                c,
                h,
            ) && !(c == coin@ && texts_in(hints.items@.take(0)).contains(h))) by {
                assert(linked(before.by_hint@, h, c) == linked(before.by_coin@, c, h));
            }
        }
        while i < hints.items.len()
            invariant
                i <= hints.items@.len(),
                self.by_hint.wf(),
                sets_wf(self.by_hint@),
                no_empty_set(self.by_hint@),
                self.by_coin.wf(),
                sets_wf(self.by_coin@),
                self.by_coin@ == before.by_coin@.remove(coin@),
                forall|h: Seq<char>, c: Seq<char>| #[trigger]
                    linked(self.by_hint@, h, c) == (linked(before.by_coin@, c, h) && !(c == coin@
                        && texts_in(hints.items@.take(i as int)).contains(h))),
            decreases hints.items@.len() - i,
        {
            let ghost earlier = self.by_hint@;
            let hint = &hints.items[i];
            proof {
                crate::textset::lemma_take(hints.items@, i as int);
            }
            match self.by_hint.remove(hint) {
                Some(bucket) => {
                    let mut bucket = bucket;
                    bucket.remove(&coin);
                    assert forall|c: Seq<char>| c != coin@ && #[trigger] linked(
                        earlier,
                        hint@,
                        c,
                    ) implies bucket@.contains(c) by {}
                    if !bucket.is_empty() {
                        self.by_hint.insert(hint.clone(), bucket);
                    } else {
                        assert forall|c: Seq<char>| #[trigger] linked(
                            earlier,
                            hint@,
                            c,
                        ) implies c == coin@ by {
                            assert(!bucket@.contains(c));
                        }
                    }
                },
                None => {},
            }
            proof {
                assert forall|h: Seq<char>, c: Seq<char>| #[trigger]
                    linked(self.by_hint@, h, c) == (linked(before.by_coin@, c, h) && !(c == coin@
                        && texts_in(hints.items@.take(i as int + 1)).contains(h))) by {
                    assert(linked(earlier, h, c) == (linked(before.by_coin@, c, h) && !(c == coin@
                        && texts_in(hints.items@.take(i as int)).contains(h))));
                    if h == hint@ && linked(earlier, h, c) && c != coin@ {
                        assert(self.by_hint@.contains_key(h));
                    }
                }
            }
            i = i + 1;
        }
        proof {
            assert(hints.items@.take(i as int) =~= hints.items@);
            assert forall|h: Seq<char>, c: Seq<char>| linked(self.by_hint@, h, c) == linked(
                self.by_coin@,
                c,
                h,
            ) by {
                assert(linked(self.by_hint@, h, c) == (linked(before.by_coin@, c, h) && !(c
                    == coin@ && texts_in(hints.items@).contains(h))));
            }
            assert(self@ =~= before@.remove(coin@));
        }
    }

    /// The number of coins.
    pub fn len(&self) -> (n: usize)
        requires
            self.wf(),
        ensures
            n == self@.dom().len(),
    {
        assert(self@.dom() =~= self.by_coin@.dom());
        self.by_coin.len()
    }

    /// Whether the index has no coin.
    pub fn is_empty(&self) -> (empty: bool)
        requires
            self.wf(),
        ensures
            empty == (self@ == Map::<Seq<char>, Set<Seq<char>>>::empty()),
    {
        proof {
            self.by_coin.lemma_len();
            assert(self@.dom() =~= self.by_coin@.dom());
            if self.by_coin.entries@.len() == 0 {
                assert(self@ =~= Map::<Seq<char>, Set<Seq<char>>>::empty());
            }
        }
        self.by_coin.len() == 0
    }
}

/// Indexing a coin adds one to the number of coins unless the index knew it, and forgetting one
/// takes one away if the index knew it.
pub proof fn indexing_and_forgetting_count(
    index: Map<Seq<char>, Set<Seq<char>>>,
    coin: Seq<char>,
    hints: Set<Seq<char>>,
)
    requires
        index.dom().finite(),
    ensures
        index.insert(coin, hints).dom().len() == index.dom().len() + if index.contains_key(coin) {
            0int
        } else {
            1int
        },
        index.remove(coin).dom().len() == index.dom().len() - if index.contains_key(coin) {
            1int
        } else {
            0int
        },
{
    assert(index.insert(coin, hints).dom() =~= index.dom().insert(coin));
    assert(index.remove(coin).dom() =~= index.dom().remove(coin));
}

impl Default for HintIndex {
    /// An empty index.
    fn default() -> (index: Self)
        ensures
            index.wf(),
            index@ == Map::<Seq<char>, Set<Seq<char>>>::empty(),
    {
        HintIndex::new()
    }
}

impl Clone for HintIndex {
    /// A copy that says the same and that later changes do not touch.
    fn clone(&self) -> (copy: Self)
        ensures
            self.wf() ==> copy.wf() && copy@ == self@,
    {
        let copy = HintIndex {
            by_hint: copied(&self.by_hint),
            by_coin: copied(&self.by_coin),
        };
        proof {
            if self.wf() {
                lemma_copied(self.by_hint, copy.by_hint);
                lemma_copied(self.by_coin, copy.by_coin);
                assert forall|hint: Seq<char>, coin: Seq<char>|
                    #![trigger linked(copy.by_hint@, hint, coin)]
                    #![trigger linked(copy.by_coin@, coin, hint)]
                    linked(copy.by_hint@, hint, coin) == linked(copy.by_coin@, coin, hint) by {
                    assert(copy.by_hint@.contains_key(hint) == self.by_hint@.contains_key(hint));
                    assert(copy.by_coin@.contains_key(coin) == self.by_coin@.contains_key(coin));
                    assert(linked(copy.by_hint@, hint, coin) == linked(self.by_hint@, hint, coin));
                    assert(linked(copy.by_coin@, coin, hint) == linked(self.by_coin@, coin, hint));
                }
                assert(copy@ =~= self@);
            }
        }
        copy
    }
}

/// Whether two lists of entries have the same keys with the same texts, position by position.
pub open spec fn same_entries(a: Seq<(String, TextSet)>, b: Seq<(String, TextSet)>) -> bool {
    a.len() == b.len() && forall|i: int|
        0 <= i < a.len() ==> (#[trigger] a[i]).0@ == b[i].0@ && a[i].1.items@ == b[i].1.items@
}

/// Copies a map of sets, entry by entry.
fn copied(map: &TextMap<TextSet>) -> (copy: TextMap<TextSet>)
    ensures
        same_entries(copy.entries@, map.entries@),
{
    let mut entries: Vec<(String, TextSet)> = Vec::new();
    let mut i: usize = 0;
    while i < map.entries.len()
        invariant
            i <= map.entries@.len(),
            same_entries(entries@, map.entries@.take(i as int)),
        decreases map.entries@.len() - i,
    {
        let entry = &map.entries[i];
        entries.push((entry.0.clone(), entry.1.clone()));
        i = i + 1;
        assert(map.entries@.take(i as int).drop_last() =~= map.entries@.take(i - 1));
    }
    assert(map.entries@.take(i as int) =~= map.entries@);
    TextMap { entries }
}

/// A map with the same entries is in order and says the same.
proof fn lemma_copied(map: TextMap<TextSet>, copy: TextMap<TextSet>)
    requires
        map.wf(),
        sets_wf(map@),
        same_entries(copy.entries@, map.entries@),
    ensures
        copy.wf(),
        sets_wf(copy@),
        forall|key: Seq<char>| #[trigger] copy@.contains_key(key) == map@.contains_key(key),
        forall|key: Seq<char>| #[trigger]
            copy@.contains_key(key) ==> copy@[key].items@ == map@[key].items@,
{
    assert forall|i: int, j: int| 0 <= i < j < copy.entries@.len() implies (
    #[trigger] copy.entries@[i]).0@ != (#[trigger] copy.entries@[j]).0@ by {
        assert(map.entries@[i].0@ != map.entries@[j].0@);
    }
    assert forall|key: Seq<char>| #[trigger] copy@.contains_key(key) == map@.contains_key(key) by {
        if copy@.contains_key(key) {
            let i = choose|i: int| 0 <= i < copy.entries@.len() && (#[trigger] copy.entries@[i]).0@ == key;
            assert(map.entries@[i].0@ == key);
        }
        if map@.contains_key(key) {
            let i = choose|i: int| 0 <= i < map.entries@.len() && (#[trigger] map.entries@[i]).0@ == key;
            assert(copy.entries@[i].0@ == key);
        }
    }
    assert forall|key: Seq<char>| #[trigger] copy@.contains_key(key) implies copy@[key].items@
        == map@[key].items@ && copy@[key].wf() by {
        let i = choose|i: int| 0 <= i < copy.entries@.len() && (#[trigger] copy.entries@[i]).0@ == key;
        copy.lemma_entry(i);
        map.lemma_entry(i);
        assert(map@[key].wf());
    }
}

impl PartialEq for HintIndex {
    fn eq(&self, other: &Self) -> (same: bool) {
        is_covered(&self.by_coin.entries, &other.by_coin.entries) && is_covered(
            &other.by_coin.entries,
            &self.by_coin.entries,
        )
    }
}

impl vstd::std_specs::cmp::PartialEqSpecImpl for HintIndex {
    open spec fn obeys_eq_spec() -> bool {
        true
    }

    open spec fn eq_spec(&self, other: &Self) -> bool {
        self.same_as(*other)
    }
}

impl Eq for HintIndex {

}

/// Whether an entry stands in a list: the same key with the same texts.
pub open spec fn has_entry(entries: Seq<(String, TextSet)>, entry: (String, TextSet)) -> bool {
    exists|j: int|
        0 <= j < entries.len() && (#[trigger] entries[j]).0@ == entry.0@ && texts_view(
            entries[j].1.items@,
        ) == texts_view(entry.1.items@)
}

/// Whether every entry of one list stands in another.
pub open spec fn covered(some: Seq<(String, TextSet)>, all: Seq<(String, TextSet)>) -> bool {
    forall|i: int| 0 <= i < some.len() ==> has_entry(all, #[trigger] some[i])
}

/// Whether every entry of one list stands in another.
fn is_covered(some: &Vec<(String, TextSet)>, all: &Vec<(String, TextSet)>) -> (yes: bool)
    ensures
        yes == covered(some@, all@),
{
    let mut i: usize = 0;
    while i < some.len()
        invariant
            i <= some@.len(),
            forall|k: int| 0 <= k < i ==> has_entry(all@, #[trigger] some@[k]),
        decreases some@.len() - i,
    {
        if !stands_in(all, &some[i]) {
            assert(!has_entry(all@, some@[i as int]));
            return false;
        }
        i = i + 1;
    }
    true
}

/// Whether an entry stands in a list.
fn stands_in(entries: &Vec<(String, TextSet)>, entry: &(String, TextSet)) -> (yes: bool)
    ensures
        yes == has_entry(entries@, *entry),
{
    let mut j: usize = 0;
    while j < entries.len()
        invariant
            j <= entries@.len(),
            forall|k: int|
                0 <= k < j ==> !((#[trigger] entries@[k]).0@ == entry.0@ && texts_view(
                    entries@[k].1.items@,
                ) == texts_view(entry.1.items@)),
        decreases entries@.len() - j,
    {
        if same_text(&entries[j].0, &entry.0) && same_texts(&entries[j].1.items, &entry.1.items) {
            assert(entries@[j as int].0@ == entry.0@);
            return true;
        }
        j = j + 1;
    }
    false
}

/// Whether two lists hold the same texts in the same order.
fn same_texts(a: &Vec<String>, b: &Vec<String>) -> (same: bool)
    ensures
        same == (texts_view(a@) == texts_view(b@)),
{
    if a.len() != b.len() {
        assert(texts_view(a@).len() != texts_view(b@).len());
        return false;
    }
    let mut i: usize = 0;
    while i < a.len()
        invariant
            i <= a@.len(),
            a@.len() == b@.len(),
            forall|k: int| 0 <= k < i ==> (#[trigger] a@[k])@ == b@[k]@,
        decreases a@.len() - i,
    {
        if !same_text(&a[i], &b[i]) {
            assert(texts_view(a@)[i as int] != texts_view(b@)[i as int]);
            return false;
        }
        i = i + 1;
    }
    assert(texts_view(a@) =~= texts_view(b@));
    true
}

/// A map whose entries stand in another one says nothing that the other does not.
proof fn lemma_covered(some: TextMap<TextSet>, all: TextMap<TextSet>)
    requires
        some.wf(),
        all.wf(),
        covered(some.entries@, all.entries@),
    ensures
        forall|key: Seq<char>| #[trigger]
            some@.contains_key(key) ==> all@.contains_key(key) && some@[key]@ == all@[key]@,
{
    assert forall|key: Seq<char>| #[trigger] some@.contains_key(key) implies all@.contains_key(key)
        && some@[key]@ == all@[key]@ by {
        let i = choose|i: int| 0 <= i < some.entries@.len() && (#[trigger] some.entries@[i]).0@ == key;
        assert(has_entry(all.entries@, some.entries@[i]));
        let j = choose|j: int|
            0 <= j < all.entries@.len() && (#[trigger] all.entries@[j]).0@ == key && texts_view(
                all.entries@[j].1.items@,
            ) == texts_view(some.entries@[i].1.items@);
        some.lemma_entry(i);
        all.lemma_entry(j);
        lemma_same_texts(some.entries@[i].1.items@, all.entries@[j].1.items@);
    }
}

/// A map that says nothing that another does not has its entries in the other one.
proof fn lemma_covers(some: TextMap<TextSet>, all: TextMap<TextSet>)
    requires
        some.wf(),
        all.wf(),
        sets_wf(some@),
        sets_wf(all@),
        some@.map_values(|s: TextSet| s@) == all@.map_values(|s: TextSet| s@),
    ensures
        covered(some.entries@, all.entries@),
{
    let one = some@.map_values(|s: TextSet| s@);
    let two = all@.map_values(|s: TextSet| s@);
    assert forall|i: int| 0 <= i < some.entries@.len() implies has_entry(
        all.entries@,
        #[trigger] some.entries@[i],
    ) by {
        let entry = some.entries@[i];
        let key = entry.0@;
        some.lemma_entry(i);
        assert(one.contains_key(key) && two.contains_key(key));
        assert(all@.contains_key(key));
        let j = choose|j: int| 0 <= j < all.entries@.len() && (#[trigger] all.entries@[j]).0@ == key;
        all.lemma_entry(j);
        assert(one[key] == some@[key]@ && two[key] == all@[key]@);
        a_sorted_list_is_unique(entry.1.items@, all.entries@[j].1.items@, one[key]);
        assert(texts_view(entry.1.items@) =~= texts_view(all.entries@[j].1.items@));
    }
}

proof fn lemma_same_texts(a: Seq<String>, b: Seq<String>)
    requires
        texts_view(a) == texts_view(b),
    ensures
        texts_in(a) == texts_in(b),
{
    assert(a.len() == texts_view(a).len() && b.len() == texts_view(b).len());
    assert forall|t: Seq<char>| texts_in(a).contains(t) == texts_in(b).contains(t) by {
        if texts_in(a).contains(t) {
            let i = choose|i: int| 0 <= i < a.len() && (#[trigger] a[i])@ == t;
            assert(texts_view(a)[i] == texts_view(b)[i]);
            assert(b[i]@ == t);
        }
        if texts_in(b).contains(t) {
            let i = choose|i: int| 0 <= i < b.len() && (#[trigger] b[i])@ == t;
            assert(texts_view(a)[i] == texts_view(b)[i]);
            assert(a[i]@ == t);
        }
    }
    assert(texts_in(a) =~= texts_in(b));
}

/// An empty list.
fn no_texts() -> (texts: Vec<String>)
    ensures
        lists_sorted(texts@, Set::<Seq<char>>::empty()),
{
    let texts: Vec<String> = Vec::new();
    assert(texts_in(texts@) =~= Set::<Seq<char>>::empty());
    texts
}

proof fn lemma_one_more_hint(index: Map<Seq<char>, Set<Seq<char>>>, hints: Seq<Hint>, i: int)
    requires
        0 <= i < hints.len(),
    ensures
        i > 0 ==> announced_under_all(index, hints.take(i + 1)) == announced_under_all(
            index,
            hints.take(i),
        ).intersect(announced(index, hints[i]@)),
        announced_under_any(index, hints.take(i + 1)) == announced_under_any(
            index,
            hints.take(i),
        ).union(announced(index, hints[i]@)),
{
    let shorter = hints.take(i);
    let longer = hints.take(i + 1);
    assert forall|k: int| 0 <= k < i implies #[trigger] shorter[k] == longer[k] by {}
    assert(longer[i] == hints[i]);
    if i > 0 {
        assert forall|coin: Seq<char>| announced_under_all(index, longer).contains(coin)
            == announced_under_all(index, shorter).intersect(
            announced(index, hints[i]@),
        ).contains(coin) by {
            if announced_under_all(index, longer).contains(coin) {
                assert(index[coin].contains(longer[i]@));
                assert forall|k: int| 0 <= k < shorter.len() implies index[coin].contains(
                    (#[trigger] shorter[k])@,
                ) by {
                    assert(index[coin].contains(longer[k]@));
                }
            }
            if announced_under_all(index, shorter).contains(coin) && announced(
                index,
                hints[i]@,
            ).contains(coin) {
                assert forall|k: int| 0 <= k < longer.len() implies index[coin].contains(
                    (#[trigger] longer[k])@,
                ) by {
                    if k < i {
                        assert(index[coin].contains(shorter[k]@));
                    }
                }
            }
        }
        assert(announced_under_all(index, longer) =~= announced_under_all(
            index,
            shorter,
        ).intersect(announced(index, hints[i]@)));
    }
    assert forall|coin: Seq<char>| announced_under_any(index, longer).contains(coin)
        == announced_under_any(index, shorter).union(announced(index, hints[i]@)).contains(
        coin,
    ) by {
        if announced_under_any(index, longer).contains(coin) {
            let k = choose|k: int|
                0 <= k < longer.len() && index[coin].contains((#[trigger] longer[k])@);
            if k < i {
                assert(index[coin].contains(shorter[k]@));
            }
        }
        if announced_under_any(index, shorter).contains(coin) {
            let k = choose|k: int|
                0 <= k < shorter.len() && index[coin].contains((#[trigger] shorter[k])@);
            assert(index[coin].contains(longer[k]@));
        }
        if announced(index, hints[i]@).contains(coin) {
            assert(index[coin].contains(longer[i]@));
        }
    }
    assert(announced_under_any(index, longer) =~= announced_under_any(index, shorter).union(
        announced(index, hints[i]@),
    ));
}

/// The combined question is the intersection of the single ones, never their union: a coin
/// matches all of some hints exactly when there are hints and it matches each of them.
pub proof fn all_hints_is_the_intersection(
    index: Map<Seq<char>, Set<Seq<char>>>,
    hints: Seq<Hint>,
    coin: Seq<char>,
)
    ensures
        announced_under_all(index, hints).contains(coin) == (hints.len() > 0 && forall|i: int|
            0 <= i < hints.len() ==> announced(index, (#[trigger] hints[i])@).contains(coin)),
        announced_under_all(index, hints).contains(coin) ==> announced_under_any(
            index,
            hints,
        ).contains(coin),
{
    if hints.len() > 0 && forall|i: int|
        0 <= i < hints.len() ==> announced(index, (#[trigger] hints[i])@).contains(coin) {
        assert(announced(index, hints[0]@).contains(coin));
        assert forall|i: int| 0 <= i < hints.len() implies index[coin].contains(
            (#[trigger] hints[i])@,
        ) by {
            assert(announced(index, hints[i]@).contains(coin));
        }
    }
    if announced_under_all(index, hints).contains(coin) {
        assert(index[coin].contains(hints[0]@));
    }
}

/// The position of a hint among a coin's memos makes no difference to any question.
pub proof fn hint_positions_do_not_matter(hints: Seq<Hint>, other: Seq<Hint>)
    requires
        hints.to_multiset() == other.to_multiset(),
    ensures
        texts_in(hint_texts(hints)) == texts_in(hint_texts(other)),
{
    lemma_texts_within(hints, other);
    lemma_texts_within(other, hints);
    assert(texts_in(hint_texts(hints)) =~= texts_in(hint_texts(other)));
}

proof fn lemma_texts_within(hints: Seq<Hint>, other: Seq<Hint>)
    requires
        hints.to_multiset() == other.to_multiset(),
    ensures
        forall|t: Seq<char>| #[trigger]
            texts_in(hint_texts(hints)).contains(t) ==> texts_in(hint_texts(other)).contains(t),
{
    assert forall|t: Seq<char>| #[trigger] texts_in(hint_texts(hints)).contains(t) implies texts_in(
        hint_texts(other),
    ).contains(t) by {
        let texts = hint_texts(hints);
        let i = choose|i: int| 0 <= i < texts.len() && (#[trigger] texts[i])@ == t;
        hints.to_multiset_ensures();
        other.to_multiset_ensures();
        assert(hints.to_multiset().count(hints[i]) > 0);
        assert(other.to_multiset().count(hints[i]) > 0);
        assert(other.contains(hints[i]));
        let k = choose|k: int| 0 <= k < other.len() && other[k] == hints[i];
        assert(hint_texts(other)[k]@ == t);
    }
}

/// A withdrawn coin matches no question, and every other coin matches what it matched before.
pub proof fn a_forgotten_coin_matches_nothing(
    index: Map<Seq<char>, Set<Seq<char>>>,
    coin: Seq<char>,
    hint: Seq<char>,
)
    ensures
        announced(index.remove(coin), hint) == announced(index, hint).remove(coin),
        hints_of(index.remove(coin), coin) == Set::<Seq<char>>::empty(),
{
    assert(announced(index.remove(coin), hint) =~= announced(index, hint).remove(coin));
}

/// Indexing only widens: what a coin was announced under before, it still is, and so is every
/// other coin.
pub proof fn indexing_only_widens(
    index: Map<Seq<char>, Set<Seq<char>>>,
    coin: Seq<char>,
    more: Set<Seq<char>>,
    hint: Seq<char>,
)
    ensures
        announced(index, hint).subset_of(
            announced(index.insert(coin, hints_of(index, coin).union(more)), hint),
        ),
        more.contains(hint) ==> announced(
            index.insert(coin, hints_of(index, coin).union(more)),
            hint,
        ).contains(coin),
{
}

} // verus!
