//! Capped, high-value-first coin selection.
//!
//! Selection picks the input coins of a spend from the coins that a wallet holds. It ends in
//! exactly one of three ways: coins that reach the target within the cap, enough value spread
//! over too many coins, or too little value. Merging coins helps in the second case and never
//! in the third, so the two are kept apart.

use vstd::prelude::*;
use vstd::relations::{sorted_by, total_ordering};
use vstd::seq_lib::{
    group_to_multiset_ensures, lemma_sorted_unique, to_multiset_insert,
};

use crate::text::{bytes_before, lemma_bytes_before_total, lemma_bytes_before_transitive};
use crate::types::chain::{id_of, total_of_coins, WalletCoin};
use crate::types::error::{invalid, WalletError, WalletErrorCode, WalletResult};

verus! {

/// The most input coins that a single spend draws by default: a larger bundle would exceed the
/// cost ceiling of a block.
pub const DEFAULT_COIN_CAP: usize = 500;

/// The result of a selection.
#[derive(Debug, Clone, PartialEq, Eq)]
pub enum SelectionOutcome {
    /// Coins that reach the target within the cap; spend exactly these.
    Selected {
        /// The selected coins, highest value first.
        coins: Vec<WalletCoin>,
        /// Their total.
        total: u64,
        /// The excess over the target.
        change: u64,
    },
    /// The value is there, but in more coins than one spend may draw: merge and retry.
    NeedsConsolidation {
        /// The number of coins.
        available_coin_count: u32,
        /// Their total.
        available_total: u64,
        /// The target.
        required: u64,
        /// The cap in force.
        cap: usize,
    },
    /// The coins do not hold the target in total.
    InsufficientFunds {
        /// Their total.
        available_total: u64,
        /// The target.
        required: u64,
    },
}

/// What a [`SelectionOutcome`] says.
pub enum SelectionView {
    /// Coins that reach the target within the cap.
    Selected {
        /// The selected coins.
        coins: Seq<WalletCoin>,
        /// Their total.
        total: nat,
        /// The excess over the target.
        change: int,
    },
    /// Enough value in too many coins.
    NeedsConsolidation {
        /// The number of coins.
        available_coin_count: u32,
        /// Their total.
        available_total: nat,
        /// The target.
        required: nat,
        /// The cap in force.
        cap: nat,
    },
    /// Too little value.
    InsufficientFunds {
        /// The total of the coins.
        available_total: nat,
        /// The target.
        required: nat,
    },
}

impl View for SelectionOutcome {
    type V = SelectionView;

    open spec fn view(&self) -> SelectionView {
        match self {
            SelectionOutcome::Selected { coins, total, change } => SelectionView::Selected {
                coins: coins@,
                total: *total as nat,
                change: *change as int,
            },
            SelectionOutcome::NeedsConsolidation {
                available_coin_count,
                available_total,
                required,
                cap,
            } => SelectionView::NeedsConsolidation {
                available_coin_count: *available_coin_count,
                available_total: *available_total as nat,
                required: *required as nat,
                cap: *cap as nat,
            },
            SelectionOutcome::InsufficientFunds { available_total, required } =>
                SelectionView::InsufficientFunds {
                    available_total: *available_total as nat,
                    required: *required as nat,
                },
        }
    }
}

/// Whether `a` is drawn before `b`: it holds more, or as much with the smaller coin id.
pub open spec fn ranks_before(a: WalletCoin, b: WalletCoin) -> bool {
    ||| a.amount > b.amount
    ||| a.amount == b.amount && bytes_before(id_of(a)@, id_of(b)@)
}

/// `ordered` with `coin` put behind every coin that it does not rank before.
pub open spec fn ranked_insert(ordered: Seq<WalletCoin>, coin: WalletCoin) -> Seq<WalletCoin>
    decreases ordered.len(),
{
    if ordered.len() == 0 || !ranks_before(coin, ordered.last()) {
        ordered.push(coin)
    } else {
        ranked_insert(ordered.drop_last(), coin).push(ordered.last())
    }
}

/// The coins, highest value first; equal values by ascending coin id; what still ties keeps its
/// place.
pub open spec fn high_value_first(coins: Seq<WalletCoin>) -> Seq<WalletCoin>
    decreases coins.len(),
{
    if coins.len() == 0 {
        coins
    } else {
        ranked_insert(high_value_first(coins.drop_last()), coins.last())
    }
}

/// How many coins from the front it takes to reach `target`.
pub open spec fn needed_count(ordered: Seq<WalletCoin>, target: nat) -> nat
    decreases ordered.len(),
{
    if ordered.len() == 0 || total_of_coins(ordered.drop_last()) < target {
        ordered.len()
    } else {
        needed_count(ordered.drop_last(), target)
    }
}

/// The first `n` coins, or all of them when there are fewer.
pub open spec fn at_most(coins: Seq<WalletCoin>, n: nat) -> Seq<WalletCoin> {
    if n < coins.len() {
        coins.take(n as int)
    } else {
        coins
    }
}

/// The outcome of selecting `target` from `coins` under a cap.
pub open spec fn selection_of(coins: Seq<WalletCoin>, target: nat, cap: nat) -> SelectionView {
    let ordered = high_value_first(coins);
    if total_of_coins(coins) < target {
        SelectionView::InsufficientFunds {
            available_total: total_of_coins(coins),
            required: target,
        }
    } else if total_of_coins(at_most(ordered, cap)) < target {
        SelectionView::NeedsConsolidation {
            available_coin_count: coins.len() as u32,
            available_total: total_of_coins(coins),
            required: target,
            cap,
        }
    } else {
        let chosen = ordered.take(needed_count(ordered, target) as int);
        SelectionView::Selected {
            coins: chosen,
            total: total_of_coins(chosen),
            change: total_of_coins(chosen) - target,
        }
    }
}

/// No coin ranks before one that stands in front of it.
pub open spec fn is_ranked(ordered: Seq<WalletCoin>) -> bool {
    forall|i: int, j: int|
        0 <= i < j < ordered.len() ==> !ranks_before(#[trigger] ordered[j], #[trigger] ordered[i])
}

pub proof fn lemma_not_before_transitive(a: WalletCoin, b: WalletCoin, c: WalletCoin)
    requires
        !ranks_before(b, a),
        !ranks_before(c, b),
    ensures
        !ranks_before(c, a),
{
    if a.amount == c.amount && bytes_before(id_of(c)@, id_of(a)@) {
        lemma_bytes_before_total(id_of(b)@, id_of(a)@);
        lemma_bytes_before_total(id_of(c)@, id_of(b)@);
        lemma_bytes_before_total(id_of(c)@, id_of(a)@);
        if id_of(a)@ != id_of(b)@ && id_of(b)@ != id_of(c)@ {
            lemma_bytes_before_transitive(id_of(a)@, id_of(b)@, id_of(c)@);
        }
    }
}

pub proof fn lemma_before_asymmetric(a: WalletCoin, b: WalletCoin)
    requires
        ranks_before(a, b),
    ensures
        !ranks_before(b, a),
{
    lemma_bytes_before_total(id_of(a)@, id_of(b)@);
}

proof fn lemma_ranked_insert(ordered: Seq<WalletCoin>, coin: WalletCoin)
    requires
        is_ranked(ordered),
    ensures
        is_ranked(ranked_insert(ordered, coin)),
        ranked_insert(ordered, coin).len() == ordered.len() + 1,
        ranked_insert(ordered, coin).to_multiset() == ordered.to_multiset().insert(coin),
        forall|x: WalletCoin|
            #![trigger ranked_insert(ordered, coin).contains(x)]
            ranked_insert(ordered, coin).contains(x) ==> x == coin || ordered.contains(x),
    decreases ordered.len(),
{
    broadcast use group_to_multiset_ensures;

    let result = ranked_insert(ordered, coin);
    if ordered.len() == 0 {
    } else if !ranks_before(coin, ordered.last()) {
        assert forall|i: int, j: int| 0 <= i < j < result.len() implies !ranks_before(
            #[trigger] result[j],
            #[trigger] result[i],
        ) by {
            if j == ordered.len() && i < ordered.len() - 1 {
                lemma_not_before_transitive(ordered[i], ordered.last(), coin);
            }
        }
        assert forall|x: WalletCoin| result.contains(x) implies x == coin || ordered.contains(x) by {
            let k = choose|k: int| 0 <= k < result.len() && result[k] == x;
            if k < ordered.len() {
                assert(ordered[k] == x);
            }
        }
    } else {
        let front = ordered.drop_last();
        let last = ordered.last();
        lemma_ranked_insert(front, coin);
        let head = ranked_insert(front, coin);
        assert(ordered =~= front.push(last));
        assert forall|i: int, j: int| 0 <= i < j < result.len() implies !ranks_before(
            #[trigger] result[j],
            #[trigger] result[i],
        ) by {
            if j == head.len() {
                assert(head.contains(head[i]));
                if head[i] == coin {
                    lemma_before_asymmetric(coin, last);
                } else {
                    let k = choose|k: int| 0 <= k < front.len() && front[k] == head[i];
                    assert(ordered[k] == head[i]);
                }
            }
        }
        assert(result.to_multiset() =~= ordered.to_multiset().insert(coin));
        assert forall|x: WalletCoin| result.contains(x) implies x == coin || ordered.contains(x) by {
            let k = choose|k: int| 0 <= k < result.len() && result[k] == x;
            if k < head.len() {
                assert(head.contains(x));
                if x != coin {
                    let m = choose|m: int| 0 <= m < front.len() && front[m] == x;
                    assert(ordered[m] == x);
                }
            } else {
                assert(ordered[ordered.len() - 1] == x);
            }
        }
    }
}

/// The ordered coins are the given coins, each as often, and no coin ranks before one that
/// stands in front of it.
pub proof fn high_value_first_is_ranked(coins: Seq<WalletCoin>)
    ensures
        is_ranked(high_value_first(coins)),
        high_value_first(coins).len() == coins.len(),
        high_value_first(coins).to_multiset() == coins.to_multiset(),
    decreases coins.len(),
{
    broadcast use group_to_multiset_ensures;

    if coins.len() > 0 {
        high_value_first_is_ranked(coins.drop_last());
        lemma_ranked_insert(high_value_first(coins.drop_last()), coins.last());
        assert(coins =~= coins.drop_last().push(coins.last()));
    }
}

/// The total of coins does not depend on their order.
pub proof fn lemma_total_of_permutation(a: Seq<WalletCoin>, b: Seq<WalletCoin>)
    requires
        a.to_multiset() == b.to_multiset(),
    ensures
        total_of_coins(a) == total_of_coins(b),
    decreases a.len(),
{
    broadcast use group_to_multiset_ensures;

    assert(a.len() == a.to_multiset().len());
    assert(b.len() == b.to_multiset().len());
    if a.len() > 0 {
        let x = a.last();
        assert(a.contains(x));
        assert(b.to_multiset().contains(x));
        assert(b.contains(x));
        let i = choose|i: int| 0 <= i < b.len() && b[i] == x;
        assert(a.drop_last().to_multiset() =~= a.to_multiset().remove(x)) by {
            assert(a.drop_last() =~= a.remove(a.len() - 1));
        }
        assert(b.remove(i).to_multiset() =~= b.to_multiset().remove(x));
        lemma_total_of_permutation(a.drop_last(), b.remove(i));
        lemma_total_without(b, i);
    }
}

/// Leaving out one coin lowers the total by its amount.
pub proof fn lemma_total_without(coins: Seq<WalletCoin>, i: int)
    requires
        0 <= i < coins.len(),
    ensures
        total_of_coins(coins) == total_of_coins(coins.remove(i)) + coins[i].amount,
    decreases coins.len(),
{
    if i == coins.len() - 1 {
        assert(coins.remove(i) =~= coins.drop_last());
    } else {
        lemma_total_without(coins.drop_last(), i);
        assert(coins.remove(i).drop_last() =~= coins.drop_last().remove(i));
        assert(coins.remove(i).last() == coins.last());
    }
}

/// A longer prefix holds at least as much.
pub proof fn lemma_total_of_prefix(coins: Seq<WalletCoin>, i: int, j: int)
    requires
        0 <= i <= j <= coins.len(),
    ensures
        total_of_coins(coins.take(i)) <= total_of_coins(coins.take(j)),
    decreases j - i,
{
    if i < j {
        lemma_total_of_prefix(coins, i, j - 1);
        assert(coins.take(j).drop_last() =~= coins.take(j - 1));
    }
}

/// The needed coins reach the target, and one coin fewer does not.
pub proof fn lemma_needed_count(ordered: Seq<WalletCoin>, target: nat)
    requires
        total_of_coins(ordered) >= target,
    ensures
        ({
            let k = needed_count(ordered, target) as int;
            &&& 0 <= k <= ordered.len()
            &&& total_of_coins(ordered.take(k)) >= target
            &&& forall|i: int|
                0 <= i < k ==> total_of_coins(#[trigger] ordered.take(i)) < target
        }),
    decreases ordered.len(),
{
    let k = needed_count(ordered, target) as int;
    if ordered.len() == 0 {
        assert(ordered.take(0) =~= ordered);
    } else if total_of_coins(ordered.drop_last()) < target {
        assert(ordered.take(k) =~= ordered);
        assert forall|i: int| 0 <= i < k implies total_of_coins(#[trigger] ordered.take(i))
            < target by {
            lemma_total_of_prefix(ordered, i, k - 1);
            assert(ordered.take(k - 1) =~= ordered.drop_last());
        }
    } else {
        let front = ordered.drop_last();
        lemma_needed_count(front, target);
        assert(front.take(k) =~= ordered.take(k));
        assert forall|i: int| 0 <= i < k implies total_of_coins(#[trigger] ordered.take(i))
            < target by {
            assert(front.take(i) =~= ordered.take(i));
        }
    }
}

/// The least number of coins from the front that reaches the target is the needed count.
proof fn lemma_needed_count_unique(ordered: Seq<WalletCoin>, target: nat, k: int)
    requires
        0 <= k <= ordered.len(),
        total_of_coins(ordered.take(k)) >= target,
        k > 0 ==> total_of_coins(ordered.take(k - 1)) < target,
    ensures
        needed_count(ordered, target) == k,
{
    lemma_total_of_prefix(ordered, k, ordered.len() as int);
    assert(ordered.take(ordered.len() as int) =~= ordered);
    lemma_needed_count(ordered, target);
    let n = needed_count(ordered, target) as int;
    if n < k {
        lemma_total_of_prefix(ordered, n, k - 1);
    }
    if k < n {
        assert(total_of_coins(ordered.take(k)) < target);
    }
}

/// A selection reaches the target, its change is what it holds beyond the target, it draws no
/// more coins than the cap, and without its last coin it would fall short.
pub proof fn a_selection_is_minimal(coins: Seq<WalletCoin>, target: nat, cap: nat)
    ensures
        selection_of(coins, target, cap) matches SelectionView::Selected {
            coins: chosen,
            total,
            change,
        } ==> {
            &&& total == total_of_coins(chosen)
            &&& total >= target
            &&& change == total - target
            &&& chosen.len() <= cap
            &&& chosen.len() > 0 ==> total_of_coins(chosen.drop_last()) < target
            &&& chosen.to_multiset().subset_of(coins.to_multiset())
        },
{
    let ordered = high_value_first(coins);
    high_value_first_is_ranked(coins);
    lemma_total_of_permutation(ordered, coins);
    if total_of_coins(coins) >= target && total_of_coins(at_most(ordered, cap)) >= target {
        lemma_needed_count(ordered, target);
        let k = needed_count(ordered, target) as int;
        let chosen = ordered.take(k);
        if k > 0 {
            assert(chosen.drop_last() =~= ordered.take(k - 1));
        }
        if cap < k {
            assert(total_of_coins(ordered.take(cap as int)) < target);
        }
        lemma_prefix_is_subset(ordered, k);
    }
}

proof fn lemma_prefix_is_subset(s: Seq<WalletCoin>, k: int)
    requires
        0 <= k <= s.len(),
    ensures
        s.take(k).to_multiset().subset_of(s.to_multiset()),
    decreases s.len() - k,
{
    broadcast use group_to_multiset_ensures;

    if k == s.len() {
        assert(s.take(k) =~= s);
    } else {
        lemma_prefix_is_subset(s, k + 1);
        assert(s.take(k + 1) =~= s.take(k).push(s[k]));
    }
}

/// Too little value and too many coins are never confused: the outcome is a shortfall exactly
/// when the coins do not hold the target, and asks for consolidation exactly when they do but
/// the largest `cap` of them do not.
pub proof fn outcomes_are_told_apart(coins: Seq<WalletCoin>, target: nat, cap: nat)
    ensures
        (selection_of(coins, target, cap) is InsufficientFunds) == (total_of_coins(coins) < target),
        (selection_of(coins, target, cap) is NeedsConsolidation) == (total_of_coins(coins)
            >= target && total_of_coins(at_most(high_value_first(coins), cap)) < target),
{
}

/// What a coin is ranked by.
pub open spec fn rank_key(coin: WalletCoin) -> (u64, Seq<u8>) {
    (coin.amount, id_of(coin)@)
}

spec fn key_leq(a: (u64, Seq<u8>), b: (u64, Seq<u8>)) -> bool {
    a.0 > b.0 || (a.0 == b.0 && !bytes_before(b.1, a.1))
}

proof fn lemma_key_order()
    ensures
        total_ordering(|a: (u64, Seq<u8>), b: (u64, Seq<u8>)| key_leq(a, b)),
{
    let leq = |a: (u64, Seq<u8>), b: (u64, Seq<u8>)| key_leq(a, b);
    assert forall|a: (u64, Seq<u8>)| #[trigger] leq(a, a) by {
        lemma_bytes_before_total(a.1, a.1);
    }
    assert forall|a: (u64, Seq<u8>), b: (u64, Seq<u8>)| #[trigger] leq(a, b) && #[trigger] leq(
        b,
        a,
    ) implies a == b by {
        lemma_bytes_before_total(a.1, b.1);
    }
    assert forall|a: (u64, Seq<u8>), b: (u64, Seq<u8>), c: (u64, Seq<u8>)|
        #[trigger] leq(a, b) && #[trigger] leq(b, c) implies leq(a, c) by {
        lemma_bytes_before_total(b.1, a.1);
        lemma_bytes_before_total(c.1, b.1);
        lemma_bytes_before_total(c.1, a.1);
        if a.1 != b.1 && b.1 != c.1 && bytes_before(a.1, b.1) && bytes_before(b.1, c.1) {
            lemma_bytes_before_transitive(a.1, b.1, c.1);
        }
    }
    assert forall|a: (u64, Seq<u8>), b: (u64, Seq<u8>)| #[trigger] leq(a, b) || #[trigger] leq(
        b,
        a,
    ) by {
        lemma_bytes_before_total(a.1, b.1);
    }
}

spec fn keys_of(coins: Seq<WalletCoin>) -> Seq<(u64, Seq<u8>)> {
    coins.map_values(|c: WalletCoin| rank_key(c))
}

proof fn lemma_keys_of_permutation(a: Seq<WalletCoin>, b: Seq<WalletCoin>)
    requires
        a.to_multiset() == b.to_multiset(),
    ensures
        keys_of(a).to_multiset() == keys_of(b).to_multiset(),
    decreases a.len(),
{
    broadcast use group_to_multiset_ensures;

    assert(a.len() == a.to_multiset().len());
    assert(b.len() == b.to_multiset().len());
    if a.len() == 0 {
        assert(keys_of(a) =~= keys_of(b));
    } else {
        let x = a.last();
        assert(a.contains(x));
        assert(b.to_multiset().contains(x));
        assert(b.contains(x));
        let i = choose|i: int| 0 <= i < b.len() && b[i] == x;
        assert(a.drop_last() =~= a.remove(a.len() - 1));
        assert(a.drop_last().to_multiset() =~= a.to_multiset().remove(x));
        assert(b.remove(i).to_multiset() =~= b.to_multiset().remove(x));
        lemma_keys_of_permutation(a.drop_last(), b.remove(i));
        assert(keys_of(a) =~= keys_of(a.drop_last()).push(rank_key(x)));
        assert(keys_of(b.remove(i)) =~= keys_of(b).remove(i));
        assert(keys_of(b)[i] == rank_key(x));
        assert(keys_of(b) =~= keys_of(b).remove(i).insert(i, rank_key(x)));
        to_multiset_insert(keys_of(b).remove(i), i, rank_key(x));
        assert(keys_of(a).to_multiset() =~= keys_of(b).to_multiset());
    }
}

proof fn lemma_keys_are_sorted(ordered: Seq<WalletCoin>)
    requires
        is_ranked(ordered),
    ensures
        sorted_by(keys_of(ordered), |a: (u64, Seq<u8>), b: (u64, Seq<u8>)| key_leq(a, b)),
{
    let keys = keys_of(ordered);
    assert forall|i: int, j: int| 0 <= i < j < keys.len() implies key_leq(
        keys[i],
        keys[j],
    ) by {
        assert(!ranks_before(ordered[j], ordered[i]));
    }
}

/// The same coins in another order are ordered, and so selected, alike. Stated of coins among
/// which no two different ones share both amount and id.
pub proof fn selection_ignores_input_order(a: Seq<WalletCoin>, b: Seq<WalletCoin>, target: nat, cap: nat)
    requires
        a.to_multiset() == b.to_multiset(),
        forall|x: WalletCoin, y: WalletCoin|
            a.contains(x) && a.contains(y) && #[trigger] rank_key(x) == #[trigger] rank_key(y)
                ==> x == y,
    ensures
        high_value_first(a) == high_value_first(b),
        selection_of(a, target, cap) == selection_of(b, target, cap),
{
    broadcast use group_to_multiset_ensures;

    high_value_first_is_ranked(a);
    high_value_first_is_ranked(b);
    let oa = high_value_first(a);
    let ob = high_value_first(b);
    lemma_keys_of_permutation(oa, ob);
    lemma_keys_are_sorted(oa);
    lemma_keys_are_sorted(ob);
    lemma_key_order();
    lemma_sorted_unique(
        keys_of(oa),
        keys_of(ob),
        |x: (u64, Seq<u8>), y: (u64, Seq<u8>)| key_leq(x, y),
    );
    assert(oa.len() == ob.len()) by {
        assert(keys_of(oa).len() == keys_of(ob).len());
    }
    assert forall|i: int| 0 <= i < oa.len() implies oa[i] == ob[i] by {
        assert(keys_of(oa)[i] == keys_of(ob)[i]);
        assert(rank_key(oa[i]) == rank_key(ob[i]));
        assert(oa.contains(oa[i]));
        assert(ob.contains(ob[i]));
        assert(a.to_multiset().contains(oa[i]));
        assert(a.to_multiset().contains(ob[i]));
    }
    assert(oa =~= ob);
    lemma_total_of_permutation(a, b);
    assert(a.len() == a.to_multiset().len());
    assert(b.len() == b.to_multiset().len());
}

/// Whether `a` is drawn before `b`.
pub(crate) fn is_ranked_before(a: &WalletCoin, b: &WalletCoin) -> (before: bool)
    ensures
        before == ranks_before(*a, *b),
{
    if a.amount != b.amount {
        a.amount > b.amount
    } else {
        a.coin_id().is_before(&b.coin_id())
    }
}

/// The sum of the coins' amounts.
pub fn sum_of_coins(coins: &[WalletCoin]) -> (total: u64)
    requires
        total_of_coins(coins@) <= u64::MAX,
    ensures
        total == total_of_coins(coins@),
{
    let mut total: u64 = 0;
    let mut i: usize = 0;
    while i < coins.len()
        invariant
            i <= coins.len(),
            total == total_of_coins(coins@.take(i as int)),
            total_of_coins(coins@) <= u64::MAX,
        decreases coins.len() - i,
    {
        proof {
            lemma_total_of_prefix(coins@, i as int + 1, coins@.len() as int);
            assert(coins@.take(coins@.len() as int) =~= coins@);
            assert(coins@.take(i as int + 1).drop_last() =~= coins@.take(i as int));
        }
        total = total + coins[i].amount;
        i = i + 1;
    }
    assert(coins@.take(i as int) =~= coins@);
    total
}

/// Puts a coin into a ranked list, behind every coin that it does not rank before.
fn insert_ranked(ordered: &mut Vec<WalletCoin>, coin: WalletCoin)
    requires
        old(ordered)@.len() < usize::MAX,
    ensures
        final(ordered)@ == ranked_insert(old(ordered)@, coin),
{
    let mut at: usize = ordered.len();
    assert(ordered@.take(at as int) =~= ordered@);
    assert(ranked_insert(ordered@, coin) + ordered@.skip(at as int) =~= ranked_insert(
        ordered@,
        coin,
    ));
    while at > 0 && is_ranked_before(&coin, &ordered[at - 1])
        invariant
            at <= ordered.len(),
            ordered@ == old(ordered)@,
            ordered@.len() < usize::MAX,
            ranked_insert(ordered@, coin) == ranked_insert(ordered@.take(at as int), coin)
                + ordered@.skip(at as int),
        decreases at,
    {
        proof {
            let front = ordered@.take(at as int);
            assert(front.drop_last() =~= ordered@.take(at as int - 1));
            assert(ranked_insert(front, coin) == ranked_insert(front.drop_last(), coin).push(
                front.last(),
            ));
            assert(ranked_insert(front.drop_last(), coin).push(front.last()) + ordered@.skip(
                at as int,
            ) =~= ranked_insert(front.drop_last(), coin) + ordered@.skip(at as int - 1));
        }
        at = at - 1;
    }
    proof {
        let front = ordered@.take(at as int);
        if at > 0 {
            assert(front.last() == ordered@[at as int - 1]);
        }
        assert(ranked_insert(front, coin) == front.push(coin));
        assert(front.push(coin) + ordered@.skip(at as int) =~= ordered@.insert(at as int, coin));
    }
    ordered.insert(at, coin);
}

/// The coins, highest value first, ties by ascending coin id.
fn ordered_high_value_first(coins: &[WalletCoin]) -> (ordered: Vec<WalletCoin>)
    ensures
        ordered@ == high_value_first(coins@),
{
    let mut ordered: Vec<WalletCoin> = Vec::new();
    let mut i: usize = 0;
    assert(coins@.take(0) =~= Seq::<WalletCoin>::empty());
    while i < coins.len()
        invariant
            i <= coins.len(),
            ordered@ == high_value_first(coins@.take(i as int)),
        decreases coins.len() - i,
    {
        proof {
            high_value_first_is_ranked(coins@.take(i as int));
            assert(coins@.take(i as int + 1).drop_last() =~= coins@.take(i as int));
        }
        insert_ranked(&mut ordered, coins[i]);
        i = i + 1;
    }
    assert(coins@.take(i as int) =~= coins@);
    ordered
}

/// Selects coins that cover `target`, highest value first, from at most `cap` coins.
///
/// A target of zero selects no coins.
pub fn select_for_spend(coins: &[WalletCoin], target: u64, cap: usize) -> (outcome: SelectionOutcome)
    requires
        total_of_coins(coins@) <= u64::MAX,
    ensures
        outcome@ == selection_of(coins@, target as nat, cap as nat),
{
    let available_total: u64 = sum_of_coins(coins);
    let available_coin_count: u32 = coins.len() as u32;

    if available_total < target {
        return SelectionOutcome::InsufficientFunds { available_total, required: target };
    }

    let ordered = ordered_high_value_first(coins);
    proof {
        high_value_first_is_ranked(coins@);
        lemma_total_of_permutation(ordered@, coins@);
        assert(ordered@.take(ordered@.len() as int) =~= ordered@);
        assert(ordered@.take(0) =~= Seq::<WalletCoin>::empty());
        lemma_needed_count(ordered@, target as nat);
    }
    let ghost whole = ordered@;

    let mut selected: Vec<WalletCoin> = Vec::new();
    let mut total: u64 = 0;
    while selected.len() < ordered.len() && total < target
        invariant
            ordered@ == whole,
            selected@.len() <= whole.len(),
            selected@ == whole.take(selected@.len() as int),
            total == total_of_coins(selected@),
            total_of_coins(whole) <= u64::MAX,
            selected@.len() > 0 ==> total_of_coins(whole.take(selected@.len() - 1)) < target,
        decreases ordered.len() - selected.len(),
    {
        let n: usize = selected.len();
        proof {
            lemma_total_of_prefix(whole, n as int + 1, whole.len() as int);
            assert(whole.take(whole.len() as int) =~= whole);
            assert(whole.take(n as int + 1).drop_last() =~= whole.take(n as int));
        }
        total = total + ordered[n].amount;
        selected.push(ordered[n]);
        assert(selected@ =~= whole.take(n as int + 1));
    }
    proof {
        if selected@.len() == whole.len() {
            assert(selected@ =~= whole);
        }
        lemma_needed_count_unique(whole, target as nat, selected@.len() as int);
        if (cap as int) < whole.len() {
            if (cap as int) < selected@.len() {
                assert(total_of_coins(whole.take(cap as int)) < target);
            } else {
                lemma_total_of_prefix(whole, selected@.len() as int, cap as int);
            }
        }
    }
    if selected.len() > cap {
        return SelectionOutcome::NeedsConsolidation {
            available_coin_count,
            available_total,
            required: target,
            cap,
        };
    }
    SelectionOutcome::Selected { coins: selected, total, change: total - target }
}

/// The coins to merge: the largest ones, as many as the cap allows but never fewer than two.
pub open spec fn consolidation_of(coins: Seq<WalletCoin>, cap: nat) -> Seq<WalletCoin> {
    at_most(high_value_first(coins), if cap < 2 { 2 } else { cap })
}

/// Selects the coins to merge into one, highest value first.
///
/// It takes at least two coins: merging one changes nothing.
pub fn select_for_consolidation(coins: &[WalletCoin], cap: usize) -> (result: WalletResult<Vec<WalletCoin>>)
    ensures
        match result {
            Ok(merged) => coins@.len() >= 2 && merged@ == consolidation_of(coins@, cap as nat),
            Err(error) => coins@.len() < 2 && error@ == invalid(
                "consolidation requires at least two coins"@,
            ),
        },
{
    if coins.len() < 2 {
        return Err(
            WalletError::new(
                WalletErrorCode::InvalidInput,
                "consolidation requires at least two coins".to_owned(),
            ),
        );
    }
    let mut ordered = ordered_high_value_first(coins);
    let keep: usize = if cap < 2 {
        2
    } else {
        cap
    };
    let ghost whole = ordered@;
    ordered.truncate(keep);
    assert(ordered@ =~= at_most(whole, keep as nat));
    Ok(ordered)
}

} // verus!
