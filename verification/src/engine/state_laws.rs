//! What the wallet keeps and counts: coins and balances, the log of events, waiting builds and
//! stored amounts, each stated of what goes in and what comes out.

use vstd::prelude::*;
use vstd::string::*;

use super::events::{backfill, fresh_sink, published, recorded, SinkView};
use super::hints::{announced, announced_under_any, hints_of};
use super::offer_state::{waiting, PendingOffer};
use super::persist::{
    amount_of, amounts_total, batch_of, digits_value, forgotten_ids, signed_decimal,
    stored_height, unspent_ids, versions_after, AmountFault, HeightRow,
};
use super::refusal_laws::{lemma_tells, tells};
use super::singleton_laws::ends_with;
use super::state::{
    change_of, keys_of, lemma_total_remove, lists, peak_raised, status_of, status_set, unspent_of,
    unspent_total, CoinChange, WalletStateView,
};
use crate::text::{decimal, lower_text};
use crate::types::event::{kind_of, Cursor, EmittedEvent, EventKind, SyncLifecycle, WalletEvent};
use crate::types::hint::{hint_key, Hint};
use crate::types::value::CoinRecordView;

verus! {

/// An update says nothing new exactly if it is what was known, and otherwise it is new for just one
/// reason: a coin that was not known or not spent is now spent, an unspent coin was not known, or
/// anything else about a known coin is different.
pub proof fn an_update_has_one_class(previous: Option<CoinRecordView>, incoming: CoinRecordView)
    ensures
        change_of(previous, incoming) == CoinChange::Unchanged <==> previous == Some(incoming),
        change_of(previous, incoming) == CoinChange::Created <==> previous is None
            && incoming.spent_height is None,
        change_of(previous, incoming) == CoinChange::Spent <==> incoming.spent_height is Some && (
        previous matches Some(known) ==> known.spent_height is None),
{
}

/// The spendable coins are exactly the tracked ones without a spend, each as it is tracked.
pub proof fn only_unspent_coins_are_listed(coins: Map<Seq<char>, CoinRecordView>, id: Seq<char>)
    ensures
        unspent_of(coins).contains_key(id) <==> coins.contains_key(id) && coins[id].spent_height
            is None,
        unspent_of(coins).contains_key(id) ==> unspent_of(coins)[id] == coins[id],
{
}

/// The balance counts each unspent coin once, in full, and no other coin: without coins it is zero,
/// a new coin adds its amount if it is unspent and nothing if it is spent, and a coin that is spent
/// takes its amount away.
pub proof fn the_balance_counts_unspent_coins(
    coins: Map<Seq<char>, CoinRecordView>,
    id: Seq<char>,
    coin: CoinRecordView,
    spent: CoinRecordView,
)
    requires
        coins.dom().finite(),
        !coins.contains_key(id),
        coin.spent_height is None,
        spent.spent_height is Some,
    ensures
        unspent_total(Map::empty()) == 0,
        unspent_total(coins.insert(id, coin)) == unspent_total(coins) + coin.amount,
        unspent_total(coins.insert(id, spent)) == unspent_total(coins),
        unspent_total(coins.insert(id, coin).insert(id, spent)) + coin.amount == unspent_total(
            coins.insert(id, coin),
        ),
{
    assert(Map::<Seq<char>, CoinRecordView>::empty().dom() =~= Set::empty());
    lemma_total_remove(coins.insert(id, coin), id);
    lemma_total_remove(coins.insert(id, spent), id);
    assert(coins.insert(id, coin).remove(id) =~= coins);
    assert(coins.insert(id, spent).remove(id) =~= coins);
    assert(coins.insert(id, coin).insert(id, spent) =~= coins.insert(id, spent));
}

/// A raised peak is the higher of the two, and nothing else of the wallet changes with it or with
/// its sync status, which reads back as it was set.
pub proof fn peaks_only_rise(
    state: WalletStateView,
    peak_height: u32,
    lifecycle: SyncLifecycle,
    target: u32,
)
    ensures
        peak_raised(state, peak_height).peak_height >= state.peak_height,
        peak_raised(state, peak_height).peak_height >= peak_height,
        peak_raised(state, peak_height).peak_height == state.peak_height || peak_raised(
            state,
            peak_height,
        ).peak_height == peak_height,
        peak_raised(state, peak_height).coins == state.coins,
        peak_raised(state, peak_height).lifecycle == state.lifecycle,
        peak_raised(state, peak_height).target_height == state.target_height,
        status_of(status_set(state, lifecycle, target)).state == lifecycle,
        status_of(status_set(state, lifecycle, target)).target_height == target,
        status_of(status_set(state, lifecycle, target)).peak_height == state.peak_height,
        status_set(state, lifecycle, target).coins == state.coins,
{
}

/// A log keeps the latest events, as many as it has room for, in their order, and the one that was
/// just logged is the last of them.
pub proof fn a_log_keeps_the_latest(
    history: Seq<EmittedEvent>,
    capacity: nat,
    emitted: EmittedEvent,
)
    ensures
        ({
            let all = history.push(emitted);
            let kept = recorded(history, capacity, emitted);
            &&& kept.len() == if all.len() <= capacity {
                all.len()
            } else {
                capacity
            }
            &&& forall|i: int|
                0 <= i < kept.len() ==> #[trigger] kept[i] == all[all.len() - kept.len() + i]
            &&& capacity > 0 ==> kept.last() == emitted
        }),
{
}

/// Publishing an event logs it and puts it out, both under the cursor that was next, and keeps
/// everything that was put out before.
pub proof fn an_event_is_logged_and_put_out(sink: SinkView, event: WalletEvent)
    ensures
        ({
            let after = published(sink, event);
            &&& after.outbox.len() == sink.outbox.len() + 1
            &&& sink.outbox.is_prefix_of(after.outbox)
            &&& after.outbox.last().event == event
            &&& after.outbox.last().cursor.0 == sink.next
            &&& sink.capacity > 0 ==> after.history.last() == after.outbox.last()
            &&& sink.next < u64::MAX ==> after.next == sink.next + 1
            &&& after.capacity == sink.capacity
            &&& after.live_capacity == sink.live_capacity
        }),
{
    let after = published(sink, event);
    assert(sink.outbox =~= after.outbox.take(sink.outbox.len() as int));
}

/// Catching up gives exactly the logged events after the cursor that the filter admits: each of
/// them, and no other.
pub proof fn catching_up_gives_what_is_asked_for(
    history: Seq<EmittedEvent>,
    since: Cursor,
    kinds: Set<EventKind>,
    emitted: EmittedEvent,
)
    ensures
        backfill(history, since, kinds).contains(emitted) <==> history.contains(emitted)
            && emitted.cursor.0 > since.0 && kinds.contains(kind_of(emitted.event)),
        backfill(history, since, kinds).len() <= history.len(),
{
    let keep = |e: EmittedEvent| e.cursor.0 > since.0 && kinds.contains(kind_of(e.event));
    let given = history.filter(keep);
    assert(given == backfill(history, since, kinds));
    history.lemma_filter_len(keep);
    if given.contains(emitted) {
        let i = choose|i: int| 0 <= i < given.len() && given[i] == emitted;
        history.lemma_filter_pred(keep, i);
        history.lemma_filter_contains_rev(keep, emitted);
    }
    if history.contains(emitted) && keep(emitted) {
        let i = choose|i: int| 0 <= i < history.len() && history[i] == emitted;
        history.lemma_filter_contains(keep, i);
    }
}

/// An event is of the kind that it is named for.
pub proof fn events_are_of_their_kind(event: WalletEvent)
    ensures
        kind_of(event) is FundsReceived <==> event is FundsReceived,
        kind_of(event) is FundsSent <==> event is FundsSent,
        kind_of(event) is CoinStateChanged <==> event is CoinStateChanged,
        kind_of(event) is Confirmation <==> event is Confirmation,
        kind_of(event) is TransactionFailed <==> event is TransactionFailed,
        kind_of(event) is NewTip <==> event is NewTip,
        kind_of(event) is SyncProgress <==> event is SyncProgress,
        kind_of(event) is CatInfo <==> event is CatInfo,
        kind_of(event) is DidInfo <==> event is DidInfo,
        kind_of(event) is NftData <==> event is NftData,
        kind_of(event) is Derivation <==> event is Derivation,
{
}

/// A build waits five minutes and no longer, and is meanwhile as it was parked.
pub proof fn a_build_waits_five_minutes(
    builds: Map<Seq<char>, PendingOffer>,
    id: Seq<char>,
    now: u64,
)
    ensures
        waiting(builds, now).contains_key(id) <==> builds.contains_key(id) && now
            < builds[id].created_at + 5 * 60 * 1_000_000_000,
        waiting(builds, now).contains_key(id) ==> waiting(builds, now)[id] == builds[id],
{
}

/// The digit that a character is, if it is one.
pub open spec fn as_digit(c: char) -> Option<int> {
    if '0' <= c && c <= '9' {
        Some(c as int - '0' as int)
    } else {
        None
    }
}

proof fn lemma_digits_prefix(text: Seq<char>, longer: Seq<char>, n: nat)
    requires
        n <= text.len() <= longer.len(),
        forall|k: int| 0 <= k < text.len() ==> #[trigger] longer[k] == text[k],
    ensures
        digits_value(text, n) == digits_value(longer, n),
    decreases n,
{
    if n > 0 {
        lemma_digits_prefix(text, longer, (n - 1) as nat);
        assert(longer[n - 1] == text[n - 1]);
    }
}

/// An amount is read in decimal: a digit alone is its own value, one more digit makes ten times as
/// much and the digit, and is too large where that exceeds a machine word; one more character that
/// is no digit spoils it. A plus sign in front changes nothing, and nothing is no amount.
pub proof fn amounts_are_decimal(text: Seq<char>, c: char)
    requires
        text.len() > 0,
        text[0] != '+',
    ensures
        amount_of(Seq::empty()) == Err::<nat, AmountFault>(AmountFault::Empty),
        as_digit(c) matches Some(d) ==> amount_of(seq![c]) == Ok::<nat, AmountFault>(d as nat),
        as_digit(c) is None ==> amount_of(seq![c]) == Err::<nat, AmountFault>(
            AmountFault::InvalidDigit,
        ),
        amount_of(text) matches Ok(value) ==> match as_digit(c) {
            None => amount_of(text.push(c)) == Err::<nat, AmountFault>(AmountFault::InvalidDigit),
            Some(d) => amount_of(text.push(c)) == if value * 10 + d <= u64::MAX {
                Ok::<nat, AmountFault>((value * 10 + d) as nat)
            } else {
                Err(AmountFault::TooLarge)
            },
        },
        amount_of(text) is Err ==> amount_of(text.push(c)) == amount_of(text),
        amount_of(seq!['+'] + text) == amount_of(text),
{
    let longer = text.push(c);
    lemma_digits_prefix(text, longer, text.len());
    assert(longer[0] == text[0]);
    assert(longer[text.len() as int] == c);
    reveal_with_fuel(digits_value, 2);
    assert(seq![c][0] == c);
    let plus = seq!['+'] + text;
    assert(plus[0] == '+');
    assert(plus.skip(1) =~= text);
}

/// A database passes exactly the versions above its own up to the target, one after the other.
pub proof fn every_version_is_passed(current: int, target: int, version: int)
    requires
        0 <= target <= i64::MAX,
    ensures
        versions_after(current, target).contains(version as i64) && 1 <= version <= i64::MAX <==> 1
            <= version && current < version && version <= target,
        forall|i: int, j: int|
            0 <= i < j < versions_after(current, target).len() ==> (#[trigger] versions_after(
                current,
                target,
            )[i]) < (#[trigger] versions_after(current, target)[j]),
{
    let versions = versions_after(current, target);
    let first = if current < 0 {
        1
    } else {
        current + 1
    };
    if 1 <= version && current < version && version <= target {
        assert(versions[version - first] == version as i64);
    }
}

/// A stored height is read as the height below two to the thirty-second that it is a whole number of
/// such steps away from, so that a height in range is read as it is.
pub proof fn heights_are_read_in_range(height: i64)
    ensures
        (height - stored_height(height)) % 0x1_0000_0000 == 0,
        0 <= height <= u32::MAX ==> stored_height(height) == height,
{
}

proof fn lemma_planned(rows: Seq<HeightRow>, fork: u32, n: nat)
    requires
        n <= rows.len(),
    ensures
        forall|id: Seq<char>| #[trigger]
            forgotten_ids(rows, fork, n).contains(id) <==> exists|i: int|
                0 <= i < n && (#[trigger] rows[i]).coin_id@ == id && is_past(rows[i].created, fork),
        forall|id: Seq<char>| #[trigger]
            unspent_ids(rows, fork, n).contains(id) <==> exists|i: int|
                0 <= i < n && (#[trigger] rows[i]).coin_id@ == id && !is_past(
                    rows[i].created,
                    fork,
                ) && is_past(rows[i].spent, fork),
    decreases n,
{
    if n > 0 {
        lemma_planned(rows, fork, (n - 1) as nat);
        let last = rows[n - 1];
        let forgotten = forgotten_ids(rows, fork, (n - 1) as nat);
        let unspent = unspent_ids(rows, fork, (n - 1) as nat);
        assert forall|id: Seq<char>| #[trigger]
            forgotten_ids(rows, fork, n).contains(id) <==> exists|i: int|
                0 <= i < n && (#[trigger] rows[i]).coin_id@ == id && is_past(
                    rows[i].created,
                    fork,
                ) by {
            lemma_pushed(forgotten, last.coin_id@, id);
            assert(rows[n - 1] == last);
        }
        assert forall|id: Seq<char>| #[trigger]
            unspent_ids(rows, fork, n).contains(id) <==> exists|i: int|
                0 <= i < n && (#[trigger] rows[i]).coin_id@ == id && !is_past(
                    rows[i].created,
                    fork,
                ) && is_past(rows[i].spent, fork) by {
            lemma_pushed(unspent, last.coin_id@, id);
            assert(rows[n - 1] == last);
        }
    }
}

proof fn lemma_pushed(ids: Seq<Seq<char>>, more: Seq<char>, id: Seq<char>)
    ensures
        ids.push(more).contains(id) <==> ids.contains(id) || id == more,
{
    let longer = ids.push(more);
    if ids.contains(id) {
        let i = choose|i: int| 0 <= i < ids.len() && ids[i] == id;
        assert(longer[i] == id);
    }
    if id == more {
        assert(longer[ids.len() as int] == id);
    }
}

/// Whether a stored height is known and past another one.
pub open spec fn is_past(height: Option<i64>, fork: u32) -> bool {
    match height {
        Some(known) => known > fork,
        None => false,
    }
}

/// A plan for rolling stored coins back forgets exactly the coins that were created past the fork,
/// and takes the spend back of exactly those others that were spent past it.
pub proof fn a_plan_touches_what_is_past_the_fork(rows: Seq<HeightRow>, fork: u32, id: Seq<char>)
    ensures
        forgotten_ids(rows, fork, rows.len()).contains(id) <==> exists|i: int|
            0 <= i < rows.len() && (#[trigger] rows[i]).coin_id@ == id && is_past(
                rows[i].created,
                fork,
            ),
        unspent_ids(rows, fork, rows.len()).contains(id) <==> exists|i: int|
            0 <= i < rows.len() && (#[trigger] rows[i]).coin_id@ == id && !is_past(
                rows[i].created,
                fork,
            ) && is_past(rows[i].spent, fork),
{
    lemma_planned(rows, fork, rows.len());
}

/// Stored amounts are added one after the other: one more amount is added to the sum of those
/// before it; one that cannot be read, or that passes a machine word, ends the count for good.
pub proof fn stored_amounts_are_added_up(amounts: Seq<String>, n: nat)
    requires
        n < amounts.len(),
    ensures
        amounts_total(amounts, 0) == Some(Ok::<nat, AmountFault>(0)),
        ({
            let before = amounts_total(amounts, n);
            let after = amounts_total(amounts, n + 1);
            match (before, amount_of(amounts[n as int]@)) {
                (Some(Ok(sum)), Ok(value)) => if sum + value <= u64::MAX {
                    after == Some(Ok::<nat, AmountFault>((sum + value) as nat))
                } else {
                    after is None
                },
                (Some(Ok(_)), Err(fault)) => after == Some(Err::<nat, AmountFault>(fault)),
                (_, _) => after == before,
            }
        }),
{
}

/// A coin that is indexed answers to its own hints and to the ones that it had, and to no other
/// one; no other coin is affected. A coin answers to any of some hints exactly if it answers to one
/// of them.
pub proof fn a_coin_answers_to_its_hints(
    index: Map<Seq<char>, Set<Seq<char>>>,
    coin: Seq<char>,
    more: Set<Seq<char>>,
    other: Seq<char>,
    hint: Seq<char>,
    hints: Seq<Hint>,
)
    ensures
        ({
            let after = index.insert(coin, hints_of(index, coin).union(more));
            &&& announced(after, hint).contains(coin) <==> announced(index, hint).contains(coin)
                || more.contains(hint)
            &&& other != coin ==> (announced(after, hint).contains(other) <==> announced(
                index,
                hint,
            ).contains(other))
            &&& hints_of(after, coin).contains(hint) <==> announced(after, hint).contains(coin)
        }),
        announced(Map::empty(), hint) == Set::<Seq<char>>::empty(),
        announced_under_any(index, hints).contains(coin) <==> exists|i: int|
            0 <= i < hints.len() && announced(index, (#[trigger] hints[i])@).contains(coin),
{
    assert(announced(Map::empty(), hint) =~= Set::<Seq<char>>::empty());
    if announced_under_any(index, hints).contains(coin) {
        let i = choose|i: int| 0 <= i < hints.len() && index[coin].contains((#[trigger] hints[i])@);
        assert(announced(index, hints[i]@).contains(coin));
    }
}

/// A hint is indexed under its text in lower case, without the one prefix that it may have.
pub proof fn hints_lose_one_prefix(body: Seq<char>)
    ensures
        hint_key(seq!['0', 'x'] + body) == lower_text(body),
        hint_key(seq!['0', 'X'] + body) == lower_text(body),
        !(body.len() >= 2 && body[0] == '0' && (body[1] == 'x' || body[1] == 'X')) ==> hint_key(body)
            == lower_text(body),
        hint_key(body).len() <= body.len(),
        forall|i: int|
            0 <= i < hint_key(body).len() ==> !('A' <= #[trigger] hint_key(body)[i] && hint_key(
                body,
            )[i] <= 'Z'),
{
    assert((seq!['0', 'x'] + body).skip(2) =~= body);
    assert((seq!['0', 'X'] + body).skip(2) =~= body);
}

/// Whether a table holds a record.
pub open spec fn holds_record<V>(held: Map<Seq<char>, V>, record: V) -> bool {
    exists|key: Seq<char>| #[trigger] held.contains_key(key) && held[key] == record
}

/// A listing holds each record of a table once and no other record.
pub proof fn a_listing_is_complete<V>(listed: Seq<V>, held: Map<Seq<char>, V>, id: Seq<char>)
    requires
        lists(listed, held),
        held.dom().finite(),
    ensures
        listed.len() == held.dom().len(),
        held.contains_key(id) ==> listed.contains(held[id]),
        forall|i: int| 0 <= i < listed.len() ==> holds_record(held, #[trigger] listed[i]),
{
    let keys = choose|keys: Seq<Seq<char>>| #[trigger]
        keys_of(keys, held) && listed == keys.map_values(|k: Seq<char>| held[k]);
    keys.unique_seq_to_set();
    if held.contains_key(id) {
        assert(keys.to_set().contains(id));
        let i = choose|i: int| 0 <= i < keys.len() && keys[i] == id;
        assert(listed[i] == held[id]);
    }
    assert forall|i: int| 0 <= i < listed.len() implies holds_record(
        held,
        #[trigger] listed[i],
    ) by {
        assert(keys.to_set().contains(keys[i]));
        assert(held.contains_key(keys[i]) && held[keys[i]] == listed[i]);
    }
}

/// A fresh sink has put out and logged nothing, and its first cursor is one, so that a subscriber
/// who has seen nothing, at cursor zero, is behind every event.
pub proof fn the_first_cursor_is_one(live_capacity: nat, capacity: nat, event: WalletEvent)
    ensures
        fresh_sink(live_capacity, capacity).outbox.len() == 0,
        fresh_sink(live_capacity, capacity).history.len() == 0,
        fresh_sink(live_capacity, capacity).capacity == capacity,
        fresh_sink(live_capacity, capacity).live_capacity == live_capacity,
        published(fresh_sink(live_capacity, capacity), event).outbox[0].cursor.0 == 1,
{
}

/// A migration is one transaction: it begins before the statements, which stand in it as they are,
/// and commits after the new version is written, which replaces the old one.
pub proof fn a_migration_is_one_transaction(statements: Seq<char>, version: int)
    ensures
        ({
            let batch = batch_of(statements, version);
            let opening = "BEGIN;"@;
            let rest = batch.skip((opening.len() + statements.len()) as int);
            &&& batch.len() >= opening.len() + statements.len()
            &&& batch.take(opening.len() as int) == opening
            &&& batch.subrange(
                opening.len() as int,
                (opening.len() + statements.len()) as int,
            ) == statements
            &&& ends_with(rest, "COMMIT;"@)
            &&& tells(rest, "("@ + signed_decimal(version) + ")"@)
        }),
        version >= 0 ==> signed_decimal(version) == decimal(version as nat),
        version < 0 ==> signed_decimal(version) == "-"@ + decimal((-version) as nat),
{
    let batch = batch_of(statements, version);
    let opening = "BEGIN;"@;
    let middle = "DELETE FROM schema_version;INSERT INTO schema_version (version) VALUES ("@;
    let closing = ");COMMIT;"@;
    reveal_strlit("DELETE FROM schema_version;INSERT INTO schema_version (version) VALUES (");
    reveal_strlit(");COMMIT;");
    reveal_strlit("COMMIT;");
    reveal_strlit("(");
    reveal_strlit(")");
    let rest = batch.skip((opening.len() + statements.len()) as int);
    assert(rest =~= middle + signed_decimal(version) + closing);
    assert(batch.take(opening.len() as int) =~= opening);
    assert(batch.subrange(
        opening.len() as int,
        (opening.len() + statements.len()) as int,
    ) =~= statements);
    assert(closing =~= ")"@ + (";"@ + "COMMIT;"@)) by {
        reveal_strlit(";");
    }
    assert(rest.skip(rest.len() - "COMMIT;"@.len()) =~= "COMMIT;"@);
    let front = middle.take(middle.len() - 1);
    assert(middle =~= front + "("@);
    lemma_tells(
        rest,
        front,
        "("@ + signed_decimal(version) + ")"@,
        ";"@ + "COMMIT;"@,
    );
}

} // verus!
