//! What syncing does to a wallet and what it announces, stated of the updates that come in.

use vstd::prelude::*;

use super::events::{published, published_all, SinkView};
use super::state::{change_of, coin_in, forgets, rolled_back, touched, unspends, WalletStateView};
use super::sync::{
    batch_change, batch_changed, batch_events, batch_height, batch_state, change_events, dial_order,
    fallback_run, follows_peer, ingested, progress_event, reorg_event, reorg_events, PeerAddress,
    Position,
};
use crate::types::error::{WalletError, WalletResult};
use crate::types::event::{EmittedEvent, SyncLifecycle, WalletEvent};
use crate::types::identity::WalletId;
use crate::types::value::{CoinRecord, CoinRecordView};

verus! {

/// Whether an event tells of a coin update: as a change of that coin's state, which says that it
/// is spent exactly if the height of its spend is known, or as value that came in with it, which is
/// its own amount, confirmed at its own height.
pub open spec fn tells_of(event: WalletEvent, wallet_id: WalletId, record: CoinRecord) -> bool {
    match event {
        WalletEvent::CoinStateChanged { coin_id, spent, created_height, spent_height } => {
            &&& coin_id == record.coin_id
            &&& spent <==> record.spent_height is Some
            &&& created_height == record.created_height
            &&& spent_height == record.spent_height
        },
        WalletEvent::FundsReceived { wallet_id: to, asset, amount, coin_id, confirmed_height } => {
            &&& to == wallet_id
            &&& asset is None
            &&& amount == record.amount
            &&& coin_id == record.coin_id
            &&& record.created_height == Some(confirmed_height)
            &&& record.spent_height is None
        },
        _ => false,
    }
}

/// Whether an event tells of one of the first updates of a batch.
pub open spec fn tells_of_one(
    event: WalletEvent,
    wallet_id: WalletId,
    records: Seq<CoinRecord>,
    n: int,
) -> bool {
    exists|i: int| 0 <= i < n && #[trigger] tells_of(event, wallet_id, records[i])
}

/// What was announced between two positions, oldest first.
pub open spec fn announced(before: Position, after: Position) -> Seq<EmittedEvent> {
    after.sink.outbox.skip(before.sink.outbox.len() as int)
}

proof fn lemma_outbox(sink: SinkView, events: Seq<WalletEvent>)
    ensures
        published_all(sink, events).outbox.len() == sink.outbox.len() + events.len(),
        forall|i: int|
            0 <= i < sink.outbox.len() ==> #[trigger] published_all(sink, events).outbox[i]
                == sink.outbox[i],
        forall|i: int|
            sink.outbox.len() <= i < sink.outbox.len() + events.len() ==> (
            #[trigger] published_all(sink, events).outbox[i]).event == events[i
                - sink.outbox.len()],
    decreases events.len(),
{
    if events.len() > 0 {
        lemma_outbox(sink, events.drop_last());
    }
}

proof fn lemma_batch_prefix(
    wallet_id: WalletId,
    state: WalletStateView,
    records: Seq<CoinRecord>,
    longer: Seq<CoinRecord>,
    n: nat,
)
    requires
        n <= records.len() <= longer.len(),
        forall|k: int| 0 <= k < records.len() ==> #[trigger] longer[k] == records[k],
    ensures
        batch_state(state, records, n) == batch_state(state, longer, n),
        batch_events(wallet_id, state, records, n) == batch_events(wallet_id, state, longer, n),
        batch_changed(state, records, n) == batch_changed(state, longer, n),
        batch_height(records, n) == batch_height(longer, n),
    decreases n,
{
    if n > 0 {
        lemma_batch_prefix(wallet_id, state, records, longer, (n - 1) as nat);
        assert(longer[n - 1] == records[n - 1]);
    }
}

proof fn lemma_batch_peak(state: WalletStateView, records: Seq<CoinRecord>, n: nat)
    ensures
        batch_state(state, records, n) == (WalletStateView {
            coins: batch_state(state, records, n).coins,
            ..state
        }),
    decreases n,
{
    if n > 0 {
        lemma_batch_peak(state, records, (n - 1) as nat);
    }
}

proof fn lemma_batch_tells(
    wallet_id: WalletId,
    state: WalletStateView,
    records: Seq<CoinRecord>,
    n: nat,
)
    requires
        n <= records.len(),
    ensures
        forall|j: int|
            0 <= j < batch_events(wallet_id, state, records, n).len() ==> tells_of_one(
                #[trigger] batch_events(wallet_id, state, records, n)[j],
                wallet_id,
                records,
                n as int,
            ),
    decreases n,
{
    if n > 0 {
        lemma_batch_tells(wallet_id, state, records, (n - 1) as nat);
        let before = batch_events(wallet_id, state, records, (n - 1) as nat);
        let events = batch_events(wallet_id, state, records, n);
        let change = batch_change(state, records, n - 1);
        let last = change_events(wallet_id, records[n - 1], change);
        lemma_change_tells(
            wallet_id,
            coin_in(
                batch_state(state, records, (n - 1) as nat).coins,
                records[n - 1].coin_id@,
            ),
            records[n - 1],
        );
        assert forall|j: int| 0 <= j < events.len() implies tells_of_one(
            #[trigger] events[j],
            wallet_id,
            records,
            n as int,
        ) by {
            if j < before.len() {
                assert(events[j] == before[j]);
                let i = choose|i: int|
                    0 <= i < n - 1 && #[trigger] tells_of(before[j], wallet_id, records[i]);
                assert(tells_of(events[j], wallet_id, records[i]));
            } else {
                assert(events[j] == last[j - before.len()]);
                assert(tells_of(events[j], wallet_id, records[n - 1]));
            }
        }
    }
}

proof fn lemma_change_tells(
    wallet_id: WalletId,
    known: Option<CoinRecordView>,
    record: CoinRecord,
)
    ensures
        forall|j: int|
            0 <= j < change_events(wallet_id, record, change_of(known, record@)).len() ==> tells_of(
                #[trigger] change_events(wallet_id, record, change_of(known, record@))[j],
                wallet_id,
                record,
            ),
{
}

/// Everything that a batch announces is told of one of its updates, truly: a coin is called spent
/// exactly if the height of its spend is known, under its own id and heights, and value that came
/// in is the coin's own amount at the height that confirmed it.
pub proof fn a_batch_announces_the_truth(
    wallet_id: WalletId,
    at: Position,
    records: Seq<CoinRecord>,
)
    ensures
        announced(at, ingested(wallet_id, at, records)).len()
            == ingested(wallet_id, at, records).sink.outbox.len() - at.sink.outbox.len(),
        at.sink.outbox.is_prefix_of(ingested(wallet_id, at, records).sink.outbox),
        forall|j: int|
            0 <= j < announced(at, ingested(wallet_id, at, records)).len() ==> tells_of_one(
                (#[trigger] announced(at, ingested(wallet_id, at, records))[j]).event,
                wallet_id,
                records,
                records.len() as int,
            ),
{
    let after = ingested(wallet_id, at, records);
    let events = batch_events(wallet_id, at.state, records, records.len());
    lemma_outbox(at.sink, events);
    lemma_batch_tells(wallet_id, at.state, records, records.len());
    let told = announced(at, after);
    let from = at.sink.outbox.len();
    assert forall|j: int| 0 <= j < told.len() implies tells_of_one(
        (#[trigger] told[j]).event,
        wallet_id,
        records,
        records.len() as int,
    ) by {
        assert(told[j] == after.sink.outbox[from + j]);
        assert(told[j].event == events[j]);
    }
    assert(at.sink.outbox =~= after.sink.outbox.take(from as int));
}

/// A batch takes in its updates one after the other. The last one is stored under its id and
/// nothing else of the wallet changes but its peak, which rises to the heights of the update. It
/// is announced unless it is what was known already: as a change of the coin, and before that as
/// value that came in, if the coin is new, confirmed and unspent. A batch without updates changes
/// nothing.
pub proof fn a_batch_takes_in_each_update(
    wallet_id: WalletId,
    at: Position,
    records: Seq<CoinRecord>,
    last: CoinRecord,
)
    ensures
        ingested(wallet_id, at, Seq::empty()) == at,
        ({
            let before = ingested(wallet_id, at, records);
            let after = ingested(wallet_id, at, records.push(last));
            let told = announced(before, after);
            let known = before.state.coins.contains_key(last.coin_id@);
            let same = known && before.state.coins[last.coin_id@] == last@;
            let received = !known && last.created_height is Some && last.spent_height is None;
            &&& after.state == (WalletStateView {
                coins: before.state.coins.insert(last.coin_id@, last@),
                peak_height: after.state.peak_height,
                ..before.state
            })
            &&& after.state.peak_height >= before.state.peak_height
            &&& last.created_height matches Some(height) ==> after.state.peak_height >= height
            &&& last.spent_height matches Some(height) ==> after.state.peak_height >= height
            &&& after.state.peak_height == before.state.peak_height || last.created_height == Some(
                after.state.peak_height,
            ) || last.spent_height == Some(after.state.peak_height)
            &&& before.sink.outbox.is_prefix_of(after.sink.outbox)
            &&& told.len() == if same {
                0int
            } else if received {
                2
            } else {
                1
            }
            &&& !same ==> told.last().event is CoinStateChanged && tells_of(
                told.last().event,
                wallet_id,
                last,
            )
            &&& received ==> told[0].event is FundsReceived && tells_of(
                told[0].event,
                wallet_id,
                last,
            )
            &&& batch_changed(at.state, records.push(last), records.len() + 1) == batch_changed(
                at.state,
                records,
                records.len(),
            ) + if same {
                0int
            } else {
                1
            }
        }),
{
    let longer = records.push(last);
    let n = records.len();
    let before = ingested(wallet_id, at, records);
    let after = ingested(wallet_id, at, longer);
    lemma_batch_prefix(wallet_id, at.state, records, longer, n);
    lemma_batch_peak(at.state, records, n);
    lemma_batch_peak(at.state, longer, n + 1);
    let first = batch_events(wallet_id, at.state, records, n);
    let all = batch_events(wallet_id, at.state, longer, n + 1);
    let change = batch_change(at.state, longer, n as int);
    let more = change_events(wallet_id, last, change);
    assert(longer[n as int] == last);
    assert(all == first + more);
    lemma_outbox(at.sink, all);
    lemma_outbox(at.sink, first);
    super::events::lemma_published_in_turn(at.sink, first, more);
    lemma_outbox(before.sink, more);
    let told = announced(before, after);
    let from = before.sink.outbox.len() as int;
    assert(told.len() == more.len());
    assert forall|j: int| 0 <= j < told.len() implies (#[trigger] told[j]).event == more[j] by {
        assert(told[j] == after.sink.outbox[from + j]);
    }
    assert(before.sink.outbox =~= after.sink.outbox.take(from));
    assert(batch_state(at.state, Seq::empty(), 0) == at.state);
    assert(published_all(at.sink, Seq::empty()) == at.sink);
}

/// A peer's answer is taken in, and then the wallet is in sync at its peak, which is announced last
/// of all; a peer's error changes nothing and is handed on.
pub proof fn a_peer_sync_ends_at_the_peak(
    wallet_id: WalletId,
    before: Position,
    reply: WalletResult<Vec<CoinRecord>>,
    after: Position,
    result: WalletResult<usize>,
)
    requires
        follows_peer(wallet_id, before, reply, after, result),
    ensures
        result is Ok <==> reply is Ok,
        reply matches Err(error) ==> after == before && result == Err::<usize, WalletError>(error),
        reply matches Ok(records) ==> {
            let middle = ingested(wallet_id, before, records@);
            &&& after.state.lifecycle == SyncLifecycle::Synced
            &&& after.state.target_height == after.state.peak_height
            &&& after.state.peak_height == middle.state.peak_height
            &&& after.state.coins == middle.state.coins
            &&& after.state.history == before.state.history
            &&& after.sink.outbox.len() == middle.sink.outbox.len() + 1
            &&& middle.sink.outbox.is_prefix_of(after.sink.outbox)
            &&& after.sink.outbox.last().event == (WalletEvent::SyncProgress {
                wallet_id,
                state: SyncLifecycle::Synced,
                peak_height: after.state.peak_height,
                target_height: after.state.peak_height,
            })
        },
{
    if let Ok(records) = reply {
        let middle = ingested(wallet_id, before, records@);
        lemma_batch_peak(before.state, records@, records@.len());
        assert(middle.sink.outbox =~= after.sink.outbox.take(middle.sink.outbox.len() as int));
    }
}

/// Answers about single coins are taken in one after the other, each as a batch of its own, and
/// counted if they change anything; the first error ends it and keeps what was taken in before.
pub proof fn a_fallback_takes_in_each_answer(
    wallet_id: WalletId,
    start: Position,
    replies: Seq<WalletResult<Option<CoinRecord>>>,
    last: WalletResult<Option<CoinRecord>>,
)
    ensures
        fallback_run(wallet_id, start, Seq::empty(), 0) == (start, Ok::<nat, WalletError>(0)),
        ({
            let before = fallback_run(wallet_id, start, replies, replies.len());
            let after = fallback_run(wallet_id, start, replies.push(last), replies.len() + 1);
            &&& before.1 is Err ==> after == before
            &&& before.1 is Ok ==> match last {
                Err(error) => after == (before.0, Err::<nat, WalletError>(error)),
                Ok(None) => after == before,
                Ok(Some(record)) => {
                    &&& after.0 == ingested(wallet_id, before.0, seq![record])
                    &&& after.1 is Ok
                    &&& before.0.state.coins.contains_key(record.coin_id@)
                        && before.0.state.coins[record.coin_id@] == record@ ==> after.1 == before.1
                    &&& !(before.0.state.coins.contains_key(record.coin_id@)
                        && before.0.state.coins[record.coin_id@] == record@) ==> after.1->Ok_0
                        == before.1->Ok_0 + 1
                },
            }
        }),
{
    let longer = replies.push(last);
    lemma_fallback_prefix(wallet_id, start, replies, longer, replies.len());
    assert(longer[replies.len() as int] == last);
    if let Ok(Some(record)) = last {
        reveal_with_fuel(batch_changed, 2);
        reveal_with_fuel(batch_state, 2);
        assert(seq![record][0] == record);
    }
}

proof fn lemma_fallback_prefix(
    wallet_id: WalletId,
    start: Position,
    replies: Seq<WalletResult<Option<CoinRecord>>>,
    longer: Seq<WalletResult<Option<CoinRecord>>>,
    n: nat,
)
    requires
        n <= replies.len() <= longer.len(),
        forall|k: int| 0 <= k < replies.len() ==> #[trigger] longer[k] == replies[k],
    ensures
        fallback_run(wallet_id, start, replies, n) == fallback_run(wallet_id, start, longer, n),
    decreases n,
{
    if n > 0 {
        lemma_fallback_prefix(wallet_id, start, replies, longer, (n - 1) as nat);
        assert(longer[n - 1] == replies[n - 1]);
    }
}

/// A rollback names exactly the coins whose creation or spend was above the fork. A coin that was
/// created above it is gone; any other coin is kept, as it was but for a spend above the fork,
/// which is taken back.
pub proof fn a_rollback_undoes_what_was_above(
    coins: Map<Seq<char>, CoinRecordView>,
    fork: u32,
    ids: Seq<String>,
    id: Seq<char>,
)
    requires
        touched(coins, fork, ids),
    ensures
        ({
            let after = rolled_back(coins, fork);
            let created_above = coins.contains_key(id) && (coins[id].created_height matches Some(
                height,
            ) && height > fork);
            let spent_above = coins.contains_key(id) && (coins[id].spent_height matches Some(height)
                && height > fork);
            &&& after.contains_key(id) <==> coins.contains_key(id) && !created_above
            &&& after.contains_key(id) && !spent_above ==> after[id] == coins[id]
            &&& after.contains_key(id) && spent_above ==> after[id] == (CoinRecordView {
                spent_height: None,
                ..coins[id]
            })
            &&& (exists|i: int| 0 <= i < ids.len() && (#[trigger] ids[i])@ == id)
                <==> created_above || spent_above
        }),
{
    assert(forgets(coins, fork, id) || !forgets(coins, fork, id));
    assert(unspends(coins, fork, id) || !unspends(coins, fork, id));
    if forgets(coins, fork, id) || unspends(coins, fork, id) {
        assert(super::state::named(ids, id));
    }
    if exists|i: int| 0 <= i < ids.len() && (#[trigger] ids[i])@ == id {
        let i = choose|i: int| 0 <= i < ids.len() && (#[trigger] ids[i])@ == id;
        assert(forgets(coins, fork, ids[i]@) || unspends(coins, fork, ids[i]@));
    }
}

/// Whether an event tells of a coin as it is after a rollback: a coin that is gone is unspent and
/// was never created, any other one is spent exactly if it still has a spend.
pub open spec fn tells_what_is_left(
    event: WalletEvent,
    id: String,
    coins: Map<Seq<char>, CoinRecordView>,
) -> bool {
    let left = coins.contains_key(id@);
    &&& event matches WalletEvent::CoinStateChanged { coin_id, spent, created_height, spent_height }
    &&& coin_id == id
    &&& spent <==> left && coins[id@].spent_height is Some
    &&& left ==> created_height == coins[id@].created_height && spent_height
        == coins[id@].spent_height
    &&& !left ==> created_height is None && spent_height is None
}

/// Whether a rollback ended where it should: every coin that it names is announced as it is now,
/// and last of all that the wallet is syncing from the fork, as it is.
pub open spec fn ends_at_the_fork(
    wallet_id: WalletId,
    before: Position,
    fork: u32,
    ids: Seq<String>,
    after: Position,
) -> bool {
    let told = announced(before, after);
    &&& after.state.lifecycle == SyncLifecycle::Syncing
    &&& after.state.peak_height == fork
    &&& after.state.target_height == fork
    &&& before.sink.outbox.is_prefix_of(after.sink.outbox)
    &&& told.len() == ids.len() + 1
    &&& forall|i: int|
        0 <= i < ids.len() ==> tells_what_is_left(
            (#[trigger] told[i]).event,
            ids[i],
            after.state.coins,
        )
    &&& told.last().event == (WalletEvent::SyncProgress {
        wallet_id,
        state: SyncLifecycle::Syncing,
        peak_height: fork,
        target_height: fork,
    })
}

/// A rollback announces each coin that it names, as the wallet has it afterwards, and then that
/// the wallet is syncing from the fork.
pub proof fn a_rollback_announces_what_is_left(
    wallet_id: WalletId,
    before: Position,
    fork: u32,
    ids: Seq<String>,
    state: WalletStateView,
)
    requires
        state.lifecycle == SyncLifecycle::Syncing,
        state.peak_height == fork,
        state.target_height == fork,
    ensures
        ends_at_the_fork(
            wallet_id,
            before,
            fork,
            ids,
            Position {
                state,
                sink: published(
                    published_all(before.sink, reorg_events(state.coins, ids)),
                    progress_event(wallet_id, SyncLifecycle::Syncing, fork),
                ),
            },
        ),
{
    let events = reorg_events(state.coins, ids);
    let middle = published_all(before.sink, events);
    let after = Position {
        state,
        sink: published(middle, progress_event(wallet_id, SyncLifecycle::Syncing, fork)),
    };
    lemma_outbox(before.sink, events);
    let told = announced(before, after);
    let from = before.sink.outbox.len() as int;
    assert forall|i: int| 0 <= i < ids.len() implies tells_what_is_left(
        (#[trigger] told[i]).event,
        ids[i],
        state.coins,
    ) by {
        assert(told[i] == after.sink.outbox[from + i]);
        assert(after.sink.outbox[from + i] == middle.outbox[from + i]);
        assert(told[i].event == events[i]);
        assert(events[i] == reorg_event(state.coins, ids[i]));
    }
    assert(told.last() == after.sink.outbox.last());
    assert(before.sink.outbox =~= after.sink.outbox.take(from));
}

/// With no wish for IPv6 the addresses are dialed as they came, and with it the order within a
/// family is as it came: of two addresses of one family, the one that came first is dialed first.
pub proof fn dialing_keeps_the_order_of_a_family(candidates: Seq<PeerAddress>, ipv6_first: bool)
    ensures
        !ipv6_first ==> dial_order(candidates, ipv6_first) == candidates,
        dial_order(candidates, ipv6_first).filter(|a: PeerAddress| a is V6) == candidates.filter(
            |a: PeerAddress| a is V6,
        ),
        dial_order(candidates, ipv6_first).filter(|a: PeerAddress| a is V4) == candidates.filter(
            |a: PeerAddress| a is V4,
        ),
{
    if ipv6_first {
        let v6 = |a: PeerAddress| a is V6;
        let v4 = |a: PeerAddress| a is V4;
        let first = candidates.filter(v6);
        let second = candidates.filter(v4);
        lemma_filter_again(candidates, v6, v6);
        lemma_filter_again(candidates, v6, v4);
        lemma_filter_again(candidates, v4, v6);
        lemma_filter_again(candidates, v4, v4);
        Seq::filter_distributes_over_add(first, second, v6);
        Seq::filter_distributes_over_add(first, second, v4);
        assert((first + second).filter(v6) =~= first);
        assert((first + second).filter(v4) =~= second);
    }
}

proof fn lemma_filter_again(
    candidates: Seq<PeerAddress>,
    one: spec_fn(PeerAddress) -> bool,
    two: spec_fn(PeerAddress) -> bool,
)
    ensures
        (forall|a: PeerAddress| #[trigger] one(a) ==> two(a)) ==> candidates.filter(one).filter(two)
            == candidates.filter(one),
        (forall|a: PeerAddress| #[trigger] one(a) ==> !two(a)) ==> candidates.filter(one).filter(
            two,
        ).len() == 0,
    decreases candidates.len(),
{
    reveal(Seq::filter);
    if candidates.len() > 0 {
        let front = candidates.drop_last();
        lemma_filter_again(front, one, two);
        if one(candidates.last()) {
            let kept = front.filter(one).push(candidates.last());
            assert(candidates.filter(one) == kept);
            assert(kept.drop_last() =~= front.filter(one));
        }
    }
}

} // verus!
