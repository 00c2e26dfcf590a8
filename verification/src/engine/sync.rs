//! Keeping the wallet state current.
//!
//! Coin updates come from a peer, or coin by coin from a fallback while the peer is out of reach.
//! Each is applied to the store and announced; a reorganization rolls the store back. The
//! transports are the caller's: the engine decides what to do with what they answer.

use vstd::prelude::*;

use super::events::{
    lemma_published_in_turn, published, published_all, EventSink, SinkView,
};
use super::selection::DEFAULT_COIN_CAP;
use super::state::{
    applied, change_of, coin_in, rolled_back, touched, CoinChange, InMemoryWalletStore,
    WalletStateView,
};
use super::sync_laws::{a_rollback_announces_what_is_left, ends_at_the_fork};
use crate::types::error::{WalletError, WalletErrorCode, WalletResult};
use crate::types::event::{Cursor, EmittedEvent, SyncLifecycle, WalletEvent};
use crate::types::identity::{IdentityRef, WalletId};
use crate::types::value::{CoinRecord, CoinRecordView, Puzzlehash};

verus! {

/// The settings of the sync loop.
#[derive(Debug, Clone, PartialEq, Eq)]
pub struct SyncConfig {
    /// Whether IPv6 addresses are dialed first.
    pub ipv6_first: bool,
    /// The most coins to track before they are worth consolidating.
    pub coin_cap: usize,
    /// Where to read single coins while syncing.
    pub fallback_endpoints: Vec<String>,
}

impl Default for SyncConfig {
    /// IPv6 first, the default coin cap, no fallback.
    fn default() -> (config: Self)
        ensures
            config.ipv6_first,
            config.coin_cap == DEFAULT_COIN_CAP,
            config.fallback_endpoints@.len() == 0,
    {
        SyncConfig {
            ipv6_first: true,
            coin_cap: DEFAULT_COIN_CAP,
            fallback_endpoints: Vec::new(),
        }
    }
}

/// An address to dial.
#[derive(Debug, Clone, Copy, PartialEq, Eq, PartialOrd, Ord, Hash, Structural)]
pub enum PeerAddress {
    /// An IPv4 address.
    V4 {
        /// The address.
        ip: u32,
        /// The port.
        port: u16,
    },
    /// An IPv6 address.
    V6 {
        /// The address.
        ip6: u128,
        /// The port.
        port: u16,
        /// The flow information.
        flowinfo: u32,
        /// The scope id.
        scope_id: u32,
    },
}

impl PeerAddress {
    /// Whether the address is an IPv6 address.
    pub fn is_ipv6(&self) -> (ipv6: bool)
        ensures
            ipv6 == (*self is V6),
    {
        match self {
            PeerAddress::V4 { .. } => false,
            PeerAddress::V6 { .. } => true,
        }
    }
}

/// The order in which addresses are dialed: IPv6 before IPv4 if so wished, else as they came.
/// Within a family the order stays.
pub open spec fn dial_order(candidates: Seq<PeerAddress>, ipv6_first: bool) -> Seq<PeerAddress> {
    if ipv6_first {
        candidates.filter(|a: PeerAddress| a is V6) + candidates.filter(
            |a: PeerAddress| a is V4,
        )
    } else {
        candidates
    }
}

/// Orders addresses for dialing.
pub fn order_dial_candidates(candidates: &[PeerAddress], ipv6_first: bool) -> (ordered: Vec<
    PeerAddress,
>)
    ensures
        ordered@ == dial_order(candidates@, ipv6_first),
{
    let mut first: Vec<PeerAddress> = Vec::new();
    let mut second: Vec<PeerAddress> = Vec::new();
    let ghost v6 = |a: PeerAddress| a is V6;
    let ghost v4 = |a: PeerAddress| a is V4;
    let mut i: usize = 0;
    proof {
        reveal(Seq::filter);
        assert(candidates@.take(0) =~= Seq::empty());
    }
    while i < candidates.len()
        invariant
            i <= candidates@.len(),
            v6 == (|a: PeerAddress| a is V6),
            v4 == (|a: PeerAddress| a is V4),
            ipv6_first ==> first@ == candidates@.take(i as int).filter(v6),
            ipv6_first ==> second@ == candidates@.take(i as int).filter(v4),
            !ipv6_first ==> first@ == candidates@.take(i as int),
            !ipv6_first ==> second@.len() == 0,
        decreases candidates@.len() - i,
    {
        proof {
            reveal(Seq::filter);
            assert(candidates@.take(i as int + 1).drop_last() =~= candidates@.take(i as int));
            assert(candidates@.take(i as int + 1) =~= candidates@.take(i as int).push(
                candidates@[i as int],
            ));
        }
        if !ipv6_first || candidates[i].is_ipv6() {
            first.push(candidates[i]);
        } else {
            second.push(candidates[i]);
        }
        i = i + 1;
    }
    assert(candidates@.take(i as int) =~= candidates@);
    first.append(&mut second);
    assert(first@ =~= dial_order(candidates@, ipv6_first));
    first
}

/// Ordering drops no address and adds none, and no IPv4 address is dialed before an IPv6 one.
pub proof fn dial_order_keeps_every_candidate(candidates: Seq<PeerAddress>, ipv6_first: bool)
    ensures
        dial_order(candidates, ipv6_first).to_multiset() == candidates.to_multiset(),
        ipv6_first ==> forall|i: int, j: int|
            0 <= i < j < dial_order(candidates, ipv6_first).len() && (#[trigger] dial_order(
                candidates,
                ipv6_first,
            )[j]) is V6 ==> (#[trigger] dial_order(candidates, ipv6_first)[i]) is V6,
    decreases candidates.len(),
{
    if ipv6_first {
        let v6 = |a: PeerAddress| a is V6;
        let v4 = |a: PeerAddress| a is V4;
        lemma_split(candidates, v6, v4);
        lemma_all_pass(candidates, v6);
        lemma_all_pass(candidates, v4);
        let order = dial_order(candidates, true);
        let n = candidates.filter(v6).len();
        assert forall|i: int, j: int| 0 <= i < j < order.len() && (#[trigger] order[j])
            is V6 implies (#[trigger] order[i]) is V6 by {
            if j >= n {
                assert(v4(candidates.filter(v4)[j - n]));
            }
            assert(v6(candidates.filter(v6)[i]));
        }
    }
}

proof fn lemma_all_pass(candidates: Seq<PeerAddress>, keep: spec_fn(PeerAddress) -> bool)
    ensures
        forall|i: int|
            0 <= i < candidates.filter(keep).len() ==> keep(
                #[trigger] candidates.filter(keep)[i],
            ),
    decreases candidates.len(),
{
    reveal(Seq::filter);
    if candidates.len() > 0 {
        lemma_all_pass(candidates.drop_last(), keep);
    }
}

proof fn lemma_split(
    candidates: Seq<PeerAddress>,
    one: spec_fn(PeerAddress) -> bool,
    two: spec_fn(PeerAddress) -> bool,
)
    requires
        forall|a: PeerAddress| #[trigger] one(a) != two(a),
    ensures
        (candidates.filter(one) + candidates.filter(two)).to_multiset()
            == candidates.to_multiset(),
    decreases candidates.len(),
{
    reveal(Seq::filter);
    broadcast use vstd::seq_lib::group_to_multiset_ensures;

    if candidates.len() > 0 {
        let front = candidates.drop_last();
        let last = candidates.last();
        lemma_split(front, one, two);
        assert(candidates =~= front.push(last));
        let a = front.filter(one);
        let b = front.filter(two);
        vstd::seq_lib::lemma_multiset_commutative(a, b);
        assert(one(last) != two(last));
        if one(last) {
            vstd::seq_lib::lemma_multiset_commutative(a.push(last), b);
        } else {
            vstd::seq_lib::lemma_multiset_commutative(a, b.push(last));
        }
        assert((candidates.filter(one) + candidates.filter(two)).to_multiset()
            =~= candidates.to_multiset());
    } else {
        assert(candidates.filter(one) + candidates.filter(two) =~= candidates);
    }
}

/// A peer that knows the coins of puzzle hashes. Nothing is promised of its answers.
pub trait PeerCoinSource {
    /// The current states of the coins of puzzle hashes.
    fn coin_states(&self, puzzle_hashes: &Vec<Puzzlehash>) -> (reply: WalletResult<
        Vec<CoinRecord>,
    >);
}

/// A source that knows single coins. Nothing is promised of its answers.
pub trait ChainFallback {
    /// The current state of a coin, if the source knows it.
    fn coin_state(&self, coin_id: &String) -> (reply: WalletResult<Option<CoinRecord>>);
}

/// The events that announce a coin change. Only a confirmed new coin is announced as inbound
/// value.
pub open spec fn change_events(
    wallet_id: WalletId,
    record: CoinRecord,
    change: CoinChange,
) -> Seq<WalletEvent> {
    let changed = WalletEvent::CoinStateChanged {
        coin_id: record.coin_id,
        spent: record.spent_height is Some,
        created_height: record.created_height,
        spent_height: record.spent_height,
    };
    match change {
        CoinChange::Unchanged => Seq::empty(),
        CoinChange::Created => match record.created_height {
            Some(confirmed_height) => seq![
                WalletEvent::FundsReceived {
                    wallet_id,
                    asset: None,
                    amount: record.amount,
                    coin_id: record.coin_id,
                    confirmed_height,
                },
                changed,
            ],
            None => seq![changed],
        },
        CoinChange::Spent => seq![changed],
        CoinChange::Updated => seq![changed],
    }
}

/// The state after the first `n` updates of a batch.
pub open spec fn batch_state(state: WalletStateView, records: Seq<CoinRecord>, n: nat) -> WalletStateView
    decreases n,
{
    if n == 0 {
        state
    } else {
        applied(batch_state(state, records, (n - 1) as nat), records[n - 1]@)
    }
}

/// How an update of a batch changes its coin.
pub open spec fn batch_change(state: WalletStateView, records: Seq<CoinRecord>, i: int) -> CoinChange {
    change_of(
        coin_in(batch_state(state, records, i as nat).coins, records[i].coin_id@),
        records[i]@,
    )
}

/// The events that announce the first `n` updates of a batch.
pub open spec fn batch_events(
    wallet_id: WalletId,
    state: WalletStateView,
    records: Seq<CoinRecord>,
    n: nat,
) -> Seq<WalletEvent>
    decreases n,
{
    if n == 0 {
        Seq::empty()
    } else {
        batch_events(wallet_id, state, records, (n - 1) as nat) + change_events(
            wallet_id,
            records[n - 1],
            batch_change(state, records, n - 1),
        )
    }
}

/// How many of the first `n` updates of a batch changed anything.
pub open spec fn batch_changed(state: WalletStateView, records: Seq<CoinRecord>, n: nat) -> nat
    decreases n,
{
    if n == 0 {
        0
    } else if batch_change(state, records, n - 1) == CoinChange::Unchanged {
        batch_changed(state, records, (n - 1) as nat)
    } else {
        batch_changed(state, records, (n - 1) as nat) + 1
    }
}

/// The larger of two heights.
pub open spec fn higher(a: u32, b: u32) -> u32 {
    if a >= b {
        a
    } else {
        b
    }
}

/// A height, or zero when it is unknown.
pub open spec fn known_height(height: Option<u32>) -> u32 {
    match height {
        Some(h) => h,
        None => 0,
    }
}

/// The highest height in the first `n` updates of a batch.
pub open spec fn batch_height(records: Seq<CoinRecord>, n: nat) -> u32
    decreases n,
{
    if n == 0 {
        0
    } else {
        higher(
            higher(
                batch_height(records, (n - 1) as nat),
                known_height(records[n - 1].created_height),
            ),
            known_height(records[n - 1].spent_height),
        )
    }
}

/// The state after a batch: every update applied in order, and the peak at least at the highest
/// height among them.
pub open spec fn ingested_state(state: WalletStateView, records: Seq<CoinRecord>) -> WalletStateView {
    let after = batch_state(state, records, records.len());
    WalletStateView {
        peak_height: higher(after.peak_height, batch_height(records, records.len())),
        ..after
    }
}

/// The sink after a batch.
pub open spec fn ingested_sink(
    wallet_id: WalletId,
    state: WalletStateView,
    sink: SinkView,
    records: Seq<CoinRecord>,
) -> SinkView {
    published_all(sink, batch_events(wallet_id, state, records, records.len()))
}

/// The announcement of sync progress.
pub open spec fn progress_event(wallet_id: WalletId, state: SyncLifecycle, height: u32) -> WalletEvent {
    WalletEvent::SyncProgress { wallet_id, state, peak_height: height, target_height: height }
}

/// A state that has caught up to its peak.
pub open spec fn synced_state(state: WalletStateView) -> WalletStateView {
    WalletStateView {
        lifecycle: SyncLifecycle::Synced,
        target_height: state.peak_height,
        ..state
    }
}

/// What a wallet holds and what was announced, before or after a step.
pub struct Position {
    /// The state of the wallet.
    pub state: WalletStateView,
    /// The sink.
    pub sink: SinkView,
}

/// A position after a batch.
pub open spec fn ingested(wallet_id: WalletId, at: Position, records: Seq<CoinRecord>) -> Position {
    Position {
        state: ingested_state(at.state, records),
        sink: ingested_sink(wallet_id, at.state, at.sink, records),
    }
}

/// A position after a wallet has caught up.
pub open spec fn caught_up(wallet_id: WalletId, at: Position) -> Position {
    Position {
        state: synced_state(at.state),
        sink: published(
            at.sink,
            progress_event(wallet_id, SyncLifecycle::Synced, at.state.peak_height),
        ),
    }
}

/// Whether a step does with a peer's answer what it should: coins are taken in and the wallet has
/// caught up; an error is handed on and changes nothing.
pub open spec fn follows_peer(
    wallet_id: WalletId,
    before: Position,
    reply: WalletResult<Vec<CoinRecord>>,
    after: Position,
    result: WalletResult<usize>,
) -> bool {
    match reply {
        Ok(records) => {
            &&& result matches Ok(changed) && changed == batch_changed(
                before.state,
                records@,
                records@.len(),
            )
            &&& after == caught_up(wallet_id, ingested(wallet_id, before, records@))
        },
        Err(error) => result == Err::<usize, WalletError>(error) && after == before,
    }
}

/// A position after the answer to a single-coin question.
pub open spec fn resolved(wallet_id: WalletId, at: Position, found: Option<CoinRecord>) -> Position {
    match found {
        Some(record) => ingested(wallet_id, at, seq![record]),
        None => at,
    }
}

/// How many coins the answer to a single-coin question changes.
pub open spec fn resolved_changed(state: WalletStateView, found: Option<CoinRecord>) -> nat {
    match found {
        Some(record) => batch_changed(state, seq![record], 1),
        None => 0,
    }
}

/// What the first `n` answers of a fallback lead to: the position, and how many coins changed, or
/// the first error, after which nothing is asked.
pub open spec fn fallback_run(
    wallet_id: WalletId,
    start: Position,
    replies: Seq<WalletResult<Option<CoinRecord>>>,
    n: nat,
) -> (Position, Result<nat, WalletError>)
    decreases n,
{
    if n == 0 {
        (start, Ok(0))
    } else {
        let (at, found) = fallback_run(wallet_id, start, replies, (n - 1) as nat);
        match found {
            Err(error) => (at, Err(error)),
            Ok(count) => match replies[n - 1] {
                Err(error) => (at, Err(error)),
                Ok(answer) => (
                    resolved(wallet_id, at, answer),
                    Ok(count + resolved_changed(at.state, answer)),
                ),
            },
        }
    }
}

/// The announcement of a coin after a rollback: as the store has it now.
pub open spec fn reorg_event(coins: Map<Seq<char>, CoinRecordView>, id: String) -> WalletEvent {
    match coin_in(coins, id@) {
        Some(coin) => WalletEvent::CoinStateChanged {
            coin_id: id,
            spent: coin.spent_height is Some,
            created_height: coin.created_height,
            spent_height: coin.spent_height,
        },
        None => WalletEvent::CoinStateChanged {
            coin_id: id,
            spent: false,
            created_height: None,
            spent_height: None,
        },
    }
}

/// The announcements of the coins that a rollback touched.
pub open spec fn reorg_events(coins: Map<Seq<char>, CoinRecordView>, ids: Seq<String>) -> Seq<
    WalletEvent,
> {
    ids.map_values(|id: String| reorg_event(coins, id))
}

/// Applies what the transports answer to the store and announces it.
#[derive(Debug)]
pub struct SyncEngine {
    config: SyncConfig,
    store: InMemoryWalletStore,
    events: EventSink,
}

impl SyncEngine {
    /// The store is in order.
    pub closed spec fn wf(self) -> bool {
        self.store.wf()
    }

    /// The state of a wallet.
    pub closed spec fn state(self, wallet_id: WalletId) -> WalletStateView {
        self.store.state(wallet_id)
    }

    /// The sink.
    pub closed spec fn sink(self) -> SinkView {
        self.events@
    }

    /// The state of a wallet and the sink.
    pub open spec fn position(self, wallet_id: WalletId) -> Position {
        Position { state: self.state(wallet_id), sink: self.sink() }
    }

    /// The settings.
    pub closed spec fn settings(self) -> SyncConfig {
        self.config
    }

    /// Whether every other wallet, and the settings, are as they were.
    pub open spec fn keeps(self, before: SyncEngine, wallet_id: WalletId) -> bool {
        &&& self.settings() == before.settings()
        &&& forall|other: WalletId|
            other != wallet_id ==> #[trigger] self.state(other) == before.state(other)
    }

    /// An engine over a store and a sink.
    pub fn new(config: SyncConfig, store: InMemoryWalletStore, events: EventSink) -> (engine: Self)
        requires
            store.wf(),
        ensures
            engine.wf(),
            engine.settings() == config,
            engine.sink() == events@,
            forall|id: WalletId| #[trigger] engine.state(id) == store.state(id),
    {
        SyncEngine { config, store, events }
    }

    /// The settings.
    pub fn config(&self) -> (config: &SyncConfig)
        ensures
            *config == self.settings(),
    {
        &self.config
    }

    /// The store.
    pub fn store(&self) -> (store: &InMemoryWalletStore)
        requires
            self.wf(),
        ensures
            store.wf(),
            forall|id: WalletId| #[trigger] store.state(id) == self.state(id),
    {
        &self.store
    }

    /// The sink.
    pub fn events(&self) -> (events: &EventSink)
        ensures
            events@ == self.sink(),
    {
        &self.events
    }

    /// Publishes an event of the host through the engine's emitter.
    pub fn publish(&mut self, event: WalletEvent) -> (cursor: Cursor)
        requires
            old(self).wf(),
        ensures
            final(self).wf(),
            cursor.0 == old(self).sink().next,
            final(self).sink() == published(old(self).sink(), event),
            final(self).settings() == old(self).settings(),
            forall|id: WalletId| #[trigger] final(self).state(id) == old(self).state(id),
    {
        self.events.publish(event)
    }

    /// Hands the waiting events to the live transport, oldest first.
    pub fn take_outbox(&mut self) -> (outbox: Vec<EmittedEvent>)
        requires
            old(self).wf(),
        ensures
            final(self).wf(),
            outbox@ == old(self).sink().outbox,
            final(self).sink() == (SinkView { outbox: Seq::empty(), ..old(self).sink() }),
            final(self).settings() == old(self).settings(),
            forall|id: WalletId| #[trigger] final(self).state(id) == old(self).state(id),
    {
        self.events.take_outbox()
    }

    /// Takes in a batch of coin updates for an identity: applies each, announces it and advances
    /// the peak. Says how many changed anything.
    pub fn ingest(&mut self, identity: &IdentityRef, records: Vec<CoinRecord>) -> (changed: usize)
        requires
            old(self).wf(),
        ensures
            final(self).wf(),
            final(self).position(identity.wallet_id) == ingested(
                identity.wallet_id,
                old(self).position(identity.wallet_id),
                records@,
            ),
            changed == batch_changed(
                old(self).state(identity.wallet_id),
                records@,
                records@.len(),
            ),
            final(self).keeps(*old(self), identity.wallet_id),
    {
        let wallet_id = identity.wallet_id;
        let ghost start = self.state(wallet_id);
        let ghost sink = self.sink();
        let mut changed: usize = 0;
        let mut max_height: u32 = 0;
        let mut i: usize = 0;
        while i < records.len()
            invariant
                self.wf(),
                wallet_id == identity.wallet_id,
                i <= records@.len(),
                self.keeps(*old(self), wallet_id),
                self.state(wallet_id) == batch_state(start, records@, i as nat),
                self.sink() == published_all(
                    sink,
                    batch_events(wallet_id, start, records@, i as nat),
                ),
                changed == batch_changed(start, records@, i as nat),
                changed <= i,
                max_height == batch_height(records@, i as nat),
            decreases records@.len() - i,
        {
            let ghost prev = *self;
            let record = &records[i];
            max_height = max(max_height, height_or_zero(record.created_height));
            max_height = max(max_height, height_or_zero(record.spent_height));
            let change = self.store.apply_coin_state(wallet_id, record.clone());
            proof {
                lemma_published_in_turn(
                    sink,
                    batch_events(wallet_id, start, records@, i as nat),
                    change_events(wallet_id, *record, change),
                );
            }
            if self.emit_for_change(identity, record, change) {
                changed = changed + 1;
            }
            proof {
                self.lemma_keeps(prev, *old(self), wallet_id);
            }
            i = i + 1;
        }
        let ghost prev = *self;
        if max_height > 0 {
            self.store.set_peak(wallet_id, max_height);
        }
        proof {
            self.lemma_keeps(prev, *old(self), wallet_id);
        }
        changed
    }

    proof fn lemma_keeps(self, middle: SyncEngine, before: SyncEngine, wallet_id: WalletId)
        requires
            middle.keeps(before, wallet_id),
            self.config == middle.config,
            forall|other: WalletId|
                other != wallet_id ==> #[trigger] self.store.state(other) == middle.store.state(
                    other,
                ),
        ensures
            self.keeps(before, wallet_id),
    {
        assert forall|other: WalletId| other != wallet_id implies #[trigger] self.state(other)
            == before.state(other) by {
            assert(middle.state(other) == before.state(other));
            assert(self.store.state(other) == middle.store.state(other));
        }
    }

    /// Announces a coin change, and says whether there was any.
    fn emit_for_change(
        &mut self,
        identity: &IdentityRef,
        record: &CoinRecord,
        change: CoinChange,
    ) -> (any: bool)
        requires
            old(self).wf(),
        ensures
            final(self).wf(),
            final(self).store == old(self).store,
            final(self).config == old(self).config,
            final(self).sink() == published_all(
                old(self).sink(),
                change_events(identity.wallet_id, *record, change),
            ),
            any == (change != CoinChange::Unchanged),
    {
        let ghost sink = self.sink();
        let ghost events = change_events(identity.wallet_id, *record, change);
        match change {
            CoinChange::Unchanged => return false,
            CoinChange::Created => match record.created_height {
                Some(height) => {
                    let _ = self.events.publish(
                        WalletEvent::FundsReceived {
                            wallet_id: identity.wallet_id,
                            asset: None,
                            amount: record.amount,
                            coin_id: record.coin_id.clone(),
                            confirmed_height: height,
                        },
                    );
                    proof {
                        assert(events.drop_last() =~= seq![events[0]]);
                        lemma_published_one(sink, events[0]);
                    }
                },
                None => {
                    assert(events.drop_last() =~= Seq::empty());
                },
            },
            CoinChange::Spent => {
                assert(events.drop_last() =~= Seq::empty());
            },
            CoinChange::Updated => {
                assert(events.drop_last() =~= Seq::empty());
            },
        }
        let event = WalletEvent::CoinStateChanged {
            coin_id: record.coin_id.clone(),
            spent: record.spent_height.is_some(),
            created_height: record.created_height,
            spent_height: record.spent_height,
        };
        assert(event == events.last());
        assert(self.sink() == published_all(sink, events.drop_last()));
        let _ = self.events.publish(event);
        true
    }

    /// Acts on a peer's answer.
    pub fn on_peer_reply(
        &mut self,
        identity: &IdentityRef,
        reply: WalletResult<Vec<CoinRecord>>,
    ) -> (result: WalletResult<usize>)
        requires
            old(self).wf(),
        ensures
            final(self).wf(),
            follows_peer(
                identity.wallet_id,
                old(self).position(identity.wallet_id),
                reply,
                final(self).position(identity.wallet_id),
                result,
            ),
            final(self).keeps(*old(self), identity.wallet_id),
    {
        match reply {
            Ok(records) => {
                let changed: usize = self.ingest(identity, records);
                self.mark_synced(identity);
                Ok(changed)
            },
            Err(error) => Err(error),
        }
    }

    /// Syncs from a peer.
    pub fn sync_from_peer<P: PeerCoinSource>(
        &mut self,
        identity: &IdentityRef,
        puzzle_hashes: &Vec<Puzzlehash>,
        peer: &P,
    ) -> (result: WalletResult<usize>)
        requires
            old(self).wf(),
            call_requires(P::coin_states, (peer, puzzle_hashes)),
        ensures
            final(self).wf(),
            exists|reply: WalletResult<Vec<CoinRecord>>|
                {
                    &&& #[trigger] call_ensures(P::coin_states, (peer, puzzle_hashes), reply)
                    &&& follows_peer(
                        identity.wallet_id,
                        old(self).position(identity.wallet_id),
                        reply,
                        final(self).position(identity.wallet_id),
                        result,
                    )
                },
            final(self).keeps(*old(self), identity.wallet_id),
    {
        let reply = peer.coin_states(puzzle_hashes);
        self.on_peer_reply(identity, reply)
    }

    /// Whether a peer's error sends the engine to the fallback: only one of transport does.
    pub fn falls_back(error: &WalletError) -> (falls_back: bool)
        ensures
            falls_back == (error.code == WalletErrorCode::Transport),
    {
        match error.code {
            WalletErrorCode::Transport => true,
            _ => false,
        }
    }

    /// Acts on a fallback's answer about one coin: hands the coin on, with how many coins it
    /// changed.
    pub fn on_fallback_reply(&mut self, identity: &IdentityRef, found: Option<CoinRecord>) -> (outcome:
        (Option<CoinRecord>, usize))
        requires
            old(self).wf(),
        ensures
            final(self).wf(),
            outcome.0 == found,
            outcome.1 == resolved_changed(old(self).state(identity.wallet_id), found),
            outcome.1 <= 1,
            final(self).position(identity.wallet_id) == resolved(
                identity.wallet_id,
                old(self).position(identity.wallet_id),
                found,
            ),
            final(self).keeps(*old(self), identity.wallet_id),
    {
        match found {
            Some(record) => {
                let batch = vec![record.clone()];
                assert(batch@ =~= seq![record]);
                let changed: usize = self.ingest(identity, batch);
                proof {
                    reveal_with_fuel(batch_changed, 2);
                }
                (Some(record), changed)
            },
            None => (None, 0),
        }
    }

    /// Acts on a fallback's answers about several coins, in their order, up to the first error.
    /// Says how many coins changed.
    pub fn on_fallback_replies(
        &mut self,
        identity: &IdentityRef,
        replies: Vec<WalletResult<Option<CoinRecord>>>,
    ) -> (result: WalletResult<usize>)
        requires
            old(self).wf(),
        ensures
            final(self).wf(),
            fallback_run(
                identity.wallet_id,
                old(self).position(identity.wallet_id),
                replies@,
                replies@.len(),
            ) == (
                final(self).position(identity.wallet_id),
                match result {
                    Ok(changed) => Ok(changed as nat),
                    Err(error) => Err(error),
                },
            ),
            final(self).keeps(*old(self), identity.wallet_id),
    {
        let wallet_id = identity.wallet_id;
        let ghost start = self.position(wallet_id);
        let ghost all = replies@;
        let count: usize = replies.len();
        let mut rest = replies;
        let mut changed: usize = 0;
        let mut i: usize = 0;
        assert(rest@ =~= all.skip(0));
        while rest.len() > 0
            invariant
                self.wf(),
                wallet_id == identity.wallet_id,
                i + rest@.len() == count == all.len(),
                all == replies@,
                rest@ == all.skip(i as int),
                changed <= i,
                self.keeps(*old(self), wallet_id),
                start == old(self).position(wallet_id),
                fallback_run(wallet_id, start, all, i as nat) == (
                    self.position(wallet_id),
                    Ok::<nat, WalletError>(changed as nat),
                ),
            decreases rest@.len(),
        {
            let reply = rest.remove(0);
            assert(reply == all[i as int]);
            match reply {
                Err(error) => {
                    proof {
                        lemma_fallback_stops(wallet_id, start, all, i as nat + 1, all.len());
                    }
                    return Err(error);
                },
                Ok(found) => {
                    let (_, more) = self.on_fallback_reply(identity, found);
                    changed = changed + more;
                },
            }
            i = i + 1;
            assert(rest@ =~= all.skip(i as int));
        }
        Ok(changed)
    }

    /// Syncs from a peer, or coin by coin from the fallback while the peer is out of reach.
    pub fn sync_with_fallback<P: PeerCoinSource, F: ChainFallback>(
        &mut self,
        identity: &IdentityRef,
        puzzle_hashes: &Vec<Puzzlehash>,
        coin_ids: &Vec<String>,
        peer: &P,
        fallback: &F,
    ) -> (result: WalletResult<usize>)
        requires
            old(self).wf(),
            call_requires(P::coin_states, (peer, puzzle_hashes)),
            forall|i: int|
                0 <= i < coin_ids@.len() ==> call_requires(
                    F::coin_state,
                    (fallback, &#[trigger] coin_ids@[i]),
                ),
        ensures
            final(self).wf(),
            exists|reply: WalletResult<Vec<CoinRecord>>|
                {
                    &&& #[trigger] call_ensures(P::coin_states, (peer, puzzle_hashes), reply)
                    &&& if reply matches Err(error) && error.code == WalletErrorCode::Transport {
                        follows_fallback(
                            identity.wallet_id,
                            old(self).position(identity.wallet_id),
                            fallback,
                            coin_ids@,
                            final(self).position(identity.wallet_id),
                            result,
                        )
                    } else {
                        follows_peer(
                            identity.wallet_id,
                            old(self).position(identity.wallet_id),
                            reply,
                            final(self).position(identity.wallet_id),
                            result,
                        )
                    }
                },
            final(self).keeps(*old(self), identity.wallet_id),
    {
        match peer.coin_states(puzzle_hashes) {
            Ok(records) => self.on_peer_reply(identity, Ok(records)),
            Err(error) => if SyncEngine::falls_back(&error) {
                self.sync_from_fallback(identity, coin_ids, fallback)
            } else {
                self.on_peer_reply(identity, Err(error))
            },
        }
    }

    /// Asks the fallback for coins, one by one, and says how many changed.
    fn sync_from_fallback<F: ChainFallback>(
        &mut self,
        identity: &IdentityRef,
        coin_ids: &Vec<String>,
        fallback: &F,
    ) -> (result: WalletResult<usize>)
        requires
            old(self).wf(),
            forall|i: int|
                0 <= i < coin_ids@.len() ==> call_requires(
                    F::coin_state,
                    (fallback, &#[trigger] coin_ids@[i]),
                ),
        ensures
            final(self).wf(),
            follows_fallback(
                identity.wallet_id,
                old(self).position(identity.wallet_id),
                fallback,
                coin_ids@,
                final(self).position(identity.wallet_id),
                result,
            ),
            final(self).keeps(*old(self), identity.wallet_id),
    {
        let wallet_id = identity.wallet_id;
        let ghost start = self.position(wallet_id);
        let ghost mut replies: Seq<WalletResult<Option<CoinRecord>>> = Seq::empty();
        let mut changed: usize = 0;
        let mut i: usize = 0;
        while i < coin_ids.len()
            invariant
                self.wf(),
                wallet_id == identity.wallet_id,
                i <= coin_ids@.len(),
                self.keeps(*old(self), wallet_id),
                start == old(self).position(wallet_id),
                replies.len() == i,
                changed <= i,
                forall|k: int|
                    0 <= k < coin_ids@.len() ==> call_requires(
                        F::coin_state,
                        (fallback, &#[trigger] coin_ids@[k]),
                    ),
                forall|k: int|
                    0 <= k < i ==> call_ensures(
                        F::coin_state,
                        (fallback, &coin_ids@[k]),
                        #[trigger] replies[k],
                    ),
                fallback_run(wallet_id, start, replies, i as nat) == (
                    self.position(wallet_id),
                    Ok::<nat, WalletError>(changed as nat),
                ),
            decreases coin_ids@.len() - i,
        {
            let reply = self.ask_fallback(&coin_ids[i], fallback);
            proof {
                let longer = replies.push(reply);
                lemma_fallback_prefix(wallet_id, start, replies, longer, i as nat);
                replies = longer;
                assert(answers(fallback, coin_ids@, replies));
            }
            match reply {
                Err(error) => return Err(error),
                Ok(found) => {
                    let (_, more) = self.on_fallback_reply(identity, found);
                    changed = changed + more;
                },
            }
            i = i + 1;
        }
        assert(answers(fallback, coin_ids@, replies));
        Ok(changed)
    }

    /// Asks the fallback for one coin.
    fn ask_fallback<F: ChainFallback>(&self, coin_id: &String, fallback: &F) -> (reply: WalletResult<
        Option<CoinRecord>,
    >)
        requires
            call_requires(F::coin_state, (fallback, coin_id)),
        ensures
            call_ensures(F::coin_state, (fallback, coin_id), reply),
    {
        fallback.coin_state(coin_id)
    }

    /// Reads a coin from the store, else from the fallback, and takes in what the fallback knows.
    pub fn resolve_coin<F: ChainFallback>(
        &mut self,
        identity: &IdentityRef,
        coin_id: &String,
        fallback: &F,
    ) -> (result: WalletResult<Option<CoinRecord>>)
        requires
            old(self).wf(),
            call_requires(F::coin_state, (fallback, coin_id)),
        ensures
            final(self).wf(),
            match coin_in(old(self).state(identity.wallet_id).coins, coin_id@) {
                Some(known) => {
                    &&& result matches Ok(Some(coin)) && coin@ == known
                    &&& final(self).position(identity.wallet_id) == old(self).position(
                        identity.wallet_id,
                    )
                },
                None => exists|reply: WalletResult<Option<CoinRecord>>|
                    {
                        &&& #[trigger] call_ensures(F::coin_state, (fallback, coin_id), reply)
                        &&& result == reply
                        &&& final(self).position(identity.wallet_id) == match reply {
                            Ok(found) => resolved(
                                identity.wallet_id,
                                old(self).position(identity.wallet_id),
                                found,
                            ),
                            Err(_) => old(self).position(identity.wallet_id),
                        }
                    },
            },
            final(self).keeps(*old(self), identity.wallet_id),
    {
        match self.store.coin(identity.wallet_id, coin_id.as_str()) {
            Some(local) => Ok(Some(local)),
            None => match self.ask_fallback(coin_id, fallback) {
                Err(error) => Err(error),
                Ok(found) => Ok(self.on_fallback_reply(identity, found).0),
            },
        }
    }

    /// Handles a reorganization: rolls the store back to the fork, announces every coin that it
    /// touched as the store now has it, and announces that the wallet is syncing from the fork.
    pub fn handle_reorg(&mut self, identity: &IdentityRef, fork_height: u32) -> (affected: Vec<
        String,
    >)
        requires
            old(self).wf(),
        ensures
            final(self).wf(),
            touched(old(self).state(identity.wallet_id).coins, fork_height, affected@),
            final(self).state(identity.wallet_id) == (WalletStateView {
                coins: rolled_back(old(self).state(identity.wallet_id).coins, fork_height),
                peak_height: fork_height,
                target_height: fork_height,
                lifecycle: SyncLifecycle::Syncing,
                ..old(self).state(identity.wallet_id)
            }),
            final(self).sink() == published(
                published_all(
                    old(self).sink(),
                    reorg_events(
                        rolled_back(old(self).state(identity.wallet_id).coins, fork_height),
                        affected@,
                    ),
                ),
                progress_event(identity.wallet_id, SyncLifecycle::Syncing, fork_height),
            ),
            ends_at_the_fork(
                identity.wallet_id,
                old(self).position(identity.wallet_id),
                fork_height,
                affected@,
                final(self).position(identity.wallet_id),
            ),
            final(self).keeps(*old(self), identity.wallet_id),
    {
        let wallet_id = identity.wallet_id;
        let ghost sink = self.sink();
        let affected = self.store.rollback_to(wallet_id, fork_height);
        let ghost coins = self.state(wallet_id).coins;
        let ghost events = reorg_events(coins, affected@);
        let mut i: usize = 0;
        assert(events.take(0) =~= Seq::empty());
        while i < affected.len()
            invariant
                self.wf(),
                wallet_id == identity.wallet_id,
                i <= affected@.len(),
                self.keeps(*old(self), wallet_id),
                self.state(wallet_id) == (WalletStateView {
                    coins: rolled_back(old(self).state(wallet_id).coins, fork_height),
                    peak_height: fork_height,
                    ..old(self).state(wallet_id)
                }),
                coins == self.state(wallet_id).coins,
                events == reorg_events(coins, affected@),
                self.sink() == published_all(sink, events.take(i as int)),
            decreases affected@.len() - i,
        {
            let ghost prev = *self;
            let coin = self.store.coin(wallet_id, affected[i].as_str());
            let event = match coin {
                Some(coin) => WalletEvent::CoinStateChanged {
                    coin_id: affected[i].clone(),
                    spent: coin.spent_height.is_some(),
                    created_height: coin.created_height,
                    spent_height: coin.spent_height,
                },
                None => WalletEvent::CoinStateChanged {
                    coin_id: affected[i].clone(),
                    spent: false,
                    created_height: None,
                    spent_height: None,
                },
            };
            let _ = self.events.publish(event);
            proof {
                self.lemma_keeps(prev, *old(self), wallet_id);
                assert(event == events[i as int]);
                assert(events.take(i as int + 1).drop_last() =~= events.take(i as int));
                assert(events.take(i as int + 1).last() == events[i as int]);
            }
            i = i + 1;
        }
        assert(events.take(i as int) =~= events);
        let ghost prev = *self;
        self.store.set_sync_status(wallet_id, SyncLifecycle::Syncing, fork_height);
        self.publish_progress(identity, SyncLifecycle::Syncing, fork_height);
        proof {
            a_rollback_announces_what_is_left(
                wallet_id,
                old(self).position(wallet_id),
                fork_height,
                affected@,
                self.state(wallet_id),
            );
            self.lemma_keeps(prev, *old(self), wallet_id);
        }
        affected
    }

    /// Marks a wallet as caught up to its peak, and announces it.
    fn mark_synced(&mut self, identity: &IdentityRef)
        requires
            old(self).wf(),
        ensures
            final(self).wf(),
            final(self).position(identity.wallet_id) == caught_up(
                identity.wallet_id,
                old(self).position(identity.wallet_id),
            ),
            final(self).keeps(*old(self), identity.wallet_id),
    {
        let peak: u32 = self.store.peak_height(identity.wallet_id);
        self.store.set_sync_status(identity.wallet_id, SyncLifecycle::Synced, peak);
        self.publish_progress(identity, SyncLifecycle::Synced, peak);
    }

    /// Announces sync progress.
    fn publish_progress(&mut self, identity: &IdentityRef, state: SyncLifecycle, peak: u32)
        requires
            old(self).wf(),
        ensures
            final(self).wf(),
            final(self).store == old(self).store,
            final(self).config == old(self).config,
            final(self).sink() == published(
                old(self).sink(),
                progress_event(identity.wallet_id, state, peak),
            ),
    {
        let _ = self.events.publish(
            WalletEvent::SyncProgress {
                wallet_id: identity.wallet_id,
                state,
                peak_height: peak,
                target_height: peak,
            },
        );
    }
}

/// Whether a step did with the fallback's answers what it should: each coin was asked for in
/// order until an error, and what was found was taken in.
pub open spec fn follows_fallback<F: ChainFallback>(
    wallet_id: WalletId,
    before: Position,
    fallback: &F,
    coin_ids: Seq<String>,
    after: Position,
    result: WalletResult<usize>,
) -> bool {
    exists|replies: Seq<WalletResult<Option<CoinRecord>>>|
        {
            &&& #[trigger] answers(fallback, coin_ids, replies)
            &&& fallback_run(wallet_id, before, replies, replies.len()).0 == after
            &&& match result {
                Ok(changed) => replies.len() == coin_ids.len() && fallback_run(
                    wallet_id,
                    before,
                    replies,
                    replies.len(),
                ).1 == Ok::<nat, WalletError>(changed as nat),
                Err(error) => fallback_run(wallet_id, before, replies, replies.len()).1 == Err::<
                    nat,
                    WalletError,
                >(error),
            }
        }
}

/// Whether these are answers of the fallback to the first of the coins, in order.
pub open spec fn answers<F: ChainFallback>(
    fallback: &F,
    coin_ids: Seq<String>,
    replies: Seq<WalletResult<Option<CoinRecord>>>,
) -> bool {
    &&& replies.len() <= coin_ids.len()
    &&& forall|k: int|
        0 <= k < replies.len() ==> call_ensures(
            F::coin_state,
            (fallback, &coin_ids[k]),
            #[trigger] replies[k],
        )
}

proof fn lemma_published_one(sink: SinkView, event: WalletEvent)
    ensures
        published_all(sink, seq![event]) == published(sink, event),
{
    assert(seq![event].drop_last() =~= Seq::empty());
    assert(published_all(sink, Seq::empty()) == sink);
}

/// After an error nothing changes any more.
proof fn lemma_fallback_stops(
    wallet_id: WalletId,
    start: Position,
    replies: Seq<WalletResult<Option<CoinRecord>>>,
    i: nat,
    n: nat,
)
    requires
        i <= n,
        fallback_run(wallet_id, start, replies, i).1 is Err,
    ensures
        fallback_run(wallet_id, start, replies, n) == fallback_run(wallet_id, start, replies, i),
    decreases n - i,
{
    if i < n {
        lemma_fallback_stops(wallet_id, start, replies, i, (n - 1) as nat);
    }
}

proof fn lemma_fallback_prefix(
    wallet_id: WalletId,
    start: Position,
    replies: Seq<WalletResult<Option<CoinRecord>>>,
    longer: Seq<WalletResult<Option<CoinRecord>>>,
    n: nat,
)
    requires
        n <= replies.len() <= longer.len(),
        forall|k: int| 0 <= k < replies.len() ==> #[trigger] longer[k] == replies[k],
    ensures
        fallback_run(wallet_id, start, replies, n) == fallback_run(wallet_id, start, longer, n),
    decreases n,
{
    if n > 0 {
        lemma_fallback_prefix(wallet_id, start, replies, longer, (n - 1) as nat);
        assert(longer[n - 1] == replies[n - 1]);
    }
}

/// A height, or zero when it is unknown.
fn height_or_zero(height: Option<u32>) -> (known: u32)
    ensures
        known == known_height(height),
{
    match height {
        Some(h) => h,
        None => 0,
    }
}

/// The larger of two heights.
fn max(a: u32, b: u32) -> (larger: u32)
    ensures
        larger == higher(a, b),
{
    if a >= b {
        a
    } else {
        b
    }
}

/// Whether no coin occurs twice in a batch.
pub open spec fn distinct_coins(records: Seq<CoinRecord>) -> bool {
    forall|i: int, j: int|
        0 <= i < j < records.len() ==> (#[trigger] records[i]).coin_id@ != (
        #[trigger] records[j]).coin_id@
}

proof fn lemma_batch_holds(state: WalletStateView, records: Seq<CoinRecord>, n: nat)
    requires
        n <= records.len(),
        distinct_coins(records),
    ensures
        forall|i: int|
            0 <= i < n ==> coin_in(
                batch_state(state, records, n).coins,
                (#[trigger] records[i]).coin_id@,
            ) == Some(records[i]@),
        batch_state(state, records, n) == (WalletStateView {
            coins: batch_state(state, records, n).coins,
            ..state
        }),
    decreases n,
{
    if n > 0 {
        lemma_batch_holds(state, records, (n - 1) as nat);
        assert forall|i: int| 0 <= i < n implies coin_in(
            batch_state(state, records, n).coins,
            (#[trigger] records[i]).coin_id@,
        ) == Some(records[i]@) by {
            if i < n - 1 {
                assert(records[i].coin_id@ != records[n - 1].coin_id@);
            }
        }
    }
}

proof fn lemma_quiet_batch(
    wallet_id: WalletId,
    state: WalletStateView,
    records: Seq<CoinRecord>,
    n: nat,
)
    requires
        n <= records.len(),
        forall|i: int|
            0 <= i < records.len() ==> coin_in(state.coins, (#[trigger] records[i]).coin_id@)
                == Some(records[i]@),
    ensures
        batch_state(state, records, n) == state,
        batch_events(wallet_id, state, records, n) == Seq::<WalletEvent>::empty(),
        batch_changed(state, records, n) == 0,
    decreases n,
{
    if n > 0 {
        lemma_quiet_batch(wallet_id, state, records, (n - 1) as nat);
        let record = records[n - 1];
        assert(coin_in(state.coins, record.coin_id@) == Some(record@));
        assert(state.coins.insert(record.coin_id@, record@) =~= state.coins);
        assert(batch_events(wallet_id, state, records, n) =~= Seq::empty());
    }
}

/// Taking in a batch again, in which no coin occurs twice, announces nothing and changes nothing.
pub proof fn reingesting_changes_nothing(
    wallet_id: WalletId,
    at: Position,
    records: Seq<CoinRecord>,
)
    requires
        distinct_coins(records),
    ensures
        ingested(wallet_id, ingested(wallet_id, at, records), records) == ingested(
            wallet_id,
            at,
            records,
        ),
        batch_changed(ingested(wallet_id, at, records).state, records, records.len()) == 0,
{
    lemma_batch_holds(at.state, records, records.len());
    let once = ingested(wallet_id, at, records);
    assert forall|i: int| 0 <= i < records.len() implies coin_in(
        once.state.coins,
        (#[trigger] records[i]).coin_id@,
    ) == Some(records[i]@) by {}
    lemma_quiet_batch(wallet_id, once.state, records, records.len());
}

/// An answer about a coin counts exactly if it changes the coin: one that says what the store has
/// already does not, and neither does one that knows no coin.
pub proof fn an_answer_counts_if_it_changes(state: WalletStateView, record: CoinRecord)
    ensures
        resolved_changed(state, None) == 0,
        resolved_changed(state, Some(record)) == if change_of(
            coin_in(state.coins, record.coin_id@),
            record@,
        ) == CoinChange::Unchanged {
            0nat
        } else {
            1nat
        },
        coin_in(state.coins, record.coin_id@) == Some(record@) ==> resolved_changed(
            state,
            Some(record),
        ) == 0,
{
    reveal_with_fuel(batch_changed, 2);
    reveal_with_fuel(batch_state, 2);
    assert(seq![record][0] == record);
}

/// A batch never takes the peak back.
pub proof fn a_batch_never_lowers_the_peak(state: WalletStateView, records: Seq<CoinRecord>)
    ensures
        ingested_state(state, records).peak_height >= state.peak_height,
{
    lemma_batch_peak(state, records, records.len());
}

proof fn lemma_batch_peak(state: WalletStateView, records: Seq<CoinRecord>, n: nat)
    ensures
        batch_state(state, records, n).peak_height == state.peak_height,
    decreases n,
{
    if n > 0 {
        lemma_batch_peak(state, records, (n - 1) as nat);
    }
}

} // verus!
