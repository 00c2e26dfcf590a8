//! Syncing from peers and the fallback.

use std::cell::Cell;

use dig_wallet_backend::engine::events::EventSink;
use dig_wallet_backend::engine::state::InMemoryWalletStore;
use dig_wallet_backend::engine::sync::{
    order_dial_candidates, ChainFallback, PeerAddress, PeerCoinSource, SyncConfig, SyncEngine,
};
use dig_wallet_backend::types::{
    Amount, CoinRecord, EventKind, IdentityRef, Puzzlehash, SyncLifecycle, WalletError,
    WalletErrorCode, WalletId, WalletResult,
};

fn engine() -> SyncEngine {
    SyncEngine::new(SyncConfig::default(), InMemoryWalletStore::new(), EventSink::new(64))
}

fn identity(id: u32) -> IdentityRef {
    IdentityRef::new(WalletId(id))
}

fn coin(id: &str, amount: u64, created: Option<u32>, spent: Option<u32>) -> CoinRecord {
    CoinRecord {
        coin_id: id.into(),
        puzzle_hash: Puzzlehash("ph".into()),
        amount: Amount(amount),
        created_height: created,
        spent_height: spent,
    }
}

/// The kinds of the events that wait, drained.
fn drain_kinds(engine: &mut SyncEngine) -> Vec<EventKind> {
    engine.take_outbox().iter().map(|emitted| emitted.event.kind()).collect()
}

struct MockPeer(WalletResult<Vec<CoinRecord>>);

impl PeerCoinSource for MockPeer {
    fn coin_states(&self, _: &Vec<Puzzlehash>) -> WalletResult<Vec<CoinRecord>> {
        self.0.clone()
    }
}

struct MockFallback {
    coins: Vec<CoinRecord>,
    calls: Cell<usize>,
}

impl MockFallback {
    fn new(coins: Vec<CoinRecord>) -> Self {
        Self { coins, calls: Cell::new(0) }
    }
    fn call_count(&self) -> usize {
        self.calls.get()
    }
}

impl ChainFallback for MockFallback {
    fn coin_state(&self, coin_id: &String) -> WalletResult<Option<CoinRecord>> {
        self.calls.set(self.calls.get() + 1);
        Ok(self.coins.iter().find(|c| c.coin_id == *coin_id).cloned())
    }
}

fn v4() -> PeerAddress {
    PeerAddress::V4 { ip: 0x0102_0304, port: 9256 }
}

fn v6() -> PeerAddress {
    PeerAddress::V6 {
        ip6: 0x2001_0db8_0000_0000_0000_0000_0000_0001,
        port: 9256,
        flowinfo: 0,
        scope_id: 0,
    }
}

fn failing(code: WalletErrorCode, message: &str) -> MockPeer {
    MockPeer(Err(WalletError::new(code, message.into())))
}

#[test]
fn defaults_are_ipv6_first() {
    let cfg = SyncConfig::default();
    assert!(cfg.ipv6_first, "peers are dialed over IPv6 first");
    assert_eq!(cfg.coin_cap, 500);
    assert!(cfg.fallback_endpoints.is_empty());
}

#[test]
fn dial_candidates_put_ipv6_first() {
    let ordered = order_dial_candidates(&[v4(), v6()], true);
    assert!(ordered[0].is_ipv6(), "IPv6 must be dialed before IPv4");
    assert!(!ordered[1].is_ipv6());
}

#[test]
fn dial_candidates_preserve_order_when_not_ipv6_first() {
    let ordered = order_dial_candidates(&[v4(), v6()], false);
    assert!(!ordered[0].is_ipv6());
}

#[test]
fn config_accessor_returns_the_config() {
    let e = engine();
    assert!(e.config().ipv6_first);
}

#[test]
fn ingest_a_new_coin_emits_funds_received_and_coin_state_changed() {
    let mut e = engine();
    let id = identity(1);
    let changed = e.ingest(&id, vec![coin("a", 100, Some(5), None)]);
    assert_eq!(changed, 1);
    let kinds = drain_kinds(&mut e);
    assert!(kinds.contains(&EventKind::FundsReceived));
    assert!(kinds.contains(&EventKind::CoinStateChanged));
    assert_eq!(e.store().peak_height(id.wallet_id), 5);
}

#[test]
fn re_ingesting_an_identical_coin_emits_nothing() {
    let mut e = engine();
    let id = identity(1);
    e.ingest(&id, vec![coin("a", 100, Some(5), None)]);
    drain_kinds(&mut e);
    let changed = e.ingest(&id, vec![coin("a", 100, Some(5), None)]);
    assert_eq!(changed, 0);
    assert!(drain_kinds(&mut e).is_empty());
}

#[test]
fn spending_a_coin_emits_only_coin_state_changed() {
    let mut e = engine();
    let id = identity(1);
    e.ingest(&id, vec![coin("a", 100, Some(5), None)]);
    drain_kinds(&mut e);
    e.ingest(&id, vec![coin("a", 100, Some(5), Some(9))]);
    assert_eq!(drain_kinds(&mut e), vec![EventKind::CoinStateChanged]);
}

#[test]
fn sync_from_peer_ingests_and_marks_synced() {
    let mut e = engine();
    let id = identity(1);
    let peer = MockPeer(Ok(vec![coin("a", 100, Some(5), None)]));
    let changed = e.sync_from_peer(&id, &vec![], &peer).unwrap();
    assert_eq!(changed, 1);
    assert_eq!(e.store().sync_status(&id).unwrap().state, SyncLifecycle::Synced);
}

#[test]
fn sync_from_peer_propagates_a_transport_error() {
    let mut e = engine();
    let peer = failing(WalletErrorCode::Transport, "no peer");
    let err = e.sync_from_peer(&identity(1), &vec![], &peer).unwrap_err();
    assert_eq!(err.code, WalletErrorCode::Transport);
}

#[test]
fn resolve_coin_reads_local_without_touching_fallback() {
    let mut e = engine();
    let id = identity(1);
    e.ingest(&id, vec![coin("a", 100, Some(5), None)]);
    let fallback = MockFallback::new(vec![]);
    let got = e.resolve_coin(&id, &"a".into(), &fallback).unwrap();
    assert!(got.is_some());
    assert_eq!(fallback.call_count(), 0, "in-DB read must not hit fallback");
}

#[test]
fn resolve_coin_falls_back_for_an_out_of_db_read() {
    let mut e = engine();
    let id = identity(1);
    let fallback = MockFallback::new(vec![coin("z", 7, Some(3), None)]);
    let got = e.resolve_coin(&id, &"z".into(), &fallback).unwrap();
    assert_eq!(got.unwrap().amount, Amount(7));
    assert_eq!(fallback.call_count(), 1);
    assert!(e.store().coin(id.wallet_id, "z").is_some());
}

#[test]
fn resolve_coin_returns_none_when_neither_source_has_it() {
    let mut e = engine();
    let fallback = MockFallback::new(vec![]);
    let got = e.resolve_coin(&identity(1), &"ghost".into(), &fallback).unwrap();
    assert!(got.is_none());
}

#[test]
fn sync_with_fallback_uses_the_peer_when_it_is_reachable() {
    let mut e = engine();
    let id = identity(1);
    let peer = MockPeer(Ok(vec![coin("a", 100, Some(5), None)]));
    let fallback = MockFallback::new(vec![]);
    let changed =
        e.sync_with_fallback(&id, &vec![], &vec!["a".into()], &peer, &fallback).unwrap();
    assert_eq!(changed, 1);
    assert_eq!(fallback.call_count(), 0, "peer reachable, so no fallback");
}

#[test]
fn sync_with_fallback_routes_to_chain_query_when_peer_unavailable() {
    let mut e = engine();
    let id = identity(1);
    let peer = failing(WalletErrorCode::Transport, "no peer");
    let fallback = MockFallback::new(vec![coin("a", 42, Some(3), None)]);
    let changed =
        e.sync_with_fallback(&id, &vec![], &vec!["a".into()], &peer, &fallback).unwrap();
    assert_eq!(changed, 1, "coin resolved via fallback");
    assert_eq!(fallback.call_count(), 1, "peer down, so the fallback is used");
    assert_eq!(e.store().balance(&id).unwrap().confirmed, Amount(42));
}

#[test]
fn sync_with_fallback_propagates_non_transport_errors() {
    let mut e = engine();
    let peer = failing(WalletErrorCode::Storage, "db exploded");
    let fallback = MockFallback::new(vec![]);
    let err = e
        .sync_with_fallback(&identity(1), &vec![], &vec![], &peer, &fallback)
        .unwrap_err();
    assert_eq!(err.code, WalletErrorCode::Storage);
}

#[test]
fn reorg_rolls_back_emits_events_and_reverts_peak() {
    let mut e = engine();
    let id = identity(1);
    e.ingest(&id, vec![coin("keep", 10, Some(3), None)]);
    e.ingest(&id, vec![coin("drop", 20, Some(8), None)]);
    assert_eq!(e.store().balance(&id).unwrap().confirmed, Amount(30));
    drain_kinds(&mut e);
    let affected = e.handle_reorg(&id, 5);
    assert_eq!(affected, vec!["drop".to_string()]);
    assert_eq!(e.store().balance(&id).unwrap().confirmed, Amount(10));
    let status = e.store().sync_status(&id).unwrap();
    assert_eq!(status.peak_height, 5);
    assert_eq!(status.state, SyncLifecycle::Syncing);
    let kinds = drain_kinds(&mut e);
    assert!(kinds.contains(&EventKind::CoinStateChanged));
    assert!(kinds.contains(&EventKind::SyncProgress));
}

#[test]
fn reorg_unspends_a_coin_spent_above_the_fork() {
    let mut e = engine();
    let id = identity(1);
    e.ingest(&id, vec![coin("a", 100, Some(2), Some(9))]);
    assert_eq!(e.store().balance(&id).unwrap().confirmed, Amount(0));
    e.handle_reorg(&id, 5);
    assert_eq!(e.store().balance(&id).unwrap().confirmed, Amount(100));
}

#[test]
fn an_ingest_never_lowers_the_peak() {
    let mut e = engine();
    let id = identity(1);
    e.ingest(&id, vec![coin("a", 1, Some(50), None)]);
    e.ingest(&id, vec![coin("b", 1, Some(7), None)]);
    assert_eq!(e.store().peak_height(id.wallet_id), 50);
}

#[test]
fn only_an_unreachable_peer_is_worked_around() {
    for code in [WalletErrorCode::Transport, WalletErrorCode::Storage] {
        let falls_back = SyncEngine::falls_back(&WalletError::new(code, "x".into()));
        assert_eq!(falls_back, code == WalletErrorCode::Transport);
    }
}

#[test]
fn a_reread_coin_that_did_not_change_is_not_counted() {
    let mut e = engine();
    let id = identity(1);
    e.ingest(&id, vec![coin("a", 42, Some(3), None)]);
    let peer = failing(WalletErrorCode::Transport, "no peer");
    let fallback = MockFallback::new(vec![coin("a", 42, Some(3), None), coin("b", 1, Some(4), None)]);
    let same = e.sync_with_fallback(&id, &vec![], &vec!["a".into()], &peer, &fallback).unwrap();
    assert_eq!(same, 0);
    let ids = vec!["a".into(), "b".into(), "ghost".into()];
    let more = e.sync_with_fallback(&id, &vec![], &ids, &peer, &fallback).unwrap();
    assert_eq!(more, 1);
}

#[test]
fn fallback_answers_count_up_to_the_first_error() {
    let mut e = engine();
    let id = identity(1);
    let (found, changed) = e.on_fallback_reply(&id, Some(coin("a", 1, Some(2), None)));
    assert_eq!((found.unwrap().coin_id, changed), ("a".to_string(), 1));
    let replies = vec![
        Ok(Some(coin("a", 1, Some(2), None))),
        Ok(None),
        Ok(Some(coin("b", 1, Some(2), None))),
    ];
    assert_eq!(e.on_fallback_replies(&id, replies).unwrap(), 1);
    let replies = vec![
        Ok(Some(coin("c", 1, Some(2), None))),
        Err(WalletError::new(WalletErrorCode::Storage, "gone".into())),
        Ok(Some(coin("d", 1, Some(2), None))),
    ];
    let err = e.on_fallback_replies(&id, replies).unwrap_err();
    assert_eq!(err.code, WalletErrorCode::Storage);
    assert!(e.store().coin(id.wallet_id, "c").is_some());
    assert!(e.store().coin(id.wallet_id, "d").is_none());
}
