//! Publishing events and catching up.

use std::cell::RefCell;

use dig_wallet_backend::engine::events::{EventSink, PersistentEventLog};
use dig_wallet_backend::types::{
    Amount, Cursor, EmittedEvent, EventFilter, EventKind, WalletError, WalletErrorCode,
    WalletEvent, WalletId, WalletResult,
};

fn tip(height: u32) -> WalletEvent {
    WalletEvent::NewTip { height, header_hash: format!("{height:064x}") }
}

fn funds_received(coin: &str) -> WalletEvent {
    WalletEvent::FundsReceived {
        wallet_id: WalletId(1),
        asset: None,
        amount: Amount(100),
        coin_id: coin.into(),
        confirmed_height: 10,
    }
}

#[test]
fn publish_stamps_monotonic_cursors() {
    let mut sink = EventSink::new(16);
    assert_eq!(sink.publish(tip(1)), Cursor(1));
    assert_eq!(sink.publish(tip(2)), Cursor(2));
    assert_eq!(sink.publish(tip(3)), Cursor(3));
}

#[test]
fn subscriber_receives_published_events_in_order() {
    let mut sink = EventSink::new(16);
    sink.publish(tip(10));
    sink.publish(tip(11));
    let received = sink.take_outbox();
    assert_eq!(received.len(), 2);
    assert_eq!(received[0].cursor, Cursor(1));
    assert_eq!(received[1].cursor, Cursor(2));
    assert_eq!(received[0].event, tip(10));
    assert!(sink.take_outbox().is_empty());
}

#[test]
fn publish_with_no_subscribers_is_a_noop() {
    let mut sink = EventSink::new(4);
    let c = sink.publish(WalletEvent::Derivation { wallet_id: WalletId(1), index: 0 });
    assert_eq!(c, Cursor(1));
}

#[test]
fn catch_up_backfills_events_strictly_after_the_cursor() {
    let mut sink = EventSink::new(16);
    sink.publish(tip(1));
    sink.publish(tip(2));
    sink.publish(tip(3));
    let missed = sink.catch_up_log().catch_up(Cursor(1), &EventFilter::all()).unwrap();
    assert_eq!(missed.len(), 2);
    assert_eq!(missed[0].cursor, Cursor(2));
    assert_eq!(missed[1].cursor, Cursor(3));
}

#[test]
fn catch_up_from_default_cursor_backfills_the_whole_window() {
    let mut sink = EventSink::new(4);
    sink.publish(tip(7));
    sink.publish(tip(8));
    let all = sink.catch_up_log().catch_up(Cursor::default(), &EventFilter::all()).unwrap();
    assert_eq!(all.len(), 2, "both events are strictly after the sentinel");
    assert_eq!(all[0].cursor, Cursor(1));
    assert_eq!(all[1].cursor, Cursor(2));
}

#[test]
fn catch_up_applies_the_kind_filter() {
    let mut sink = EventSink::new(16);
    sink.publish(WalletEvent::FundsReceived {
        wallet_id: WalletId(1),
        asset: None,
        amount: Amount(1),
        coin_id: "c".into(),
        confirmed_height: 1,
    });
    sink.publish(tip(9));
    sink.publish(tip(10));
    let nothing =
        sink.catch_up_log().catch_up(Cursor::default(), &EventFilter::none()).unwrap();
    assert!(nothing.is_empty());
    let tips = sink
        .catch_up_log()
        .catch_up(Cursor::default(), &EventFilter::only(EventKind::NewTip))
        .unwrap();
    assert_eq!(tips.len(), 2);
    assert_eq!(tips[0].cursor, Cursor(2));
    assert_eq!(tips[1].cursor, Cursor(3));
}

#[test]
fn delta_log_evicts_the_oldest_beyond_capacity() {
    let mut sink = EventSink::with_history_capacity(4, 2);
    sink.publish(tip(1));
    sink.publish(tip(2));
    sink.publish(tip(3));
    sink.publish(tip(4));
    let retained =
        sink.catch_up_log().catch_up(Cursor::default(), &EventFilter::all()).unwrap();
    assert_eq!(retained.len(), 2);
    assert_eq!(retained[0].cursor, Cursor(3));
    assert_eq!(retained[1].cursor, Cursor(4));
}

#[test]
fn live_stream_delivers_only_subscribed_kinds_in_order() {
    let mut sink = EventSink::new(32);
    let filter = EventFilter::only(EventKind::NewTip);
    sink.publish(funds_received("a"));
    sink.publish(tip(1));
    sink.publish(funds_received("b"));
    sink.publish(tip(2));
    let live: Vec<_> =
        sink.take_outbox().into_iter().filter(|emitted| emitted.event.matches(&filter)).collect();
    assert_eq!(live[0].event, tip(1));
    assert_eq!(live[1].event, tip(2));
    assert!(live[0].cursor < live[1].cursor, "cursors preserve order");
}

#[test]
fn lagged_subscriber_catches_up_from_its_last_cursor() {
    let mut sink = EventSink::with_history_capacity(2, 1024);
    let first_cursor = sink.publish(tip(1));
    let seen = sink.take_outbox().remove(0);
    assert_eq!(seen.cursor, first_cursor);
    for height in 2..=10 {
        sink.publish(tip(height));
    }
    assert!(sink.take_outbox().len() > sink.live_capacity(), "the receiver has fallen behind");
    let missed = sink.catch_up_log().catch_up(seen.cursor, &EventFilter::all()).unwrap();
    assert_eq!(missed.len(), 9);
    for (offset, emitted) in missed.iter().enumerate() {
        assert_eq!(emitted.cursor, Cursor(first_cursor.0 + 1 + offset as u64));
        assert_eq!(emitted.event, tip(2 + offset as u32));
    }
}

#[test]
fn catch_up_backfill_honours_the_subscription_filter() {
    let mut sink = EventSink::new(4);
    let filter = EventFilter::only(EventKind::FundsReceived);
    sink.publish(tip(1));
    sink.publish(funds_received("a"));
    sink.publish(tip(2));
    sink.publish(funds_received("b"));
    let backfill = sink.catch_up_log().catch_up(Cursor::default(), &filter).unwrap();
    assert_eq!(backfill.len(), 2);
    assert_eq!(backfill[0].event, funds_received("a"));
    assert_eq!(backfill[1].event, funds_received("b"));
}

#[test]
fn a_sink_keeps_the_capacity_of_its_transport() {
    assert_eq!(EventSink::new(16).live_capacity(), 16);
    assert_eq!(EventSink::with_history_capacity(4, 2).live_capacity(), 4);
}

struct Ledger {
    entries: RefCell<Vec<EmittedEvent>>,
    broken: bool,
}

impl PersistentEventLog for Ledger {
    fn append(&self, emitted: &EmittedEvent) -> WalletResult<()> {
        if self.broken {
            return Err(WalletError::new(WalletErrorCode::Storage, "disk full".into()));
        }
        self.entries.borrow_mut().push(emitted.clone());
        Ok(())
    }
}

#[test]
fn a_durable_log_gets_every_event_and_never_stops_one() {
    let durable = Ledger { entries: RefCell::new(vec![]), broken: false };
    let mut sink = EventSink::with_history_capacity(4, 1);
    assert_eq!(sink.publish_durably(tip(1), &durable), Cursor(1));
    assert_eq!(sink.publish_durably(tip(2), &durable), Cursor(2));
    assert_eq!(*durable.entries.borrow(), sink.take_outbox());
    let broken = Ledger { entries: RefCell::new(vec![]), broken: true };
    assert_eq!(sink.publish_durably(tip(3), &broken), Cursor(3));
    assert_eq!(sink.take_outbox()[0].event, tip(3));
    assert!(broken.entries.borrow().is_empty());
}

#[test]
fn a_log_without_room_retains_nothing() {
    let mut sink = EventSink::with_history_capacity(4, 0);
    assert_eq!(sink.publish(tip(1)), Cursor(1));
    assert_eq!(sink.publish(tip(2)), Cursor(2));
    let kept = sink.catch_up_log().catch_up(Cursor(0), &EventFilter::all()).unwrap();
    assert!(kept.is_empty());
    assert_eq!(sink.take_outbox().len(), 2, "the live transport still gets both");
}

#[test]
fn a_subscriber_that_missed_too_much_gets_the_latest() {
    let mut sink = EventSink::with_history_capacity(4, 3);
    for height in 1..=10 {
        sink.publish(tip(height));
    }
    let missed = sink.catch_up_log().catch_up(Cursor(2), &EventFilter::all()).unwrap();
    let cursors: Vec<u64> = missed.iter().map(|emitted| emitted.cursor.0).collect();
    assert_eq!(cursors, vec![8, 9, 10]);
}
