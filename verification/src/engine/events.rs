//! The event emitter.
//!
//! Every published event is stamped with the next cursor, kept in a bounded log for subscribers
//! that fell behind, and put out for the live transport.

use std::collections::VecDeque;

use vstd::prelude::*;

use crate::types::error::WalletResult;
use crate::types::event::{kind_of, Cursor, EmittedEvent, EventFilter, EventKind, WalletEvent};

verus! {

/// How many recent events the log keeps unless it is told otherwise.
pub const DEFAULT_HISTORY_CAPACITY: usize = 4096;

/// The last `n` events, or all of them if there are no more.
pub open spec fn latest(events: Seq<EmittedEvent>, n: nat) -> Seq<EmittedEvent> {
    if events.len() > n {
        events.skip(events.len() - n)
    } else {
        events
    }
}

/// A log after one more event: it keeps the latest events, as many as its capacity.
pub open spec fn recorded(history: Seq<EmittedEvent>, capacity: nat, emitted: EmittedEvent) -> Seq<
    EmittedEvent,
> {
    latest(history.push(emitted), capacity)
}

/// The logged events after a cursor that a filter admits, in their order.
pub open spec fn backfill(history: Seq<EmittedEvent>, since: Cursor, kinds: Set<EventKind>) -> Seq<
    EmittedEvent,
> {
    history.filter(
        |e: EmittedEvent| e.cursor.0 > since.0 && kinds.contains(kind_of(e.event)),
    )
}

/// The recent events, for subscribers that fell behind.
#[derive(Debug)]
pub struct DeltaLog {
    history: VecDeque<EmittedEvent>,
    capacity: usize,
}

impl DeltaLog {
    /// The logged events, oldest first.
    pub closed spec fn events(self) -> Seq<EmittedEvent> {
        self.history@
    }

    /// How many events the log keeps.
    pub closed spec fn room(self) -> usize {
        self.capacity
    }

    /// An empty log for a number of events.
    pub fn new(capacity: usize) -> (log: Self)
        ensures
            log.events() == Seq::<EmittedEvent>::empty(),
            log.room() == capacity,
    {
        DeltaLog { history: VecDeque::new(), capacity }
    }

    /// Logs an event.
    pub fn record(&mut self, emitted: EmittedEvent)
        ensures
            final(self).room() == old(self).room(),
            final(self).events() == recorded(
                old(self).events(),
                old(self).room() as nat,
                emitted,
            ),
    {
        self.history.push_back(emitted);
        let ghost all = self.history@;
        while self.history.len() > self.capacity
            invariant
                self.capacity == old(self).capacity,
                self.history@.len() <= all.len(),
                self.history@ == all.skip(all.len() - self.history@.len()),
                all.len() > self.capacity ==> self.history@.len() >= self.capacity,
                all.len() <= self.capacity ==> self.history@.len() == all.len(),
            decreases self.history@.len(),
        {
            let _ = self.history.pop_front();
            assert(self.history@ =~= all.skip(all.len() - self.history@.len()));
        }
        assert(self.history@ =~= latest(all, self.capacity as nat));
    }

    /// The events after a cursor that a filter admits, oldest first.
    pub fn catch_up(&self, since: Cursor, filter: &EventFilter) -> (result: WalletResult<
        Vec<EmittedEvent>,
    >)
        ensures
            result matches Ok(missed) && missed@ == backfill(self.events(), since, filter@),
    {
        let mut missed: Vec<EmittedEvent> = Vec::new();
        let ghost history = self.history@;
        let ghost keep = |e: EmittedEvent|
            e.cursor.0 > since.0 && filter@.contains(kind_of(e.event));
        let mut i: usize = 0;
        assert(missed@ =~= history.take(0).filter(keep)) by {
            reveal(Seq::filter);
        }
        while i < self.history.len()
            invariant
                i <= self.history@.len(),
                history == self.history@,
                keep == (|e: EmittedEvent|
                    e.cursor.0 > since.0 && filter@.contains(kind_of(e.event))),
                missed@ == history.take(i as int).filter(keep),
            decreases self.history@.len() - i,
        {
            proof {
                reveal(Seq::filter);
                assert(history.take(i as int + 1).drop_last() =~= history.take(i as int));
                assert(history.take(i as int + 1).last() == history[i as int]);
            }
            let emitted = &self.history[i];
            if emitted.cursor.0 > since.0 && emitted.event.matches(filter) {
                missed.push(emitted.clone());
            }
            i = i + 1;
        }
        assert(history.take(i as int) =~= history);
        Ok(missed)
    }
}

/// What an [`EventSink`] holds.
pub struct SinkView {
    /// The cursor of the next event.
    pub next: u64,
    /// The logged events, oldest first.
    pub history: Seq<EmittedEvent>,
    /// How many events the log keeps.
    pub capacity: nat,
    /// How many events the live transport buffers.
    pub live_capacity: nat,
    /// The events that wait for the live transport, oldest first.
    pub outbox: Seq<EmittedEvent>,
}

/// The cursor after a cursor. It wraps round at the end of the machine word.
pub open spec fn next_cursor(cursor: u64) -> u64 {
    if cursor == u64::MAX {
        0
    } else {
        (cursor + 1) as u64
    }
}

/// A sink after one more event.
pub open spec fn published(sink: SinkView, event: WalletEvent) -> SinkView {
    let emitted = EmittedEvent { cursor: Cursor(sink.next), event };
    SinkView {
        next: next_cursor(sink.next),
        history: recorded(sink.history, sink.capacity, emitted),
        capacity: sink.capacity,
        live_capacity: sink.live_capacity,
        outbox: sink.outbox.push(emitted),
    }
}

/// A sink after more events, in their order.
pub open spec fn published_all(sink: SinkView, events: Seq<WalletEvent>) -> SinkView
    decreases events.len(),
{
    if events.len() == 0 {
        sink
    } else {
        published(published_all(sink, events.drop_last()), events.last())
    }
}

/// Publishing in two runs is publishing in one.
pub proof fn lemma_published_in_turn(
    sink: SinkView,
    first: Seq<WalletEvent>,
    second: Seq<WalletEvent>,
)
    ensures
        published_all(published_all(sink, first), second) == published_all(sink, first + second),
    decreases second.len(),
{
    if second.len() == 0 {
        assert(first + second =~= first);
    } else {
        lemma_published_in_turn(sink, first, second.drop_last());
        assert((first + second).drop_last() =~= first + second.drop_last());
    }
}

/// A log that outlives the process. Appending an event twice has no further effect.
pub trait PersistentEventLog {
    /// Appends an event.
    fn append(&self, emitted: &EmittedEvent) -> (result: WalletResult<()>);
}

/// Whether a durable log was asked to append an event, whatever it answered.
pub open spec fn handed_over<L: PersistentEventLog>(durable: &L, emitted: EmittedEvent) -> bool {
    exists|answer: WalletResult<()>| #[trigger] call_ensures(L::append, (durable, &emitted), answer)
}

/// The event emitter.
#[derive(Debug)]
pub struct EventSink {
    next: u64,
    log: DeltaLog,
    live_capacity: usize,
    outbox: Vec<EmittedEvent>,
}

impl View for EventSink {
    type V = SinkView;

    closed spec fn view(&self) -> SinkView {
        SinkView {
            next: self.next,
            history: self.log.events(),
            capacity: self.log.room() as nat,
            live_capacity: self.live_capacity as nat,
            outbox: self.outbox@,
        }
    }
}

/// A sink that has published nothing. The first cursor is one, so that the zero cursor is before
/// every event.
pub open spec fn fresh_sink(live_capacity: nat, capacity: nat) -> SinkView {
    SinkView { next: 1, history: Seq::empty(), capacity, live_capacity, outbox: Seq::empty() }
}

impl EventSink {
    /// A sink whose log keeps the default number of events, or as many as the live transport
    /// buffers if that is more.
    pub fn new(capacity: usize) -> (sink: Self)
        ensures
            sink@ == fresh_sink(
                capacity as nat,
                if capacity > DEFAULT_HISTORY_CAPACITY {
                    capacity as nat
                } else {
                    DEFAULT_HISTORY_CAPACITY as nat
                },
            ),
    {
        if capacity > DEFAULT_HISTORY_CAPACITY {
            EventSink::with_history_capacity(capacity, capacity)
        } else {
            EventSink::with_history_capacity(capacity, DEFAULT_HISTORY_CAPACITY)
        }
    }

    /// A sink for a live transport that buffers `capacity` events, whose log keeps
    /// `history_capacity` events.
    pub fn with_history_capacity(capacity: usize, history_capacity: usize) -> (sink: Self)
        ensures
            sink@ == fresh_sink(capacity as nat, history_capacity as nat),
    {
        EventSink {
            next: 1,
            log: DeltaLog::new(history_capacity),
            live_capacity: capacity,
            outbox: Vec::new(),
        }
    }

    /// How many events the live transport buffers for a subscriber.
    pub fn live_capacity(&self) -> (capacity: usize)
        ensures
            capacity == self@.live_capacity,
    {
        self.live_capacity
    }

    /// Stamps an event, logs it and puts it out for the live transport.
    pub fn publish(&mut self, event: WalletEvent) -> (cursor: Cursor)
        ensures
            cursor.0 == old(self)@.next,
            final(self)@ == published(old(self)@, event),
    {
        let cursor = Cursor(self.next);
        self.next = if self.next == u64::MAX {
            0
        } else {
            self.next + 1
        };
        let emitted = EmittedEvent { cursor, event };
        self.log.record(emitted.clone());
        self.outbox.push(emitted);
        cursor
    }

    /// Publishes an event and writes it to a durable log. A write that fails takes nothing away
    /// from the event: the emitter ends up as if there were no such log.
    pub fn publish_durably<L: PersistentEventLog>(&mut self, event: WalletEvent, durable: &L) -> (cursor:
        Cursor)
        requires
            forall|emitted: EmittedEvent|
                emitted.event == event ==> #[trigger] call_requires(L::append, (durable, &emitted)),
        ensures
            cursor.0 == old(self)@.next,
            final(self)@ == published(old(self)@, event),
            handed_over(durable, final(self)@.outbox.last()),
    {
        let cursor = self.publish(event);
        let last: usize = self.outbox.len() - 1;
        let written = durable.append(&self.outbox[last]);
        assert(call_ensures(L::append, (durable, &self.outbox@[last as int]), written));
        cursor
    }

    /// The log of recent events.
    pub fn catch_up_log(&self) -> (log: &DeltaLog)
        ensures
            log.events() == self@.history,
            log.room() == self@.capacity,
    {
        &self.log
    }

    /// Hands the waiting events to the live transport, oldest first.
    pub fn take_outbox(&mut self) -> (outbox: Vec<EmittedEvent>)
        ensures
            outbox@ == old(self)@.outbox,
            final(self)@ == (SinkView { outbox: Seq::empty(), ..old(self)@ }),
    {
        let mut outbox: Vec<EmittedEvent> = Vec::new();
        outbox.append(&mut self.outbox);
        assert(outbox@ =~= old(self)@.outbox);
        outbox
    }
}

/// Whether the logged events carry consecutive cursors that end before the next one, none of them
/// zero, and the log is within its capacity.
pub open spec fn in_order(sink: SinkView) -> bool {
    &&& sink.history.len() < sink.next
    &&& sink.history.len() <= sink.capacity
    &&& forall|i: int|
        0 <= i < sink.history.len() ==> (#[trigger] sink.history[i]).cursor.0 == sink.next
            - sink.history.len() + i
}

/// Cursors only grow: a fresh sink is in order, and publishing keeps it so, with a cursor above
/// every one before. (The last machine word is left out: there the counter wraps round.)
pub proof fn cursors_grow(sink: SinkView, event: WalletEvent, live_capacity: nat, capacity: nat)
    ensures
        in_order(fresh_sink(live_capacity, capacity)),
        in_order(sink) && sink.next < u64::MAX ==> {
            &&& in_order(published(sink, event))
            &&& published(sink, event).next == sink.next + 1
            &&& published(sink, event).outbox.last().cursor.0 == sink.next
            &&& sink.capacity > 0 ==> published(sink, event).history.last().cursor.0 == sink.next
            &&& forall|i: int|
                0 <= i < sink.history.len() ==> (#[trigger] sink.history[i]).cursor.0 < sink.next
        },
{
}

/// The events of a publishing run with their cursors.
pub open spec fn stamped(events: Seq<WalletEvent>, first: u64) -> Seq<EmittedEvent> {
    Seq::new(
        events.len(),
        |i: int| EmittedEvent { cursor: Cursor((first + i) as u64), event: events[i] },
    )
}

proof fn lemma_published_all(sink: SinkView, events: Seq<WalletEvent>)
    requires
        in_order(sink),
        sink.next + events.len() <= u64::MAX,
    ensures
        in_order(published_all(sink, events)),
        published_all(sink, events).next == sink.next + events.len(),
        published_all(sink, events).capacity == sink.capacity,
        published_all(sink, events).outbox == sink.outbox + stamped(events, sink.next),
        published_all(sink, events).history == latest(
            sink.history + stamped(events, sink.next),
            sink.capacity,
        ),
    decreases events.len(),
{
    let all = published_all(sink, events);
    let more = stamped(events, sink.next);
    if events.len() == 0 {
        assert(sink.history + more =~= sink.history);
        assert(all.outbox =~= sink.outbox + more);
    } else {
        let front = events.drop_last();
        lemma_published_all(sink, front);
        let before = published_all(sink, front);
        cursors_grow(before, events.last(), sink.live_capacity, sink.capacity);
        let emitted = EmittedEvent { cursor: Cursor(before.next), event: events.last() };
        assert(more =~= stamped(front, sink.next).push(emitted));
        assert(all.outbox =~= sink.outbox + more);
        let whole = sink.history + stamped(front, sink.next);
        assert(sink.history + more =~= whole.push(emitted));
        assert(all.history =~= latest(whole.push(emitted), sink.capacity));
    }
}

/// A subscriber that saw every event up to its cursor gets back what was published since, in
/// order and through its filter: all of it where it fits the log, and the latest of it, as much
/// as the log keeps, where it does not. The live transport was handed all of it.
pub proof fn catching_up_recovers_what_was_missed(
    sink: SinkView,
    events: Seq<WalletEvent>,
    kinds: Set<EventKind>,
)
    requires
        in_order(sink),
        sink.next + events.len() <= u64::MAX,
    ensures
        backfill(
            published_all(sink, events).history,
            Cursor((sink.next - 1) as u64),
            kinds,
        ) == latest(stamped(events, sink.next), sink.capacity).filter(
            |e: EmittedEvent| kinds.contains(kind_of(e.event)),
        ),
        events.len() <= sink.capacity ==> latest(stamped(events, sink.next), sink.capacity)
            == stamped(events, sink.next),
        published_all(sink, events).outbox == sink.outbox + stamped(events, sink.next),
{
    lemma_published_all(sink, events);
    let missed = stamped(events, sink.next);
    let more = latest(missed, sink.capacity);
    let spare = sink.history.len() + missed.len() - sink.capacity;
    let kept = if missed.len() >= sink.capacity {
        Seq::empty()
    } else if spare > 0 {
        sink.history.skip(spare)
    } else {
        sink.history
    };
    assert(published_all(sink, events).history =~= kept + more);
    assert forall|i: int| 0 <= i < kept.len() implies (#[trigger] kept[i]).cursor.0 < sink.next by {
        if spare > 0 {
            assert(kept[i] == sink.history[i + spare]);
        }
    }
    let since = Cursor((sink.next - 1) as u64);
    let late = |e: EmittedEvent| e.cursor.0 > since.0 && kinds.contains(kind_of(e.event));
    let admitted = |e: EmittedEvent| kinds.contains(kind_of(e.event));
    Seq::filter_distributes_over_add(kept, more, late);
    lemma_filter_none(kept, late);
    assert forall|i: int| 0 <= i < more.len() implies late(#[trigger] more[i]) == admitted(
        more[i],
    ) by {
        if missed.len() > sink.capacity {
            assert(more[i] == missed[i + (missed.len() - sink.capacity)]);
        }
    }
    lemma_filter_same(more, late, admitted);
    assert(Seq::<EmittedEvent>::empty() + more.filter(late) =~= more.filter(late));
}

/// From the zero cursor a subscriber gets the whole log.
pub proof fn catching_up_from_the_start_gives_the_log(sink: SinkView)
    requires
        in_order(sink),
    ensures
        backfill(sink.history, Cursor(0), Set::full()) == sink.history,
{
    let all = |e: EmittedEvent| e.cursor.0 > 0u64 && Set::<EventKind>::full().contains(kind_of(e.event));
    let any = |e: EmittedEvent| true;
    assert forall|i: int| 0 <= i < sink.history.len() implies all(#[trigger] sink.history[i])
        == any(sink.history[i]) by {}
    lemma_filter_same(sink.history, all, any);
    lemma_filter_every(sink.history, any);
    let since = Cursor(0);
    let late = |e: EmittedEvent| e.cursor.0 > since.0 && Set::<EventKind>::full().contains(kind_of(e.event));
    lemma_filter_same(sink.history, late, any);
}

proof fn lemma_filter_none(events: Seq<EmittedEvent>, keep: spec_fn(EmittedEvent) -> bool)
    requires
        forall|i: int| 0 <= i < events.len() ==> !keep(#[trigger] events[i]),
    ensures
        events.filter(keep) == Seq::<EmittedEvent>::empty(),
    decreases events.len(),
{
    reveal(Seq::filter);
    if events.len() > 0 {
        let front = events.drop_last();
        assert forall|i: int| 0 <= i < front.len() implies !keep(#[trigger] front[i]) by {
            assert(front[i] == events[i]);
        }
        lemma_filter_none(front, keep);
        assert(!keep(events[events.len() - 1]));
    }
}

proof fn lemma_filter_every(events: Seq<EmittedEvent>, keep: spec_fn(EmittedEvent) -> bool)
    requires
        forall|e: EmittedEvent| #[trigger] keep(e),
    ensures
        events.filter(keep) == events,
    decreases events.len(),
{
    reveal(Seq::filter);
    if events.len() > 0 {
        lemma_filter_every(events.drop_last(), keep);
        assert(keep(events.last()));
        assert(events.drop_last().push(events.last()) =~= events);
    }
}

proof fn lemma_filter_same(
    events: Seq<EmittedEvent>,
    one: spec_fn(EmittedEvent) -> bool,
    two: spec_fn(EmittedEvent) -> bool,
)
    requires
        forall|i: int| 0 <= i < events.len() ==> one(#[trigger] events[i]) == two(events[i]),
    ensures
        events.filter(one) == events.filter(two),
    decreases events.len(),
{
    reveal(Seq::filter);
    if events.len() > 0 {
        let front = events.drop_last();
        assert forall|i: int| 0 <= i < front.len() implies one(#[trigger] front[i]) == two(
            front[i],
        ) by {
            assert(front[i] == events[i]);
        }
        lemma_filter_same(front, one, two);
        assert(one(events[events.len() - 1]) == two(events[events.len() - 1]));
    }
}

} // verus!
