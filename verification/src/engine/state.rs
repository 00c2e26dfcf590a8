//! The wallet state: coins, assets, history and sync progress, for each wallet.

use vstd::prelude::*;
use vstd::string::*;

use crate::text::same_text;
use crate::textmap::TextMap;
use crate::types::error::WalletResult;
use crate::types::event::{SyncLifecycle, SyncStatus};
use crate::types::identity::{IdentityRef, WalletId};
use crate::types::value::{
    Amount, Balance, CatRecord, CatRecordView, CoinRecord, CoinRecordView, DidRecord,
    DidRecordView, NftRecord, NftRecordView, TransactionRecord, TransactionRecordView,
};

verus! {

/// How a coin update changed the state.
#[derive(Debug, Clone, Copy, PartialEq, Eq, Structural)]
pub enum CoinChange {
    /// An unknown coin appeared, unspent.
    Created,
    /// A coin became spent, known before or not.
    Spent,
    /// A known coin changed without becoming spent.
    Updated,
    /// The update said nothing new.
    Unchanged,
}

/// How an update changes a coin.
pub open spec fn change_of(previous: Option<CoinRecordView>, incoming: CoinRecordView) -> CoinChange {
    match previous {
        None => if incoming.spent_height is Some {
            CoinChange::Spent
        } else {
            CoinChange::Created
        },
        Some(known) => if known == incoming {
            CoinChange::Unchanged
        } else if known.spent_height is None && incoming.spent_height is Some {
            CoinChange::Spent
        } else {
            CoinChange::Updated
        },
    }
}

/// What the state of a wallet holds.
pub struct WalletStateView {
    /// The tracked coins by coin id, spent ones among them.
    pub coins: Map<Seq<char>, CoinRecordView>,
    /// The CAT balance lines by asset id.
    pub cats: Map<Seq<char>, CatRecordView>,
    /// The NFTs by launcher id.
    pub nfts: Map<Seq<char>, NftRecordView>,
    /// The DIDs by launcher id.
    pub dids: Map<Seq<char>, DidRecordView>,
    /// The settled transactions, oldest first.
    pub history: Seq<TransactionRecordView>,
    /// The height that the wallet has processed up to.
    pub peak_height: u32,
    /// The tip that the wallet is syncing toward.
    pub target_height: u32,
    /// Where the sync loop is.
    pub lifecycle: SyncLifecycle,
}

/// The state of a wallet that nothing is known of.
pub open spec fn fresh_state() -> WalletStateView {
    WalletStateView {
        coins: Map::empty(),
        cats: Map::empty(),
        nfts: Map::empty(),
        dids: Map::empty(),
        history: Seq::empty(),
        peak_height: 0,
        target_height: 0,
        lifecycle: SyncLifecycle::Idle,
    }
}

/// The coin of an id, if it is tracked.
pub open spec fn coin_in(coins: Map<Seq<char>, CoinRecordView>, id: Seq<char>) -> Option<
    CoinRecordView,
> {
    if coins.contains_key(id) {
        Some(coins[id])
    } else {
        None
    }
}

/// A state after a coin update.
pub open spec fn applied(state: WalletStateView, record: CoinRecordView) -> WalletStateView {
    WalletStateView { coins: state.coins.insert(record.coin_id, record), ..state }
}

/// Whether a height is known and above another.
pub open spec fn after(height: Option<u32>, fork: u32) -> bool {
    height matches Some(h) && h > fork
}

/// A coin without a spend above the fork.
pub open spec fn unspent_after(coin: CoinRecordView, fork: u32) -> CoinRecordView {
    if after(coin.spent_height, fork) {
        CoinRecordView { spent_height: None, ..coin }
    } else {
        coin
    }
}

/// The coins of the winning chain: those created above the fork never existed, and spends above
/// it did not happen.
pub open spec fn rolled_back(coins: Map<Seq<char>, CoinRecordView>, fork: u32) -> Map<
    Seq<char>,
    CoinRecordView,
> {
    Map::new(
        |id: Seq<char>| coins.contains_key(id) && !after(coins[id].created_height, fork),
        |id: Seq<char>| unspent_after(coins[id], fork),
    )
}

/// A state after a rollback to a fork.
pub open spec fn rolled_back_state(state: WalletStateView, fork: u32) -> WalletStateView {
    WalletStateView { coins: rolled_back(state.coins, fork), peak_height: fork, ..state }
}

/// A state after its peak moved to a height; it never moves back.
pub open spec fn peak_raised(state: WalletStateView, peak_height: u32) -> WalletStateView {
    WalletStateView {
        peak_height: if peak_height > state.peak_height {
            peak_height
        } else {
            state.peak_height
        },
        ..state
    }
}

/// A state with where the sync loop is and the tip that it aims for.
pub open spec fn status_set(
    state: WalletStateView,
    lifecycle: SyncLifecycle,
    target: u32,
) -> WalletStateView {
    WalletStateView { lifecycle, target_height: target, ..state }
}

/// Where the sync loop of a state is.
pub open spec fn status_of(state: WalletStateView) -> SyncStatus {
    SyncStatus {
        state: state.lifecycle,
        peak_height: state.peak_height,
        target_height: state.target_height,
    }
}

/// Whether a rollback forgets a coin.
pub open spec fn forgets(coins: Map<Seq<char>, CoinRecordView>, fork: u32, id: Seq<char>) -> bool {
    coins.contains_key(id) && after(coins[id].created_height, fork)
}

/// Whether a rollback takes back a spend of a coin that it keeps.
pub open spec fn unspends(coins: Map<Seq<char>, CoinRecordView>, fork: u32, id: Seq<char>) -> bool {
    coins.contains_key(id) && !after(coins[id].created_height, fork) && after(
        coins[id].spent_height,
        fork,
    )
}

/// Whether a list names the coins that a rollback touches, each once: the forgotten ones first,
/// then those with a spend taken back.
pub open spec fn touched(
    coins: Map<Seq<char>, CoinRecordView>,
    fork: u32,
    ids: Seq<String>,
) -> bool {
    &&& forall|i: int, j: int|
        0 <= i < j < ids.len() ==> (#[trigger] ids[i])@ != (#[trigger] ids[j])@
    &&& forall|i: int|
        0 <= i < ids.len() ==> forgets(coins, fork, (#[trigger] ids[i])@) || unspends(
            coins,
            fork,
            ids[i]@,
        )
    &&& forall|id: Seq<char>|
        forgets(coins, fork, id) || unspends(coins, fork, id) ==> named(ids, id)
    &&& forall|i: int, j: int|
        0 <= i < j < ids.len() && forgets(coins, fork, (#[trigger] ids[j])@) ==> forgets(
            coins,
            fork,
            (#[trigger] ids[i])@,
        )
}

/// Whether a list holds a text.
pub open spec fn named(ids: Seq<String>, id: Seq<char>) -> bool {
    exists|i: int| 0 <= i < ids.len() && (#[trigger] ids[i])@ == id
}

/// The unspent coins.
pub open spec fn unspent_of(coins: Map<Seq<char>, CoinRecordView>) -> Map<
    Seq<char>,
    CoinRecordView,
> {
    Map::new(
        |id: Seq<char>| coins.contains_key(id) && coins[id].spent_height is None,
        |id: Seq<char>| coins[id],
    )
}

/// What a coin adds to the balance.
pub open spec fn unspent_value(coin: CoinRecordView) -> nat {
    if coin.spent_height is None {
        coin.amount as nat
    } else {
        0
    }
}

/// The value of the unspent coins.
pub open spec fn unspent_total(coins: Map<Seq<char>, CoinRecordView>) -> nat
    decreases coins.dom().len(),
    when coins.dom().finite()
{
    if coins.dom().len() == 0 {
        0
    } else {
        let id = coins.dom().choose();
        unspent_value(coins[id]) + unspent_total(coins.remove(id))
    }
}

/// Whether the keys of a map stand in a list, each once.
pub open spec fn keys_of<V>(keys: Seq<Seq<char>>, held: Map<Seq<char>, V>) -> bool {
    keys.no_duplicates() && keys.to_set() == held.dom()
}

/// Whether a list holds the values of a map, one for each key, in some order.
pub open spec fn lists<V>(listed: Seq<V>, held: Map<Seq<char>, V>) -> bool {
    exists|keys: Seq<Seq<char>>| #[trigger]
        keys_of(keys, held) && listed == keys.map_values(|k: Seq<char>| held[k])
}

/// The total does not depend on the order in which coins are counted.
pub proof fn lemma_total_remove(coins: Map<Seq<char>, CoinRecordView>, id: Seq<char>)
    requires
        coins.dom().finite(),
        coins.contains_key(id),
    ensures
        unspent_total(coins) == unspent_value(coins[id]) + unspent_total(coins.remove(id)),
    decreases coins.dom().len(),
{
    let first = coins.dom().choose();
    assert(coins.dom().contains(id));
    assert(coins.dom().len() > 0);
    if first != id {
        lemma_total_remove(coins.remove(first), id);
        lemma_total_remove(coins.remove(id), first);
        assert(coins.remove(first).remove(id) =~= coins.remove(id).remove(first));
    }
}

/// What the first `n` entries add to the balance.
spec fn entries_total(entries: Seq<(String, CoinRecord)>, n: nat) -> nat
    decreases n,
{
    if n == 0 {
        0
    } else {
        entries_total(entries, (n - 1) as nat) + unspent_value(entries[n - 1].1@)
    }
}

proof fn lemma_entries_total(
    entries: Seq<(String, CoinRecord)>,
    n: nat,
    coins: Map<Seq<char>, CoinRecordView>,
)
    requires
        n <= entries.len(),
        coins.dom().finite(),
        coins.dom().len() == n,
        forall|i: int, j: int|
            0 <= i < j < entries.len() ==> (#[trigger] entries[i]).0@ != (
            #[trigger] entries[j]).0@,
        forall|i: int|
            0 <= i < n ==> coins.contains_key((#[trigger] entries[i]).0@) && coins[entries[i].0@]
                == entries[i].1@,
    ensures
        entries_total(entries, n) == unspent_total(coins),
    decreases n,
{
    if n > 0 {
        let id = entries[n - 1].0@;
        lemma_total_remove(coins, id);
        let rest = coins.remove(id);
        assert forall|i: int| 0 <= i < n - 1 implies rest.contains_key((#[trigger] entries[i]).0@)
            && rest[entries[i].0@] == entries[i].1@ by {
            assert(entries[i].0@ != entries[n - 1].0@);
        }
        lemma_entries_total(entries, (n - 1) as nat, rest);
    }
}

proof fn lemma_entries_total_grows(entries: Seq<(String, CoinRecord)>, i: nat, n: nat)
    requires
        i <= n,
    ensures
        entries_total(entries, i) <= entries_total(entries, n),
    decreases n - i,
{
    if i < n {
        lemma_entries_total_grows(entries, i, (n - 1) as nat);
    }
}

/// The keys of the entries of a map stand for its domain.
proof fn lemma_keys_of<V, W>(map: TextMap<V>, held: Map<Seq<char>, W>)
    requires
        map.wf(),
        held.dom() == map@.dom(),
    ensures
        keys_of(map.entries@.map_values(|e: (String, V)| e.0@), held),
{
    let keys = map.entries@.map_values(|e: (String, V)| e.0@);
    assert forall|i: int, j: int| 0 <= i < keys.len() && 0 <= j < keys.len() && i
        != j implies keys[i] != keys[j] by {
        if i < j {
            assert(map.entries@[i].0@ != map.entries@[j].0@);
        } else {
            assert(map.entries@[j].0@ != map.entries@[i].0@);
        }
    }
    assert forall|x: Seq<char>| keys.to_set().contains(x) == held.dom().contains(x) by {
        if keys.contains(x) {
            let i = choose|i: int| 0 <= i < keys.len() && keys[i] == x;
            map.lemma_entry(i);
        }
        if map@.dom().contains(x) {
            let i = choose|i: int| 0 <= i < map.entries@.len() && (#[trigger] map.entries@[i]).0@ == x;
            assert(keys[i] == x);
        }
    }
    assert(keys.to_set() =~= held.dom());
}

/// The state of one wallet.
#[derive(Debug)]
pub struct WalletState {
    coins: TextMap<CoinRecord>,
    cats: TextMap<CatRecord>,
    nfts: TextMap<NftRecord>,
    dids: TextMap<DidRecord>,
    history: Vec<TransactionRecord>,
    peak_height: u32,
    target_height: u32,
    lifecycle: SyncLifecycle,
}

impl View for WalletState {
    type V = WalletStateView;

    closed spec fn view(&self) -> WalletStateView {
        WalletStateView {
            coins: self.coins@.map_values(|c: CoinRecord| c@),
            cats: self.cats@.map_values(|c: CatRecord| c@),
            nfts: self.nfts@.map_values(|n: NftRecord| n@),
            dids: self.dids@.map_values(|d: DidRecord| d@),
            history: self.history@.map_values(|t: TransactionRecord| t@),
            peak_height: self.peak_height,
            target_height: self.target_height,
            lifecycle: self.lifecycle,
        }
    }
}

impl WalletState {
    /// The tables are in order, and every record stands under its own id.
    pub closed spec fn wf(self) -> bool {
        &&& self.coins.wf()
        &&& self.cats.wf()
        &&& self.nfts.wf()
        &&& self.dids.wf()
        &&& forall|id: Seq<char>| #[trigger]
            self.coins@.contains_key(id) ==> self.coins@[id].coin_id@ == id
        &&& forall|id: Seq<char>| #[trigger]
            self.cats@.contains_key(id) ==> self.cats@[id].asset_id@ == id
        &&& forall|id: Seq<char>| #[trigger]
            self.nfts@.contains_key(id) ==> self.nfts@[id].launcher_id@ == id
        &&& forall|id: Seq<char>| #[trigger]
            self.dids@.contains_key(id) ==> self.dids@[id].launcher_id@ == id
    }

    /// Every record of a wallet stands under its own id, and there are finitely many.
    pub proof fn records_stand_under_their_ids(self)
        requires
            self.wf(),
        ensures
            self@.coins.dom().finite(),
            forall|id: Seq<char>| #[trigger]
                self@.coins.contains_key(id) ==> self@.coins[id].coin_id == id,
            forall|id: Seq<char>| #[trigger]
                self@.cats.contains_key(id) ==> self@.cats[id].asset_id == id,
            forall|id: Seq<char>| #[trigger]
                self@.nfts.contains_key(id) ==> self@.nfts[id].launcher_id == id,
            forall|id: Seq<char>| #[trigger]
                self@.dids.contains_key(id) ==> self@.dids[id].launcher_id == id,
    {
        self.coins.lemma_len();
        assert(self@.coins.dom() =~= self.coins@.dom());
    }

    /// The state of a wallet that nothing is known of.
    pub fn new() -> (state: Self)
        ensures
            state.wf(),
            state@ == fresh_state(),
    {
        let state = WalletState {
            coins: TextMap::new(),
            cats: TextMap::new(),
            nfts: TextMap::new(),
            dids: TextMap::new(),
            history: Vec::new(),
            peak_height: 0,
            target_height: 0,
            lifecycle: SyncLifecycle::Idle,
        };
        proof {
            assert(state@.coins =~= Map::empty());
            assert(state@.cats =~= Map::empty());
            assert(state@.nfts =~= Map::empty());
            assert(state@.dids =~= Map::empty());
            assert(state@.history =~= Seq::empty());
        }
        state
    }

    /// Applies a coin update and says how it changed the coin.
    fn apply_coin_state(&mut self, record: CoinRecord) -> (change: CoinChange)
        requires
            old(self).wf(),
        ensures
            final(self).wf(),
            final(self)@ == applied(old(self)@, record@),
            change == change_of(coin_in(old(self)@.coins, record.coin_id@), record@),
    {
        let ghost before = self.coins@;
        let change = classify_coin_change(self.coins.get(&record.coin_id), &record);
        self.coins.insert(record.coin_id.clone(), record);
        assert(self@.coins =~= old(self)@.coins.insert(record.coin_id@, record@));
        change
    }

    /// Rolls back to a fork.
    fn rollback_to(&mut self, fork_height: u32) -> (affected: Vec<String>)
        requires
            old(self).wf(),
        ensures
            final(self).wf(),
            final(self)@ == (WalletStateView {
                coins: rolled_back(old(self)@.coins, fork_height),
                peak_height: fork_height,
                ..old(self)@
            }),
            touched(old(self)@.coins, fork_height, affected@),
    {
        let ghost start = self@.coins;
        let mut affected: Vec<String> = Vec::new();
        let mut i: usize = 0;
        while i < self.coins.entries.len()
            invariant
                self.wf(),
                *self == (WalletState { coins: self.coins, ..*old(self) }),
                start == old(self)@.coins,
                i <= self.coins.entries@.len(),
                forall|k: int|
                    0 <= k < i ==> !after(
                        (#[trigger] self.coins.entries@[k]).1.created_height,
                        fork_height,
                    ),
                forall|id: Seq<char>| #[trigger]
                    self@.coins.contains_key(id) == (start.contains_key(id) && !named(
                        affected@,
                        id,
                    )),
                forall|id: Seq<char>| #[trigger]
                    self@.coins.contains_key(id) ==> self@.coins[id] == start[id],
                forall|k: int|
                    0 <= k < affected@.len() ==> forgets(
                        start,
                        fork_height,
                        (#[trigger] affected@[k])@,
                    ),
                forall|a: int, b: int|
                    0 <= a < b < affected@.len() ==> (#[trigger] affected@[a])@ != (
                    #[trigger] affected@[b])@,
            decreases self.coins.entries@.len() - i,
        {
            if is_after(self.coins.entries[i].1.created_height, fork_height) {
                let ghost held = *self;
                let ghost listed = affected@;
                let (id, _) = self.coins.remove_at(i);
                proof {
                    assert(held@.coins.contains_key(id@));
                    assert(self@.coins =~= held@.coins.remove(id@));
                    assert(!named(listed, id@));
                }
                affected.push(id);
                proof {
                    assert forall|x: Seq<char>| named(affected@, x) == (named(listed, x) || x
                        == id@) by {
                        if named(affected@, x) {
                            let k = choose|k: int|
                                0 <= k < affected@.len() && (#[trigger] affected@[k])@ == x;
                            if k < listed.len() {
                                assert(listed[k]@ == x);
                            }
                        }
                        if named(listed, x) {
                            let k = choose|k: int|
                                0 <= k < listed.len() && (#[trigger] listed[k])@ == x;
                            assert(affected@[k]@ == x);
                        }
                        assert(affected@[listed.len() as int]@ == id@);
                    }
                    assert forall|a: int, b: int| 0 <= a < b < affected@.len() implies (
                    #[trigger] affected@[a])@ != (#[trigger] affected@[b])@ by {
                        if b == listed.len() {
                            assert(listed[a]@ != id@);
                        }
                    }
                }
            } else {
                i = i + 1;
            }
        }
        let ghost middle = *self;
        let ghost forgotten = affected@;
        proof {
            assert forall|id: Seq<char>| #[trigger] middle@.coins.contains_key(id) implies !after(
                start[id].created_height,
                fork_height,
            ) by {
                let k = choose|k: int|
                    0 <= k < middle.coins.entries@.len() && (
                    #[trigger] middle.coins.entries@[k]).0@ == id;
                middle.coins.lemma_entry(k);
            }
        }
        let mut j: usize = 0;
        while j < self.coins.entries.len()
            invariant
                self.wf(),
                middle.wf(),
                *self == (WalletState { coins: self.coins, ..middle }),
                j <= self.coins.entries@.len(),
                self.coins.entries@.len() == middle.coins.entries@.len(),
                forall|k: int|
                    0 <= k < self.coins.entries@.len() ==> (#[trigger] self.coins.entries@[k]).0@
                        == middle.coins.entries@[k].0@,
                forall|k: int|
                    0 <= k < j ==> (#[trigger] self.coins.entries@[k]).1@ == unspent_after(
                        middle.coins.entries@[k].1@,
                        fork_height,
                    ),
                forall|k: int|
                    j <= k < self.coins.entries@.len() ==> (#[trigger] self.coins.entries@[k]).1
                        == middle.coins.entries@[k].1,
                forgotten.len() <= affected@.len(),
                affected@.take(forgotten.len() as int) == forgotten,
                forall|k: int|
                    forgotten.len() <= k < affected@.len() ==> within(
                        middle.coins.entries@,
                        j as int,
                        fork_height,
                        (#[trigger] affected@[k])@,
                    ),
                forall|k: int|
                    0 <= k < j && after(
                        (#[trigger] middle.coins.entries@[k]).1.spent_height,
                        fork_height,
                    ) ==> named(affected@, middle.coins.entries@[k].0@),
                forall|a: int, b: int|
                    forgotten.len() <= a < b < affected@.len() ==> (#[trigger] affected@[a])@ != (
                    #[trigger] affected@[b])@,
            decreases self.coins.entries@.len() - j,
        {
            let ghost held = *self;
            let ghost listed = affected@;
            if is_after(self.coins.entries[j].1.spent_height, fork_height) {
                let mut record = self.coins.entries[j].1.clone();
                record.spent_height = None;
                let id = self.coins.entries[j].0.clone();
                proof {
                    held.coins.lemma_entry(j as int);
                }
                self.coins.set_at(j, record);
                affected.push(id);
                proof {
                    assert(affected@.take(forgotten.len() as int) =~= listed.take(
                        forgotten.len() as int,
                    ));
                    assert forall|k: int| forgotten.len() <= k < affected@.len() implies within(
                        middle.coins.entries@,
                        j as int + 1,
                        fork_height,
                        (#[trigger] affected@[k])@,
                    ) by {
                        if k < listed.len() {
                            assert(within(
                                middle.coins.entries@,
                                j as int,
                                fork_height,
                                listed[k]@,
                            ));
                        } else {
                            assert(middle.coins.entries@[j as int].0@ == affected@[k]@);
                        }
                    }
                    assert forall|k: int| 0 <= k < j + 1 && after(
                        (#[trigger] middle.coins.entries@[k]).1.spent_height,
                        fork_height,
                    ) implies named(affected@, middle.coins.entries@[k].0@) by {
                        if k < j {
                            let x = choose|x: int|
                                0 <= x < listed.len() && (#[trigger] listed[x])@
                                    == middle.coins.entries@[k].0@;
                            assert(affected@[x]@ == middle.coins.entries@[k].0@);
                        } else {
                            assert(affected@[listed.len() as int]@ == middle.coins.entries@[k].0@);
                        }
                    }
                    assert forall|a: int, b: int| forgotten.len() <= a < b < affected@.len() implies (
                    #[trigger] affected@[a])@ != (#[trigger] affected@[b])@ by {
                        if b == listed.len() {
                            assert(within(
                                middle.coins.entries@,
                                j as int,
                                fork_height,
                                listed[a]@,
                            ));
                            let x = choose|x: int|
                                0 <= x < j && (#[trigger] middle.coins.entries@[x]).0@
                                    == listed[a]@ && after(
                                    middle.coins.entries@[x].1.spent_height,
                                    fork_height,
                                );
                            assert(middle.coins.entries@[x].0@
                                != middle.coins.entries@[j as int].0@);
                        }
                    }
                }
            } else {
                proof {
                    assert forall|k: int| forgotten.len() <= k < affected@.len() implies within(
                        middle.coins.entries@,
                        j as int + 1,
                        fork_height,
                        (#[trigger] affected@[k])@,
                    ) by {
                        assert(within(
                            middle.coins.entries@,
                            j as int,
                            fork_height,
                            affected@[k]@,
                        ));
                    }
                }
            }
            j = j + 1;
        }
        self.peak_height = fork_height;
        proof {
            self.lemma_rolled_back(middle, start, fork_height);
            lemma_touched(middle, start, fork_height, forgotten, affected@);
        }
        affected
    }

    /// What the two passes leave is the rolled-back map.
    proof fn lemma_rolled_back(
        self,
        middle: WalletState,
        start: Map<Seq<char>, CoinRecordView>,
        fork: u32,
    )
        requires
            self.coins.wf(),
            middle.wf(),
            self.coins.entries@.len() == middle.coins.entries@.len(),
            forall|k: int|
                0 <= k < self.coins.entries@.len() ==> (#[trigger] self.coins.entries@[k]).0@
                    == middle.coins.entries@[k].0@,
            forall|k: int|
                0 <= k < self.coins.entries@.len() ==> (#[trigger] self.coins.entries@[k]).1@
                    == unspent_after(middle.coins.entries@[k].1@, fork),
            forall|id: Seq<char>| #[trigger]
                middle@.coins.contains_key(id) == (start.contains_key(id) && !after(
                    start[id].created_height,
                    fork,
                )),
            forall|id: Seq<char>| #[trigger]
                middle@.coins.contains_key(id) ==> middle@.coins[id] == start[id],
        ensures
            self@.coins == rolled_back(start, fork),
    {
        let want = rolled_back(start, fork);
        assert forall|id: Seq<char>| #[trigger] self@.coins.contains_key(id) == want.contains_key(
            id,
        ) && (want.contains_key(id) ==> self@.coins[id] == want[id]) by {
            if self@.coins.contains_key(id) {
                let k = choose|k: int|
                    0 <= k < self.coins.entries@.len() && (#[trigger] self.coins.entries@[k]).0@
                        == id;
                middle.coins.lemma_entry(k);
                self.coins.lemma_entry(k);
                assert(middle@.coins.contains_key(id));
            }
            if want.contains_key(id) {
                assert(middle@.coins.contains_key(id));
                let k = choose|k: int|
                    0 <= k < middle.coins.entries@.len() && (
                    #[trigger] middle.coins.entries@[k]).0@ == id;
                assert(self.coins.entries@[k].0@ == id);
                self.coins.lemma_entry(k);
            }
        }
        assert(self@.coins =~= want);
    }

    /// The balance, unless it exceeds a machine word.
    fn checked_balance(&self) -> (balance: Option<Balance>)
        requires
            self.wf(),
        ensures
            match balance {
                Some(b) => b.confirmed.0 == unspent_total(self@.coins) && b.spendable
                    == b.confirmed,
                None => unspent_total(self@.coins) > u64::MAX,
            },
    {
        let mut total: u64 = 0;
        let ghost entries = self.coins.entries@;
        proof {
            self.coins.lemma_len();
            assert(self@.coins.dom() =~= self.coins@.dom());
            assert forall|i: int| 0 <= i < entries.len() implies self@.coins.contains_key(
                (#[trigger] entries[i]).0@,
            ) && self@.coins[entries[i].0@] == entries[i].1@ by {
                self.coins.lemma_entry(i);
            }
            lemma_entries_total(entries, entries.len(), self@.coins);
        }
        let mut i: usize = 0;
        while i < self.coins.entries.len()
            invariant
                i <= self.coins.entries@.len(),
                entries == self.coins.entries@,
                total == entries_total(entries, i as nat),
                entries_total(entries, entries.len()) == unspent_total(self@.coins),
            decreases self.coins.entries@.len() - i,
        {
            let coin = &self.coins.entries[i].1;
            if coin.spent_height.is_none() {
                match total.checked_add(coin.amount.mojos()) {
                    Some(more) => total = more,
                    None => {
                        proof {
                            lemma_entries_total_grows(entries, i as nat + 1, entries.len());
                        }
                        return None;
                    },
                }
            }
            i = i + 1;
        }
        Some(Balance { confirmed: Amount(total), spendable: Amount(total) })
    }

    /// The unspent coins.
    fn unspent_coins(&self) -> (coins: Vec<CoinRecord>)
        requires
            self.wf(),
        ensures
            lists(coins@.map_values(|c: CoinRecord| c@), unspent_of(self@.coins)),
    {
        let mut coins: Vec<CoinRecord> = Vec::new();
        let ghost mut keys: Seq<Seq<char>> = Seq::empty();
        let ghost held = unspent_of(self@.coins);
        let mut i: usize = 0;
        while i < self.coins.entries.len()
            invariant
                self.wf(),
                held == unspent_of(self@.coins),
                i <= self.coins.entries@.len(),
                keys.len() == coins@.len(),
                forall|k: int|
                    0 <= k < keys.len() ==> held.contains_key(#[trigger] keys[k]) && held[keys[k]]
                        == coins@[k]@,
                forall|k: int|
                    0 <= k < keys.len() ==> exists|e: int|
                        0 <= e < i && (#[trigger] self.coins.entries@[e]).0@ == (
                        #[trigger] keys[k]),
                forall|e: int|
                    0 <= e < i && (#[trigger] self.coins.entries@[e]).1.spent_height is None
                        ==> keys.contains(self.coins.entries@[e].0@),
                keys.no_duplicates(),
            decreases self.coins.entries@.len() - i,
        {
            proof {
                self.coins.lemma_entry(i as int);
            }
            let coin = &self.coins.entries[i].1;
            let ghost id = self.coins.entries@[i as int].0@;
            if coin.spent_height.is_none() {
                coins.push(coin.clone());
                proof {
                    let before = keys;
                    keys = keys.push(id);
                    assert forall|k: int| 0 <= k < before.len() implies before[k] != id by {
                        let e = choose|e: int|
                            0 <= e < i && (#[trigger] self.coins.entries@[e]).0@ == before[k];
                        assert(self.coins.entries@[e].0@ != self.coins.entries@[i as int].0@);
                    }
                    assert forall|e: int| 0 <= e < i + 1 && (
                    #[trigger] self.coins.entries@[e]).1.spent_height is None implies keys.contains(
                        self.coins.entries@[e].0@,
                    ) by {
                        if e < i {
                            let k = choose|k: int|
                                0 <= k < before.len() && before[k] == self.coins.entries@[e].0@;
                            assert(keys[k] == self.coins.entries@[e].0@);
                        } else {
                            assert(keys[before.len() as int] == id);
                        }
                    }
                    assert forall|k: int| 0 <= k < keys.len() implies exists|e: int|
                        0 <= e < i + 1 && (#[trigger] self.coins.entries@[e]).0@ == (
                        #[trigger] keys[k]) by {
                        if k < before.len() {
                            let e = choose|e: int|
                                0 <= e < i && (#[trigger] self.coins.entries@[e]).0@ == before[k];
                            assert(self.coins.entries@[e].0@ == keys[k]);
                        } else {
                            assert(self.coins.entries@[i as int].0@ == keys[k]);
                        }
                    }
                }
            }
            i = i + 1;
        }
        proof {
            assert forall|x: Seq<char>| keys.to_set().contains(x) == held.dom().contains(x) by {
                if keys.contains(x) {
                    let k = choose|k: int| 0 <= k < keys.len() && keys[k] == x;
                    assert(held.contains_key(keys[k]));
                }
                if held.contains_key(x) {
                    let e = choose|e: int|
                        0 <= e < self.coins.entries@.len() && (
                        #[trigger] self.coins.entries@[e]).0@ == x;
                    self.coins.lemma_entry(e);
                }
            }
            assert(keys.to_set() =~= held.dom());
            assert(keys_of(keys, held));
            assert(coins@.map_values(|c: CoinRecord| c@) =~= keys.map_values(
                |k: Seq<char>| held[k],
            ));
        }
        coins
    }

    /// The CAT balance lines.
    fn cat_records(&self) -> (cats: Vec<CatRecord>)
        requires
            self.wf(),
        ensures
            lists(cats@.map_values(|c: CatRecord| c@), self@.cats),
    {
        let mut cats: Vec<CatRecord> = Vec::new();
        let mut i: usize = 0;
        while i < self.cats.entries.len()
            invariant
                i <= self.cats.entries@.len(),
                cats@.len() == i,
                forall|k: int| 0 <= k < i ==> #[trigger] cats@[k] == self.cats.entries@[k].1,
            decreases self.cats.entries@.len() - i,
        {
            cats.push(self.cats.entries[i].1.clone());
            i = i + 1;
        }
        proof {
            let held = self@.cats;
            assert(held.dom() =~= self.cats@.dom());
            lemma_keys_of(self.cats, held);
            let keys = self.cats.entries@.map_values(|e: (String, CatRecord)| e.0@);
            assert forall|k: int| 0 <= k < keys.len() implies #[trigger] held[keys[k]]
                == cats@[k]@ by {
                self.cats.lemma_entry(k);
            }
            assert(cats@.map_values(|c: CatRecord| c@) =~= keys.map_values(
                |k: Seq<char>| held[k],
            ));
        }
        cats
    }

    /// The NFTs.
    fn nft_records(&self) -> (nfts: Vec<NftRecord>)
        requires
            self.wf(),
        ensures
            lists(nfts@.map_values(|n: NftRecord| n@), self@.nfts),
    {
        let mut nfts: Vec<NftRecord> = Vec::new();
        let mut i: usize = 0;
        while i < self.nfts.entries.len()
            invariant
                i <= self.nfts.entries@.len(),
                nfts@.len() == i,
                forall|k: int| 0 <= k < i ==> #[trigger] nfts@[k] == self.nfts.entries@[k].1,
            decreases self.nfts.entries@.len() - i,
        {
            nfts.push(self.nfts.entries[i].1.clone());
            i = i + 1;
        }
        proof {
            let held = self@.nfts;
            assert(held.dom() =~= self.nfts@.dom());
            lemma_keys_of(self.nfts, held);
            let keys = self.nfts.entries@.map_values(|e: (String, NftRecord)| e.0@);
            assert forall|k: int| 0 <= k < keys.len() implies #[trigger] held[keys[k]]
                == nfts@[k]@ by {
                self.nfts.lemma_entry(k);
            }
            assert(nfts@.map_values(|n: NftRecord| n@) =~= keys.map_values(
                |k: Seq<char>| held[k],
            ));
        }
        nfts
    }

    /// The DIDs.
    fn did_records(&self) -> (dids: Vec<DidRecord>)
        requires
            self.wf(),
        ensures
            lists(dids@.map_values(|d: DidRecord| d@), self@.dids),
    {
        let mut dids: Vec<DidRecord> = Vec::new();
        let mut i: usize = 0;
        while i < self.dids.entries.len()
            invariant
                i <= self.dids.entries@.len(),
                dids@.len() == i,
                forall|k: int| 0 <= k < i ==> #[trigger] dids@[k] == self.dids.entries@[k].1,
            decreases self.dids.entries@.len() - i,
        {
            dids.push(self.dids.entries[i].1.clone());
            i = i + 1;
        }
        proof {
            let held = self@.dids;
            assert(held.dom() =~= self.dids@.dom());
            lemma_keys_of(self.dids, held);
            let keys = self.dids.entries@.map_values(|e: (String, DidRecord)| e.0@);
            assert forall|k: int| 0 <= k < keys.len() implies #[trigger] held[keys[k]]
                == dids@[k]@ by {
                self.dids.lemma_entry(k);
            }
            assert(dids@.map_values(|d: DidRecord| d@) =~= keys.map_values(
                |k: Seq<char>| held[k],
            ));
        }
        dids
    }
}

/// Whether an id is that of one of the first `n` entries whose spend is above the fork.
spec fn within(entries: Seq<(String, CoinRecord)>, n: int, fork: u32, id: Seq<char>) -> bool {
    exists|x: int|
        0 <= x < n && (#[trigger] entries[x]).0@ == id && after(entries[x].1.spent_height, fork)
}

/// What the two passes list are the coins that the rollback touches.
proof fn lemma_touched(
    middle: WalletState,
    start: Map<Seq<char>, CoinRecordView>,
    fork: u32,
    forgotten: Seq<String>,
    affected: Seq<String>,
)
    requires
        middle.wf(),
        forall|id: Seq<char>| #[trigger]
            middle@.coins.contains_key(id) == (start.contains_key(id) && !named(forgotten, id)),
        forall|id: Seq<char>| #[trigger]
            middle@.coins.contains_key(id) ==> middle@.coins[id] == start[id] && !after(
                start[id].created_height,
                fork,
            ),
        forall|k: int|
            0 <= k < forgotten.len() ==> forgets(start, fork, (#[trigger] forgotten[k])@),
        forall|a: int, b: int|
            0 <= a < b < forgotten.len() ==> (#[trigger] forgotten[a])@ != (
            #[trigger] forgotten[b])@,
        forgotten.len() <= affected.len(),
        affected.take(forgotten.len() as int) == forgotten,
        forall|k: int|
            forgotten.len() <= k < affected.len() ==> within(
                middle.coins.entries@,
                middle.coins.entries@.len() as int,
                fork,
                (#[trigger] affected[k])@,
            ),
        forall|k: int|
            0 <= k < middle.coins.entries@.len() && after(
                (#[trigger] middle.coins.entries@[k]).1.spent_height,
                fork,
            ) ==> named(affected, middle.coins.entries@[k].0@),
        forall|a: int, b: int|
            forgotten.len() <= a < b < affected.len() ==> (#[trigger] affected[a])@ != (
            #[trigger] affected[b])@,
    ensures
        touched(start, fork, affected),
{
    let n = forgotten.len() as int;
    assert forall|k: int| 0 <= k < n implies #[trigger] affected[k] == forgotten[k] by {
        assert(affected.take(n)[k] == affected[k]);
    }
    assert forall|k: int| n <= k < affected.len() implies unspends(
        start,
        fork,
        (#[trigger] affected[k])@,
    ) by {
        let x = choose|x: int|
            0 <= x < middle.coins.entries@.len() && (#[trigger] middle.coins.entries@[x]).0@
                == affected[k]@ && after(middle.coins.entries@[x].1.spent_height, fork);
        middle.coins.lemma_entry(x);
        assert(middle@.coins.contains_key(affected[k]@));
    }
    assert forall|i: int, j: int| 0 <= i < j < affected.len() implies (#[trigger] affected[i])@ != (
    #[trigger] affected[j])@ by {
        if i < n {
            assert(forgets(start, fork, forgotten[i]@));
            if j < n {
                assert(forgotten[i]@ != forgotten[j]@);
            }
        }
    }
    assert forall|i: int| 0 <= i < affected.len() implies forgets(
        start,
        fork,
        (#[trigger] affected[i])@,
    ) || unspends(start, fork, affected[i]@) by {
        if i < n {
            assert(forgets(start, fork, forgotten[i]@));
        }
    }
    assert forall|id: Seq<char>|
        forgets(start, fork, id) || unspends(start, fork, id) implies named(affected, id) by {
        if forgets(start, fork, id) {
            assert(!middle@.coins.contains_key(id));
            let k = choose|k: int| 0 <= k < forgotten.len() && (#[trigger] forgotten[k])@ == id;
            assert(affected[k]@ == id);
        } else {
            if !middle@.coins.contains_key(id) {
                let k = choose|k: int| 0 <= k < forgotten.len() && (#[trigger] forgotten[k])@ == id;
                assert(forgets(start, fork, forgotten[k]@));
            }
            let x = choose|x: int|
                0 <= x < middle.coins.entries@.len() && (#[trigger] middle.coins.entries@[x]).0@
                    == id;
            middle.coins.lemma_entry(x);
        }
    }
    assert forall|i: int, j: int| 0 <= i < j < affected.len() && forgets(
        start,
        fork,
        (#[trigger] affected[j])@,
    ) implies forgets(start, fork, (#[trigger] affected[i])@) by {
        if j >= n {
            assert(unspends(start, fork, affected[j]@));
        } else {
            assert(forgets(start, fork, forgotten[i]@));
        }
    }
}

/// Whether a height is known and above another.
fn is_after(height: Option<u32>, fork: u32) -> (above: bool)
    ensures
        above == after(height, fork),
{
    match height {
        Some(h) => h > fork,
        None => false,
    }
}

/// Whether two records say the same.
fn same_record(a: &CoinRecord, b: &CoinRecord) -> (same: bool)
    ensures
        same == (a@ == b@),
{
    same_text(&a.coin_id, &b.coin_id) && same_text(&a.puzzle_hash.0, &b.puzzle_hash.0) && a.amount.0
        == b.amount.0 && same_height(a.created_height, b.created_height) && same_height(
        a.spent_height,
        b.spent_height,
    )
}

/// Whether two heights are the same.
fn same_height(a: Option<u32>, b: Option<u32>) -> (same: bool)
    ensures
        same == (a == b),
{
    match (a, b) {
        (Some(x), Some(y)) => x == y,
        (None, None) => true,
        _ => false,
    }
}

/// Decides how an update changes a coin.
pub fn classify_coin_change(previous: Option<&CoinRecord>, incoming: &CoinRecord) -> (change:
    CoinChange)
    ensures
        change == change_of(
            match previous {
                Some(known) => Some(known@),
                None => None,
            },
            incoming@,
        ),
{
    match previous {
        None => if incoming.spent_height.is_some() {
            CoinChange::Spent
        } else {
            CoinChange::Created
        },
        Some(known) => if same_record(known, incoming) {
            CoinChange::Unchanged
        } else if known.spent_height.is_none() && incoming.spent_height.is_some() {
            CoinChange::Spent
        } else {
            CoinChange::Updated
        },
    }
}

/// The state of every wallet, in memory. A wallet that was never written to reads as fresh.
#[derive(Debug)]
pub struct InMemoryWalletStore {
    wallets: Vec<(WalletId, WalletState)>,
}

impl InMemoryWalletStore {
    /// No wallet is listed twice, and every state is in order.
    pub closed spec fn wf(self) -> bool {
        &&& forall|i: int, j: int|
            0 <= i < j < self.wallets@.len() ==> (#[trigger] self.wallets@[i]).0 != (
            #[trigger] self.wallets@[j]).0
        &&& forall|i: int| 0 <= i < self.wallets@.len() ==> (#[trigger] self.wallets@[i]).1.wf()
    }

    /// The state of a wallet.
    pub closed spec fn state(self, wallet_id: WalletId) -> WalletStateView {
        if exists|i: int|
            0 <= i < self.wallets@.len() && (#[trigger] self.wallets@[i]).0 == wallet_id {
            let i = choose|i: int|
                0 <= i < self.wallets@.len() && (#[trigger] self.wallets@[i]).0 == wallet_id;
            self.wallets@[i].1@
        } else {
            fresh_state()
        }
    }

    proof fn lemma_state(self, i: int)
        requires
            self.wf(),
            0 <= i < self.wallets@.len(),
        ensures
            self.state(self.wallets@[i].0) == self.wallets@[i].1@,
    {
        let id = self.wallets@[i].0;
        let k = choose|k: int| 0 <= k < self.wallets@.len() && (#[trigger] self.wallets@[k]).0 == id;
        if k < i {
            assert(self.wallets@[k].0 != self.wallets@[i].0);
        } else if i < k {
            assert(self.wallets@[i].0 != self.wallets@[k].0);
        }
    }

    /// A store that differs from another only in the state at one position.
    proof fn lemma_changed_at(self, before: InMemoryWalletStore, i: int)
        requires
            before.wf(),
            0 <= i < before.wallets@.len(),
            self.wallets@.len() == before.wallets@.len(),
            self.wallets@[i].0 == before.wallets@[i].0,
            self.wallets@[i].1.wf(),
            forall|k: int|
                0 <= k < self.wallets@.len() && k != i ==> #[trigger] self.wallets@[k]
                    == before.wallets@[k],
        ensures
            self.wf(),
            self.state(self.wallets@[i].0) == self.wallets@[i].1@,
            before.state(self.wallets@[i].0) == before.wallets@[i].1@,
            forall|other: WalletId|
                other != self.wallets@[i].0 ==> #[trigger] self.state(other) == before.state(
                    other,
                ),
    {
        assert forall|a: int, b: int| 0 <= a < b < self.wallets@.len() implies (
        #[trigger] self.wallets@[a]).0 != (#[trigger] self.wallets@[b]).0 by {
            assert(before.wallets@[a].0 != before.wallets@[b].0);
        }
        assert forall|k: int| 0 <= k < self.wallets@.len() implies (
        #[trigger] self.wallets@[k]).1.wf() by {
            assert(before.wallets@[k].1.wf());
        }
        self.lemma_state(i);
        before.lemma_state(i);
        assert forall|other: WalletId| other != self.wallets@[i].0 implies #[trigger] self.state(
            other,
        ) == before.state(other) by {
            if exists|k: int| 0 <= k < before.wallets@.len() && (#[trigger] before.wallets@[k]).0 == other {
                let k = choose|k: int|
                    0 <= k < before.wallets@.len() && (#[trigger] before.wallets@[k]).0 == other;
                assert(self.wallets@[k] == before.wallets@[k]);
                before.lemma_state(k);
                self.lemma_state(k);
            } else {
                assert forall|k: int| 0 <= k < self.wallets@.len() implies (
                #[trigger] self.wallets@[k]).0 != other by {
                    assert(before.wallets@[k].0 != other);
                }
            }
        }
    }

    /// An empty store.
    pub fn new() -> (store: Self)
        ensures
            store.wf(),
            forall|id: WalletId| #[trigger] store.state(id) == fresh_state(),
    {
        InMemoryWalletStore { wallets: Vec::new() }
    }

    /// The position of a wallet, if it was written to.
    fn find(&self, wallet_id: WalletId) -> (at: Option<usize>)
        requires
            self.wf(),
        ensures
            match at {
                Some(i) => i < self.wallets@.len() && self.wallets@[i as int].0 == wallet_id
                    && self.state(wallet_id) == self.wallets@[i as int].1@
                    && self.wallets@[i as int].1.wf(),
                None => self.state(wallet_id) == fresh_state() && forall|k: int|
                    0 <= k < self.wallets@.len() ==> (#[trigger] self.wallets@[k]).0 != wallet_id,
            },
    {
        let mut i: usize = 0;
        while i < self.wallets.len()
            invariant
                self.wf(),
                i <= self.wallets@.len(),
                forall|k: int| 0 <= k < i ==> (#[trigger] self.wallets@[k]).0 != wallet_id,
            decreases self.wallets@.len() - i,
        {
            if self.wallets[i].0 == wallet_id {
                proof {
                    self.lemma_state(i as int);
                }
                return Some(i);
            }
            i = i + 1;
        }
        None
    }

    /// The position of a wallet, which is given a fresh state if it has none.
    fn slot(&mut self, wallet_id: WalletId) -> (at: usize)
        requires
            old(self).wf(),
        ensures
            final(self).wf(),
            at < final(self).wallets@.len(),
            final(self).wallets@[at as int].0 == wallet_id,
            final(self).wallets@[at as int].1@ == old(self).state(wallet_id),
            final(self).wallets@[at as int].1.wf(),
            forall|id: WalletId| #[trigger] final(self).state(id) == old(self).state(id),
    {
        match self.find(wallet_id) {
            Some(i) => i,
            None => {
                let n: usize = self.wallets.len();
                self.wallets.push((wallet_id, WalletState::new()));
                proof {
                    let before = old(self).wallets@;
                    assert forall|a: int, b: int| 0 <= a < b < self.wallets@.len() implies (
                    #[trigger] self.wallets@[a]).0 != (#[trigger] self.wallets@[b]).0 by {
                        assert(self.wallets@[a] == before[a]);
                        if b < n {
                            assert(self.wallets@[b] == before[b]);
                        }
                    }
                    assert forall|k: int| 0 <= k < self.wallets@.len() implies (
                    #[trigger] self.wallets@[k]).1.wf() by {
                        if k < n {
                            assert(self.wallets@[k] == before[k]);
                        }
                    }
                    self.lemma_state(n as int);
                    assert forall|id: WalletId| #[trigger] self.state(id) == old(self).state(
                        id,
                    ) by {
                        if id != wallet_id {
                            if exists|k: int| 0 <= k < before.len() && (#[trigger] before[k]).0 == id {
                                let k = choose|k: int|
                                    0 <= k < before.len() && (#[trigger] before[k]).0 == id;
                                assert(self.wallets@[k] == before[k]);
                                old(self).lemma_state(k);
                                self.lemma_state(k);
                            } else {
                                assert forall|k: int| 0 <= k < self.wallets@.len() implies (
                                #[trigger] self.wallets@[k]).0 != id by {
                                    if k < n {
                                        assert(self.wallets@[k] == before[k]);
                                    }
                                }
                            }
                        }
                    }
                }
                n
            },
        }
    }

    /// Applies a coin update and says how it changed the coin.
    pub fn apply_coin_state(&mut self, wallet_id: WalletId, record: CoinRecord) -> (change:
        CoinChange)
        requires
            old(self).wf(),
        ensures
            final(self).wf(),
            final(self).state(wallet_id) == applied(old(self).state(wallet_id), record@),
            change == change_of(
                coin_in(old(self).state(wallet_id).coins, record.coin_id@),
                record@,
            ),
            forall|other: WalletId|
                other != wallet_id ==> #[trigger] final(self).state(other) == old(self).state(
                    other,
                ),
    {
        let i: usize = self.slot(wallet_id);
        let ghost before = *self;
        let slot = &mut self.wallets[i];
        let change = slot.1.apply_coin_state(record);
        proof {
            self.lemma_changed_at(before, i as int);
        }
        change
    }

    /// Rolls a wallet back to a fork: forgets the coins created above it, takes back the spends
    /// above it, and sets the peak to it. Names the coins that it touched.
    pub fn rollback_to(&mut self, wallet_id: WalletId, fork_height: u32) -> (affected: Vec<String>)
        requires
            old(self).wf(),
        ensures
            final(self).wf(),
            final(self).state(wallet_id) == rolled_back_state(
                old(self).state(wallet_id),
                fork_height,
            ),
            touched(old(self).state(wallet_id).coins, fork_height, affected@),
            forall|other: WalletId|
                other != wallet_id ==> #[trigger] final(self).state(other) == old(self).state(
                    other,
                ),
    {
        let i: usize = self.slot(wallet_id);
        let ghost before = *self;
        let slot = &mut self.wallets[i];
        let affected = slot.1.rollback_to(fork_height);
        proof {
            self.lemma_changed_at(before, i as int);
        }
        affected
    }

    /// Advances the processed height; it never goes back.
    pub fn set_peak(&mut self, wallet_id: WalletId, peak_height: u32)
        requires
            old(self).wf(),
        ensures
            final(self).wf(),
            final(self).state(wallet_id) == peak_raised(old(self).state(wallet_id), peak_height),
            forall|other: WalletId|
                other != wallet_id ==> #[trigger] final(self).state(other) == old(self).state(
                    other,
                ),
    {
        let i: usize = self.slot(wallet_id);
        let ghost before = *self;
        let slot = &mut self.wallets[i];
        if peak_height > slot.1.peak_height {
            slot.1.peak_height = peak_height;
        }
        proof {
            self.lemma_changed_at(before, i as int);
        }
    }

    /// Records where the sync loop is and the tip that it aims for.
    pub fn set_sync_status(&mut self, wallet_id: WalletId, lifecycle: SyncLifecycle, target: u32)
        requires
            old(self).wf(),
        ensures
            final(self).wf(),
            final(self).state(wallet_id) == status_set(
                old(self).state(wallet_id),
                lifecycle,
                target,
            ),
            forall|other: WalletId|
                other != wallet_id ==> #[trigger] final(self).state(other) == old(self).state(
                    other,
                ),
    {
        let i: usize = self.slot(wallet_id);
        let ghost before = *self;
        let slot = &mut self.wallets[i];
        slot.1.lifecycle = lifecycle;
        slot.1.target_height = target;
        proof {
            self.lemma_changed_at(before, i as int);
        }
    }

    /// Writes a CAT balance line, in place of one of the same asset.
    pub fn upsert_cat(&mut self, wallet_id: WalletId, record: CatRecord)
        requires
            old(self).wf(),
        ensures
            final(self).wf(),
            final(self).state(wallet_id) == (WalletStateView {
                cats: old(self).state(wallet_id).cats.insert(record.asset_id@, record@),
                ..old(self).state(wallet_id)
            }),
            forall|other: WalletId|
                other != wallet_id ==> #[trigger] final(self).state(other) == old(self).state(
                    other,
                ),
    {
        let i: usize = self.slot(wallet_id);
        let ghost before = *self;
        let slot = &mut self.wallets[i];
        slot.1.cats.insert(record.asset_id.0.clone(), record);
        proof {
            assert(self.wallets@[i as int].1@.cats =~= before.wallets@[i as int].1@.cats.insert(
                record.asset_id@,
                record@,
            ));
            self.lemma_changed_at(before, i as int);
        }
    }

    /// Writes an NFT, in place of one of the same launcher.
    pub fn upsert_nft(&mut self, wallet_id: WalletId, record: NftRecord)
        requires
            old(self).wf(),
        ensures
            final(self).wf(),
            final(self).state(wallet_id) == (WalletStateView {
                nfts: old(self).state(wallet_id).nfts.insert(record.launcher_id@, record@),
                ..old(self).state(wallet_id)
            }),
            forall|other: WalletId|
                other != wallet_id ==> #[trigger] final(self).state(other) == old(self).state(
                    other,
                ),
    {
        let i: usize = self.slot(wallet_id);
        let ghost before = *self;
        let slot = &mut self.wallets[i];
        slot.1.nfts.insert(record.launcher_id.clone(), record);
        proof {
            assert(self.wallets@[i as int].1@.nfts =~= before.wallets@[i as int].1@.nfts.insert(
                record.launcher_id@,
                record@,
            ));
            self.lemma_changed_at(before, i as int);
        }
    }

    /// Writes a DID, in place of one of the same launcher.
    pub fn upsert_did(&mut self, wallet_id: WalletId, record: DidRecord)
        requires
            old(self).wf(),
        ensures
            final(self).wf(),
            final(self).state(wallet_id) == (WalletStateView {
                dids: old(self).state(wallet_id).dids.insert(record.launcher_id@, record@),
                ..old(self).state(wallet_id)
            }),
            forall|other: WalletId|
                other != wallet_id ==> #[trigger] final(self).state(other) == old(self).state(
                    other,
                ),
    {
        let i: usize = self.slot(wallet_id);
        let ghost before = *self;
        let slot = &mut self.wallets[i];
        slot.1.dids.insert(record.launcher_id.clone(), record);
        proof {
            assert(self.wallets@[i as int].1@.dids =~= before.wallets@[i as int].1@.dids.insert(
                record.launcher_id@,
                record@,
            ));
            self.lemma_changed_at(before, i as int);
        }
    }

    /// Appends a settled transaction to the history.
    pub fn record_transaction(&mut self, wallet_id: WalletId, record: TransactionRecord)
        requires
            old(self).wf(),
        ensures
            final(self).wf(),
            final(self).state(wallet_id) == (WalletStateView {
                history: old(self).state(wallet_id).history.push(record@),
                ..old(self).state(wallet_id)
            }),
            forall|other: WalletId|
                other != wallet_id ==> #[trigger] final(self).state(other) == old(self).state(
                    other,
                ),
    {
        let i: usize = self.slot(wallet_id);
        let ghost before = *self;
        let slot = &mut self.wallets[i];
        slot.1.history.push(record);
        proof {
            assert(self.wallets@[i as int].1@.history =~= before.wallets@[i as int].1@.history.push(
                record@,
            ));
            self.lemma_changed_at(before, i as int);
        }
    }

    /// A tracked coin.
    pub fn coin(&self, wallet_id: WalletId, coin_id: &str) -> (coin: Option<CoinRecord>)
        requires
            self.wf(),
        ensures
            match coin {
                Some(record) => coin_in(self.state(wallet_id).coins, coin_id@) == Some(record@),
                None => coin_in(self.state(wallet_id).coins, coin_id@) is None,
            },
    {
        match self.find(wallet_id) {
            None => None,
            Some(i) => match self.wallets[i].1.coins.get(&coin_id.to_owned()) {
                Some(record) => Some(record.clone()),
                None => None,
            },
        }
    }

    /// The height that a wallet has processed up to.
    pub fn peak_height(&self, wallet_id: WalletId) -> (height: u32)
        requires
            self.wf(),
        ensures
            height == self.state(wallet_id).peak_height,
    {
        match self.find(wallet_id) {
            None => 0,
            Some(i) => self.wallets[i].1.peak_height,
        }
    }

    /// The native balance.
    pub fn balance(&self, identity: &IdentityRef) -> (result: WalletResult<Balance>)
        requires
            self.wf(),
            unspent_total(self.state(identity.wallet_id).coins) <= u64::MAX,
        ensures
            result matches Ok(balance) && balance.confirmed.0 == unspent_total(
                self.state(identity.wallet_id).coins,
            ) && balance.spendable == balance.confirmed,
    {
        match self.checked_balance(identity) {
            Some(balance) => Ok(balance),
            None => Ok(Balance { confirmed: Amount(0), spendable: Amount(0) }),
        }
    }

    /// The native balance, unless it exceeds a machine word.
    pub fn checked_balance(&self, identity: &IdentityRef) -> (balance: Option<Balance>)
        requires
            self.wf(),
        ensures
            match balance {
                Some(b) => b.confirmed.0 == unspent_total(self.state(identity.wallet_id).coins)
                    && b.spendable == b.confirmed,
                None => unspent_total(self.state(identity.wallet_id).coins) > u64::MAX,
            },
    {
        match self.find(identity.wallet_id) {
            None => Some(Balance { confirmed: Amount(0), spendable: Amount(0) }),
            Some(i) => self.wallets[i].1.checked_balance(),
        }
    }

    /// The unspent coins, in no particular order.
    pub fn coins(&self, identity: &IdentityRef) -> (result: WalletResult<Vec<CoinRecord>>)
        requires
            self.wf(),
        ensures
            result matches Ok(coins) && lists(
                coins@.map_values(|c: CoinRecord| c@),
                unspent_of(self.state(identity.wallet_id).coins),
            ),
    {
        match self.find(identity.wallet_id) {
            None => Ok(WalletState::new().unspent_coins()),
            Some(i) => Ok(self.wallets[i].1.unspent_coins()),
        }
    }

    /// The CAT balance lines, in no particular order.
    pub fn cats(&self, identity: &IdentityRef) -> (result: WalletResult<Vec<CatRecord>>)
        requires
            self.wf(),
        ensures
            result matches Ok(cats) && lists(
                cats@.map_values(|c: CatRecord| c@),
                self.state(identity.wallet_id).cats,
            ),
    {
        match self.find(identity.wallet_id) {
            None => Ok(WalletState::new().cat_records()),
            Some(i) => Ok(self.wallets[i].1.cat_records()),
        }
    }

    /// The NFTs, in no particular order.
    pub fn nfts(&self, identity: &IdentityRef) -> (result: WalletResult<Vec<NftRecord>>)
        requires
            self.wf(),
        ensures
            result matches Ok(nfts) && lists(
                nfts@.map_values(|n: NftRecord| n@),
                self.state(identity.wallet_id).nfts,
            ),
    {
        match self.find(identity.wallet_id) {
            None => Ok(WalletState::new().nft_records()),
            Some(i) => Ok(self.wallets[i].1.nft_records()),
        }
    }

    /// The DIDs, in no particular order.
    pub fn dids(&self, identity: &IdentityRef) -> (result: WalletResult<Vec<DidRecord>>)
        requires
            self.wf(),
        ensures
            result matches Ok(dids) && lists(
                dids@.map_values(|d: DidRecord| d@),
                self.state(identity.wallet_id).dids,
            ),
    {
        match self.find(identity.wallet_id) {
            None => Ok(WalletState::new().did_records()),
            Some(i) => Ok(self.wallets[i].1.did_records()),
        }
    }

    /// The settled transactions, oldest first.
    pub fn history(&self, identity: &IdentityRef) -> (result: WalletResult<Vec<TransactionRecord>>)
        requires
            self.wf(),
        ensures
            result matches Ok(history) && history@.map_values(|t: TransactionRecord| t@)
                == self.state(identity.wallet_id).history,
    {
        let mut history: Vec<TransactionRecord> = Vec::new();
        match self.find(identity.wallet_id) {
            None => {},
            Some(w) => {
                let held = &self.wallets[w].1.history;
                let mut i: usize = 0;
                while i < held.len()
                    invariant
                        i <= held@.len(),
                        history@.len() == i,
                        forall|k: int| 0 <= k < i ==> (#[trigger] history@[k])@ == held@[k]@,
                    decreases held@.len() - i,
                {
                    history.push(held[i].clone());
                    i = i + 1;
                }
            },
        }
        assert(history@.map_values(|t: TransactionRecord| t@) =~= self.state(
            identity.wallet_id,
        ).history);
        Ok(history)
    }

    /// Where the sync loop is.
    pub fn sync_status(&self, identity: &IdentityRef) -> (result: WalletResult<SyncStatus>)
        requires
            self.wf(),
        ensures
            result == Ok::<SyncStatus, crate::types::error::WalletError>(
                status_of(self.state(identity.wallet_id)),
            ),
    {
        match self.find(identity.wallet_id) {
            None => Ok(
                SyncStatus { state: SyncLifecycle::Idle, peak_height: 0, target_height: 0 },
            ),
            Some(i) => Ok(
                SyncStatus {
                    state: self.wallets[i].1.lifecycle,
                    peak_height: self.wallets[i].1.peak_height,
                    target_height: self.wallets[i].1.target_height,
                },
            ),
        }
    }
}

impl Default for InMemoryWalletStore {
    /// An empty store.
    fn default() -> (store: Self)
        ensures
            store.wf(),
            forall|id: WalletId| #[trigger] store.state(id) == fresh_state(),
    {
        InMemoryWalletStore::new()
    }
}

/// Delivering a coin again changes nothing and is reported as no change.
pub proof fn redelivery_changes_nothing(state: WalletStateView, record: CoinRecordView)
    ensures
        applied(applied(state, record), record) == applied(state, record),
        change_of(coin_in(applied(state, record).coins, record.coin_id), record)
            == CoinChange::Unchanged,
{
    assert(applied(applied(state, record), record).coins =~= applied(state, record).coins);
}

/// After a rollback nothing is left above the fork, rolling back again changes nothing more, and
/// a coin that was wholly below the fork is as it was.
pub proof fn a_rollback_leaves_nothing_above_the_fork(
    coins: Map<Seq<char>, CoinRecordView>,
    fork: u32,
    id: Seq<char>,
)
    ensures
        rolled_back(coins, fork).contains_key(id) ==> !after(
            rolled_back(coins, fork)[id].created_height,
            fork,
        ) && !after(rolled_back(coins, fork)[id].spent_height, fork),
        rolled_back(rolled_back(coins, fork), fork) == rolled_back(coins, fork),
        coins.contains_key(id) && !after(coins[id].created_height, fork) && !after(
            coins[id].spent_height,
            fork,
        ) ==> rolled_back(coins, fork).contains_key(id) && rolled_back(coins, fork)[id]
            == coins[id],
        !forgets(rolled_back(coins, fork), fork, id) && !unspends(
            rolled_back(coins, fork),
            fork,
            id,
        ),
{
    assert(rolled_back(rolled_back(coins, fork), fork) =~= rolled_back(coins, fork));
}

/// A coin counts toward the balance while it is unspent: a created coin adds its amount, and one
/// that becomes spent takes it away.
pub proof fn the_balance_follows_the_coins(state: WalletStateView, record: CoinRecordView)
    requires
        state.coins.dom().finite(),
    ensures
        unspent_total(applied(state, record).coins) == unspent_total(
            state.coins.remove(record.coin_id),
        ) + unspent_value(record),
        change_of(coin_in(state.coins, record.coin_id), record) == CoinChange::Created
            ==> unspent_total(applied(state, record).coins) == unspent_total(state.coins)
            + record.amount,
        change_of(coin_in(state.coins, record.coin_id), record) == CoinChange::Spent
            && state.coins.contains_key(record.coin_id) ==> unspent_total(
            applied(state, record).coins,
        ) + state.coins[record.coin_id].amount == unspent_total(state.coins),
        change_of(coin_in(state.coins, record.coin_id), record) == CoinChange::Unchanged
            ==> unspent_total(applied(state, record).coins) == unspent_total(state.coins),
{
    let id = record.coin_id;
    let next = applied(state, record).coins;
    assert(next.dom().finite());
    lemma_total_remove(next, id);
    assert(next.remove(id) =~= state.coins.remove(id));
    if state.coins.contains_key(id) {
        lemma_total_remove(state.coins, id);
    } else {
        assert(state.coins.remove(id) =~= state.coins);
    }
}

/// A wallet without coins has no balance.
pub proof fn a_fresh_wallet_has_no_balance()
    ensures
        unspent_total(fresh_state().coins) == 0,
{
}

} // verus!
