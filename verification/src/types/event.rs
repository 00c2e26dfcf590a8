//! The event taxonomy, cursors and subscription filters.

use dig_events_protocol::EventKind as ProtocolKind;
use vstd::prelude::*;

use super::identity::WalletId;
use super::value::{clone_asset, clone_text, Amount, AssetId};

verus! {

/// A sequence number stamped on delivered events. A subscriber remembers the last one it saw and
/// asks for what came after it.
#[derive(Debug, Clone, Copy, PartialEq, Eq, PartialOrd, Ord, Hash, Structural)]
pub struct Cursor(pub u64);

impl Default for Cursor {
    /// The cursor before every event.
    fn default() -> (cursor: Self)
        ensures
            cursor.0 == 0,
    {
        Cursor(0)
    }
}

impl Cursor {
    /// The next cursor in sequence.
    pub fn next(self) -> (next: Cursor)
        requires
            self.0 < u64::MAX,
        ensures
            next.0 == self.0 + 1,
    {
        Cursor(self.0 + 1)
    }
}

/// Where the sync loop is relative to the chain tip.
#[derive(Debug, Clone, Copy, PartialEq, Eq, Hash, Structural)]
pub enum SyncLifecycle {
    /// Not yet started, or no peer.
    Idle,
    /// Catching up to the tip.
    Syncing,
    /// Caught up and tracking the tip.
    Synced,
}

/// A snapshot of the sync state of a wallet.
#[derive(Debug, Clone, Copy, PartialEq, Eq, Structural)]
pub struct SyncStatus {
    /// The lifecycle.
    pub state: SyncLifecycle,
    /// The height that the wallet has processed up to.
    pub peak_height: u32,
    /// The tip height that the wallet is syncing toward.
    pub target_height: u32,
}

/// The kind of a [`WalletEvent`], by which subscribers filter.
#[derive(Debug, Clone, Copy, PartialEq, Eq, Hash, Structural)]
pub enum EventKind {
    /// Inbound value landed.
    FundsReceived,
    /// Outbound value confirmed.
    FundsSent,
    /// A tracked coin was created or spent.
    CoinStateChanged,
    /// A submitted transaction confirmed.
    Confirmation,
    /// A submitted transaction failed.
    TransactionFailed,
    /// A new chain tip was observed.
    NewTip,
    /// Sync progress advanced.
    SyncProgress,
    /// CAT metadata became available.
    CatInfo,
    /// DID metadata became available.
    DidInfo,
    /// NFT data became available.
    NftData,
    /// A new receive address became active.
    Derivation,
}

/// A set of `enumset` over the event kinds of `dig_events_protocol`.
#[verifier::external_body]
#[derive(Debug)]
pub struct KindSet {
    set: enumset::EnumSet<ProtocolKind>,
}

/// The event kind of `dig_events_protocol`, which a set of `enumset` can hold.
#[verifier::external_type_specification]
#[verifier::external_body]
pub struct ExProtocolKind(ProtocolKind);

/// The kinds that a set holds.
pub uninterp spec fn kinds_in(set: KindSet) -> Set<EventKind>;

/// Writes a kind in the type of `dig_events_protocol`, variant by variant.
#[verifier::external_body]
fn protocol_kind(kind: EventKind) -> ProtocolKind {
    match kind {
        EventKind::FundsReceived => ProtocolKind::FundsReceived,
        EventKind::FundsSent => ProtocolKind::FundsSent,
        EventKind::CoinStateChanged => ProtocolKind::CoinStateChanged,
        EventKind::Confirmation => ProtocolKind::Confirmation,
        EventKind::TransactionFailed => ProtocolKind::TransactionFailed,
        EventKind::NewTip => ProtocolKind::NewTip,
        EventKind::SyncProgress => ProtocolKind::SyncProgress,
        EventKind::CatInfo => ProtocolKind::CatInfo,
        EventKind::DidInfo => ProtocolKind::DidInfo,
        EventKind::NftData => ProtocolKind::NftData,
        EventKind::Derivation => ProtocolKind::Derivation,
    }
}

/// The set of every kind.
///
/// Calls `EnumSet::all`.
#[verifier::external_body]
fn every_kind() -> (set: KindSet)
    ensures
        kinds_in(set) == Set::<EventKind>::full(),
{
    KindSet { set: enumset::EnumSet::all() }
}

/// The set without any kind.
///
/// Calls `EnumSet::empty`.
#[verifier::external_body]
fn no_kind() -> (set: KindSet)
    ensures
        kinds_in(set) == Set::<EventKind>::empty(),
{
    KindSet { set: enumset::EnumSet::empty() }
}

/// Puts a kind into a set.
///
/// Calls `EnumSet::insert`.
#[verifier::external_body]
fn insert_kind(kinds: &mut KindSet, kind: EventKind)
    ensures
        kinds_in(*final(kinds)) == kinds_in(*old(kinds)).insert(kind),
{
    kinds.set.insert(protocol_kind(kind));
}

/// Whether a set holds a kind.
///
/// Calls `EnumSet::contains`.
#[verifier::external_body]
fn contains_kind(kinds: &KindSet, kind: EventKind) -> (held: bool)
    ensures
        held == kinds_in(*kinds).contains(kind),
{
    kinds.set.contains(protocol_kind(kind))
}

/// A set of event kinds: what a subscriber wants to see.
#[derive(Debug)]
pub struct EventFilter {
    kinds: KindSet,
}

impl View for EventFilter {
    type V = Set<EventKind>;

    closed spec fn view(&self) -> Set<EventKind> {
        kinds_in(self.kinds)
    }
}

impl EventFilter {
    /// The filter that admits every kind.
    pub fn all() -> (filter: Self)
        ensures
            filter@ == Set::<EventKind>::full(),
    {
        EventFilter { kinds: every_kind() }
    }

    /// The filter that admits no kind.
    pub fn none() -> (filter: Self)
        ensures
            filter@ == Set::<EventKind>::empty(),
    {
        EventFilter { kinds: no_kind() }
    }

    /// The filter that admits one kind.
    pub fn only(kind: EventKind) -> (filter: Self)
        ensures
            filter@ == Set::<EventKind>::empty().insert(kind),
    {
        let mut kinds = no_kind();
        insert_kind(&mut kinds, kind);
        EventFilter { kinds }
    }

    /// This filter, widened by a kind.
    pub fn and(self, kind: EventKind) -> (filter: Self)
        ensures
            filter@ == self@.insert(kind),
    {
        let mut kinds = self.kinds;
        insert_kind(&mut kinds, kind);
        EventFilter { kinds }
    }

    /// Whether the filter admits a kind.
    pub fn contains(&self, kind: EventKind) -> (admitted: bool)
        ensures
            admitted == self@.contains(kind),
    {
        contains_kind(&self.kinds, kind)
    }
}

/// An event with the cursor that it was delivered under.
#[derive(Debug, PartialEq, Eq)]
pub struct EmittedEvent {
    /// The delivery cursor.
    pub cursor: Cursor,
    /// The event.
    pub event: WalletEvent,
}

impl Clone for EmittedEvent {
    fn clone(&self) -> (copy: Self)
        ensures
            copy == *self,
    {
        EmittedEvent { cursor: self.cursor, event: self.event.clone() }
    }
}

/// What the engine tells its subscribers.
#[derive(Debug, PartialEq, Eq)]
pub enum WalletEvent {
    /// Inbound value landed for a wallet.
    FundsReceived {
        /// The wallet that received value.
        wallet_id: WalletId,
        /// The asset received; `None` is native XCH.
        asset: Option<AssetId>,
        /// The amount received.
        amount: Amount,
        /// The receiving coin id (hex).
        coin_id: String,
        /// The confirmation height.
        confirmed_height: u32,
    },
    /// Outbound value confirmed for a wallet.
    FundsSent {
        /// The wallet that sent value.
        wallet_id: WalletId,
        /// The asset sent; `None` is native XCH.
        asset: Option<AssetId>,
        /// The amount sent.
        amount: Amount,
        /// The transaction id (hex).
        tx_id: String,
        /// The confirmation height.
        confirmed_height: u32,
    },
    /// A tracked coin changed state.
    CoinStateChanged {
        /// The affected coin id (hex).
        coin_id: String,
        /// Whether the coin is now spent.
        spent: bool,
        /// The height it was created at, if known.
        created_height: Option<u32>,
        /// The height it was spent at, if spent.
        spent_height: Option<u32>,
    },
    /// A submitted transaction confirmed on chain.
    Confirmation {
        /// The transaction id (hex).
        tx_id: String,
        /// The confirmation height.
        height: u32,
    },
    /// A submitted transaction was rejected or never confirmed.
    TransactionFailed {
        /// The transaction id (hex).
        tx_id: String,
        /// The reason, for a reader.
        error: String,
    },
    /// A new chain tip was observed.
    NewTip {
        /// The tip height.
        height: u32,
        /// The tip header hash (hex).
        header_hash: String,
    },
    /// Sync progress advanced for a wallet.
    SyncProgress {
        /// The wallet whose sync advanced.
        wallet_id: WalletId,
        /// The lifecycle.
        state: SyncLifecycle,
        /// The processed height.
        peak_height: u32,
        /// The tip height being synced toward.
        target_height: u32,
    },
    /// CAT metadata of an asset became available.
    CatInfo {
        /// The asset id.
        asset_id: AssetId,
        /// The resolved ticker or name.
        name: Option<String>,
    },
    /// DID metadata became available.
    DidInfo {
        /// The DID launcher id (hex).
        launcher_id: String,
    },
    /// NFT data became available.
    NftData {
        /// The NFT launcher id (hex).
        launcher_id: String,
    },
    /// A new receive address became active.
    Derivation {
        /// The wallet that the address belongs to.
        wallet_id: WalletId,
        /// The derivation index.
        index: u32,
    },
}

impl Clone for WalletEvent {
    fn clone(&self) -> (copy: Self)
        ensures
            copy == *self,
    {
        match self {
            WalletEvent::FundsReceived { wallet_id, asset, amount, coin_id, confirmed_height } =>
                WalletEvent::FundsReceived {
                    wallet_id: *wallet_id,
                    asset: clone_asset(asset),
                    amount: *amount,
                    coin_id: coin_id.clone(),
                    confirmed_height: *confirmed_height,
                },
            WalletEvent::FundsSent { wallet_id, asset, amount, tx_id, confirmed_height } =>
                WalletEvent::FundsSent {
                    wallet_id: *wallet_id,
                    asset: clone_asset(asset),
                    amount: *amount,
                    tx_id: tx_id.clone(),
                    confirmed_height: *confirmed_height,
                },
            WalletEvent::CoinStateChanged { coin_id, spent, created_height, spent_height } =>
                WalletEvent::CoinStateChanged {
                    coin_id: coin_id.clone(),
                    spent: *spent,
                    created_height: *created_height,
                    spent_height: *spent_height,
                },
            WalletEvent::Confirmation { tx_id, height } =>
                WalletEvent::Confirmation { tx_id: tx_id.clone(), height: *height },
            WalletEvent::TransactionFailed { tx_id, error } =>
                WalletEvent::TransactionFailed { tx_id: tx_id.clone(), error: error.clone() },
            WalletEvent::NewTip { height, header_hash } =>
                WalletEvent::NewTip { height: *height, header_hash: header_hash.clone() },
            WalletEvent::SyncProgress { wallet_id, state, peak_height, target_height } =>
                WalletEvent::SyncProgress {
                    wallet_id: *wallet_id,
                    state: *state,
                    peak_height: *peak_height,
                    target_height: *target_height,
                },
            WalletEvent::CatInfo { asset_id, name } =>
                WalletEvent::CatInfo { asset_id: asset_id.clone(), name: clone_text(name) },
            WalletEvent::DidInfo { launcher_id } =>
                WalletEvent::DidInfo { launcher_id: launcher_id.clone() },
            WalletEvent::NftData { launcher_id } =>
                WalletEvent::NftData { launcher_id: launcher_id.clone() },
            WalletEvent::Derivation { wallet_id, index } =>
                WalletEvent::Derivation { wallet_id: *wallet_id, index: *index },
        }
    }
}

/// The kind of an event.
pub open spec fn kind_of(event: WalletEvent) -> EventKind {
    match event {
        WalletEvent::FundsReceived { .. } => EventKind::FundsReceived,
        WalletEvent::FundsSent { .. } => EventKind::FundsSent,
        WalletEvent::CoinStateChanged { .. } => EventKind::CoinStateChanged,
        WalletEvent::Confirmation { .. } => EventKind::Confirmation,
        WalletEvent::TransactionFailed { .. } => EventKind::TransactionFailed,
        WalletEvent::NewTip { .. } => EventKind::NewTip,
        WalletEvent::SyncProgress { .. } => EventKind::SyncProgress,
        WalletEvent::CatInfo { .. } => EventKind::CatInfo,
        WalletEvent::DidInfo { .. } => EventKind::DidInfo,
        WalletEvent::NftData { .. } => EventKind::NftData,
        WalletEvent::Derivation { .. } => EventKind::Derivation,
    }
}

impl WalletEvent {
    /// The kind by which the event is filtered.
    pub fn kind(&self) -> (kind: EventKind)
        ensures
            kind == kind_of(*self),
    {
        match self {
            WalletEvent::FundsReceived { .. } => EventKind::FundsReceived,
            WalletEvent::FundsSent { .. } => EventKind::FundsSent,
            WalletEvent::CoinStateChanged { .. } => EventKind::CoinStateChanged,
            WalletEvent::Confirmation { .. } => EventKind::Confirmation,
            WalletEvent::TransactionFailed { .. } => EventKind::TransactionFailed,
            WalletEvent::NewTip { .. } => EventKind::NewTip,
            WalletEvent::SyncProgress { .. } => EventKind::SyncProgress,
            WalletEvent::CatInfo { .. } => EventKind::CatInfo,
            WalletEvent::DidInfo { .. } => EventKind::DidInfo,
            WalletEvent::NftData { .. } => EventKind::NftData,
            WalletEvent::Derivation { .. } => EventKind::Derivation,
        }
    }

    /// Whether the event passes a subscription filter.
    pub fn matches(&self, filter: &EventFilter) -> (passes: bool)
        ensures
            passes == filter@.contains(kind_of(*self)),
    {
        filter.contains(self.kind())
    }
}

} // verus!
