//! The in-memory wallet store.

use dig_wallet_backend::engine::state::{classify_coin_change, CoinChange, InMemoryWalletStore};
use dig_wallet_backend::types::{
    Address, Amount, AssetId, Balance, CatRecord, CoinRecord, DidRecord, IdentityRef, NftRecord,
    Puzzlehash, SpendOutput, SyncLifecycle, TransactionRecord, TransactionSummary, WalletId,
};

fn identity(id: u32) -> IdentityRef {
    IdentityRef::new(WalletId(id))
}

fn coin(id: &str, amount: u64, created: Option<u32>, spent: Option<u32>) -> CoinRecord {
    CoinRecord {
        coin_id: id.into(),
        puzzle_hash: Puzzlehash("ph".into()),
        amount: Amount(amount),
        created_height: created,
        spent_height: spent,
    }
}

#[test]
fn new_store_reports_empty_balance_and_idle_sync() {
    let store = InMemoryWalletStore::new();
    let id = identity(1);
    assert_eq!(store.balance(&id).unwrap(), Balance::default());
    assert!(store.coins(&id).unwrap().is_empty());
    let status = store.sync_status(&id).unwrap();
    assert_eq!(status.state, SyncLifecycle::Idle);
    assert_eq!(status.peak_height, 0);
}

#[test]
fn applying_a_new_unspent_coin_is_created_and_counts_toward_balance() {
    let mut store = InMemoryWalletStore::new();
    let id = identity(1);
    let change = store.apply_coin_state(id.wallet_id, coin("a", 100, Some(5), None));
    assert_eq!(change, CoinChange::Created);
    assert_eq!(store.balance(&id).unwrap().confirmed, Amount(100));
    assert_eq!(store.coins(&id).unwrap().len(), 1);
}

#[test]
fn state_re_delivering_an_identical_coin_is_unchanged() {
    let mut store = InMemoryWalletStore::new();
    let id = identity(1);
    store.apply_coin_state(id.wallet_id, coin("a", 100, Some(5), None));
    let change = store.apply_coin_state(id.wallet_id, coin("a", 100, Some(5), None));
    assert_eq!(change, CoinChange::Unchanged);
}

#[test]
fn state_spending_a_known_coin_is_spent_and_drops_from_balance() {
    let mut store = InMemoryWalletStore::new();
    let id = identity(1);
    store.apply_coin_state(id.wallet_id, coin("a", 100, Some(5), None));
    let change = store.apply_coin_state(id.wallet_id, coin("a", 100, Some(5), Some(9)));
    assert_eq!(change, CoinChange::Spent);
    assert_eq!(store.balance(&id).unwrap().confirmed, Amount(0));
    assert!(store.coins(&id).unwrap().is_empty(), "spent coin excluded");
}

#[test]
fn a_coin_first_seen_already_spent_is_spent() {
    let mut store = InMemoryWalletStore::new();
    let id = identity(1);
    let change = store.apply_coin_state(id.wallet_id, coin("a", 100, Some(5), Some(6)));
    assert_eq!(change, CoinChange::Spent);
}

#[test]
fn state_a_non_spend_field_change_is_updated() {
    let mut store = InMemoryWalletStore::new();
    let id = identity(1);
    store.apply_coin_state(id.wallet_id, coin("a", 100, None, None));
    let change = store.apply_coin_state(id.wallet_id, coin("a", 100, Some(7), None));
    assert_eq!(change, CoinChange::Updated);
}

#[test]
fn rollback_forgets_coins_created_after_the_fork() {
    let mut store = InMemoryWalletStore::new();
    let id = identity(1);
    store.apply_coin_state(id.wallet_id, coin("keep", 10, Some(3), None));
    store.apply_coin_state(id.wallet_id, coin("drop", 20, Some(8), None));
    store.set_peak(id.wallet_id, 8);
    let affected = store.rollback_to(id.wallet_id, 5);
    assert_eq!(affected, vec!["drop".to_string()]);
    assert_eq!(store.balance(&id).unwrap().confirmed, Amount(10));
    assert_eq!(store.sync_status(&id).unwrap().peak_height, 5);
}

#[test]
fn rollback_unspends_coins_spent_after_the_fork() {
    let mut store = InMemoryWalletStore::new();
    let id = identity(1);
    store.apply_coin_state(id.wallet_id, coin("a", 100, Some(2), Some(9)));
    assert_eq!(store.balance(&id).unwrap().confirmed, Amount(0));
    let affected = store.rollback_to(id.wallet_id, 5);
    assert_eq!(affected, vec!["a".to_string()]);
    assert_eq!(store.balance(&id).unwrap().confirmed, Amount(100));
}

#[test]
fn state_set_peak_never_moves_backwards() {
    let mut store = InMemoryWalletStore::new();
    let id = identity(1);
    store.set_peak(id.wallet_id, 10);
    store.set_peak(id.wallet_id, 4);
    assert_eq!(store.sync_status(&id).unwrap().peak_height, 10);
}

#[test]
fn state_sync_status_reflects_lifecycle_and_target() {
    let mut store = InMemoryWalletStore::new();
    let id = identity(1);
    store.set_sync_status(id.wallet_id, SyncLifecycle::Syncing, 200);
    let status = store.sync_status(&id).unwrap();
    assert_eq!(status.state, SyncLifecycle::Syncing);
    assert_eq!(status.target_height, 200);
}

#[test]
fn state_cat_nft_did_and_history_round_trip() {
    let mut store = InMemoryWalletStore::new();
    let id = identity(1);
    store.upsert_cat(
        id.wallet_id,
        CatRecord {
            asset_id: AssetId("tail".into()),
            balance: Amount(50),
            name: Some("DBX".into()),
        },
    );
    store.upsert_nft(
        id.wallet_id,
        NftRecord { launcher_id: "nft".into(), data_uri: Some("ipfs://x".into()) },
    );
    store.upsert_did(id.wallet_id, DidRecord { launcher_id: "did".into(), name: None });
    store.record_transaction(
        id.wallet_id,
        TransactionRecord {
            tx_id: "t".into(),
            confirmed_height: Some(11),
            summary: TransactionSummary::new(
                vec![SpendOutput::new(Address("xch1".into()), Amount(5), None)],
                Amount(1),
            ),
        },
    );
    assert_eq!(store.cats(&id).unwrap().len(), 1);
    assert_eq!(store.nfts(&id).unwrap().len(), 1);
    assert_eq!(store.dids(&id).unwrap().len(), 1);
    assert_eq!(store.history(&id).unwrap().len(), 1);
}

#[test]
fn upsert_cat_replaces_by_asset_id() {
    let mut store = InMemoryWalletStore::new();
    let id = identity(1);
    let asset = AssetId("tail".into());
    store.upsert_cat(
        id.wallet_id,
        CatRecord { asset_id: asset.clone(), balance: Amount(10), name: None },
    );
    store.upsert_cat(
        id.wallet_id,
        CatRecord { asset_id: asset, balance: Amount(99), name: Some("DBX".into()) },
    );
    let cats = store.cats(&id).unwrap();
    assert_eq!(cats.len(), 1);
    assert_eq!(cats[0].balance, Amount(99));
}

#[test]
fn coin_lookup_finds_a_tracked_coin() {
    let mut store = InMemoryWalletStore::new();
    let id = identity(1);
    store.apply_coin_state(id.wallet_id, coin("a", 100, Some(5), None));
    assert!(store.coin(id.wallet_id, "a").is_some());
    assert!(store.coin(id.wallet_id, "missing").is_none());
}

#[test]
fn state_state_is_isolated_per_wallet() {
    let mut store = InMemoryWalletStore::new();
    store.apply_coin_state(WalletId(1), coin("a", 100, Some(5), None));
    assert_eq!(store.balance(&identity(2)).unwrap().confirmed, Amount(0));
    assert_eq!(store.balance(&identity(1)).unwrap().confirmed, Amount(100));
}

#[test]
fn a_balance_past_the_machine_word_is_not_added_up() {
    let mut store = InMemoryWalletStore::new();
    let id = identity(1);
    store.apply_coin_state(id.wallet_id, coin("a", u64::MAX, Some(5), None));
    assert_eq!(store.checked_balance(&id).unwrap().confirmed, Amount(u64::MAX));
    store.apply_coin_state(id.wallet_id, coin("b", 1, Some(5), None));
    assert!(store.checked_balance(&id).is_none());
}

#[test]
fn rolling_back_twice_touches_nothing_more() {
    let mut store = InMemoryWalletStore::new();
    let id = identity(1);
    store.apply_coin_state(id.wallet_id, coin("a", 1, Some(2), Some(9)));
    store.apply_coin_state(id.wallet_id, coin("b", 2, Some(9), None));
    let mut first = store.rollback_to(id.wallet_id, 5);
    first.sort();
    assert_eq!(first, vec!["a".to_string(), "b".to_string()]);
    assert!(store.rollback_to(id.wallet_id, 5).is_empty());
}

#[test]
fn a_coin_that_comes_back_unspent_is_updated() {
    let spent = coin("a", 1, Some(2), Some(9));
    let back = coin("a", 1, Some(2), None);
    assert_eq!(classify_coin_change(Some(&spent), &back), CoinChange::Updated);
    assert_eq!(classify_coin_change(None, &back), CoinChange::Created);
}
