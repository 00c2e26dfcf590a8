//! What the durable store computes around its database.

use dig_wallet_backend::engine::persist::{
    checked_balance_of, first_peak_row, first_status_row, height_of, migration_batch, parse_amount,
    peak_of, pending_migrations, plan_rollback, raised_peak, row_to_cat, row_to_coin,
    row_to_status, storage_err, AmountFault, HeightRow, SyncRow,
};
use dig_wallet_backend::engine::state::InMemoryWalletStore;
use dig_wallet_backend::types::{
    Amount, CoinRecord, IdentityRef, Puzzlehash, SyncLifecycle, SyncStatus, WalletErrorCode,
    WalletId,
};

fn coin(id: &str, amount: u64, created: Option<u32>, spent: Option<u32>) -> CoinRecord {
    CoinRecord {
        coin_id: id.into(),
        puzzle_hash: Puzzlehash("ph".into()),
        amount: Amount(amount),
        created_height: created,
        spent_height: spent,
    }
}

fn height_rows(coins: &[CoinRecord]) -> Vec<HeightRow> {
    coins
        .iter()
        .map(|coin| HeightRow {
            coin_id: coin.coin_id.clone(),
            created: coin.created_height.map(i64::from),
            spent: coin.spent_height.map(i64::from),
        })
        .collect()
}

#[test]
fn a_full_u64_amount_survives_the_text_encoding() {
    let stored = u64::MAX.to_string();
    let balance = checked_balance_of(&vec![stored.clone()]).unwrap().unwrap();
    assert_eq!(balance.confirmed, Amount(u64::MAX));
    assert_eq!(parse_amount(&stored), Ok(u64::MAX));
    assert_eq!(parse_amount("18446744073709551616"), Err(AmountFault::TooLarge));
}

#[test]
fn migrating_is_idempotent_and_records_the_version() {
    assert_eq!(pending_migrations(0, 2).unwrap(), vec![1, 2]);
    assert_eq!(pending_migrations(1, 2).unwrap(), vec![2]);
    assert!(pending_migrations(2, 2).unwrap().is_empty());
    let batch = migration_batch("CREATE TABLE t (x);", 2);
    let made = batch.find("CREATE TABLE t (x);").unwrap();
    let recorded = batch.find("INSERT INTO schema_version (version) VALUES (2)").unwrap();
    assert!(made < recorded, "the version is recorded after the statements: {batch}");
}

#[test]
fn a_migration_batch_runs_as_one_transaction() {
    let conn = rusqlite::Connection::open_in_memory().unwrap();
    conn.execute("CREATE TABLE IF NOT EXISTS schema_version (version INTEGER NOT NULL)", [])
        .unwrap();
    for _ in 0..2 {
        conn.execute_batch(&migration_batch("CREATE TABLE IF NOT EXISTS t (x INTEGER);", 1))
            .unwrap();
    }
    let version: i64 =
        conn.query_row("SELECT version FROM schema_version", [], |r| r.get(0)).unwrap();
    assert_eq!(version, 1);
    assert!(conn.execute_batch(&migration_batch("CREATE TABLE t (x INTEGER);", 2)).is_err());
}

#[test]
fn a_future_schema_version_is_rejected() {
    let err = pending_migrations(999, 2).unwrap_err();
    assert_eq!(err.code, WalletErrorCode::Storage);
}

#[test]
fn rollback_forgets_coins_created_after_the_fork_and_unspends_the_rest() {
    let coins = vec![
        coin("keep", 10, Some(3), None),
        coin("drop", 20, Some(8), None),
        coin("respent", 100, Some(2), Some(9)),
    ];
    let plan = plan_rollback(&height_rows(&coins), 5);
    assert_eq!(plan.forget, vec!["drop".to_string()]);
    assert_eq!(plan.unspend, vec!["respent".to_string()]);
    let mut affected = plan.affected();
    affected.sort();
    assert_eq!(affected, vec!["drop".to_string(), "respent".to_string()]);
    let plan = plan_rollback(&height_rows(&coins), 5);
    let left: Vec<String> = coins
        .iter()
        .filter(|coin| !plan.forget.contains(&coin.coin_id))
        .filter(|coin| coin.spent_height.is_none() || plan.unspend.contains(&coin.coin_id))
        .map(|coin| coin.amount.mojos().to_string())
        .collect();
    assert_eq!(checked_balance_of(&left).unwrap().unwrap().confirmed, Amount(110));
    assert_eq!(row_to_status(Some(first_peak_row(5))).peak_height, 5);
}

#[test]
fn amounts_are_read_as_decimals() {
    assert_eq!(parse_amount("0"), Ok(0));
    assert_eq!(parse_amount("+7"), Ok(7));
    assert_eq!(parse_amount("007"), Ok(7));
    assert_eq!(parse_amount(""), Err(AmountFault::Empty));
    assert_eq!(parse_amount("-1"), Err(AmountFault::InvalidDigit));
    assert_eq!(parse_amount("12x"), Err(AmountFault::InvalidDigit));
    assert_eq!(parse_amount("+"), Err(AmountFault::InvalidDigit));
    for text in ["0", "+7", "007", "", "-1", "12x", "+", "18446744073709551616"] {
        assert_eq!(parse_amount(text).ok(), text.parse::<u64>().ok(), "{text}");
    }
}

#[test]
fn rows_come_back_as_records() {
    let row = row_to_coin("a".into(), "ph".into(), "100", Some(5), None).unwrap();
    assert_eq!(row, coin("a", 100, Some(5), None));
    let spent = row_to_coin("a".into(), "ph".into(), "100", Some(5), Some(9)).unwrap();
    assert_eq!(spent, coin("a", 100, Some(5), Some(9)));
    let bad = row_to_coin("a".into(), "ph".into(), "x", Some(5), None).unwrap_err();
    assert_eq!(bad, AmountFault::InvalidDigit);
    let cat = row_to_cat("tail".into(), "50", Some("DBX".into())).unwrap();
    assert_eq!(cat.balance, Amount(50));
    assert_eq!(cat.name, Some("DBX".into()));
    assert_eq!(row_to_cat("tail".into(), "", None).unwrap_err().code, WalletErrorCode::Storage);
}

#[test]
fn a_balance_with_an_unreadable_amount_is_a_storage_error() {
    let err = checked_balance_of(&vec!["1".into(), "x".into()]).unwrap().unwrap_err();
    assert_eq!(err.code, WalletErrorCode::Storage);
    assert!(checked_balance_of(&vec![u64::MAX.to_string(), "1".into()]).is_none());
    assert_eq!(checked_balance_of(&vec![]).unwrap().unwrap().confirmed, Amount(0));
}

#[test]
fn heights_come_back_from_the_store() {
    assert_eq!(height_of(0), 0);
    assert_eq!(height_of(4_294_967_295), u32::MAX);
    assert_eq!(storage_err("disk".into()).code, WalletErrorCode::Storage);
}

#[test]
fn persist_set_peak_never_moves_backwards() {
    assert_eq!(raised_peak(None, 10), 10);
    assert_eq!(raised_peak(Some(10), 4), 10);
    let first = SyncRow { lifecycle: SyncLifecycle::Idle, peak_height: 10, target_height: 0 };
    assert_eq!(first_peak_row(10), first);
    assert_eq!(peak_of(Some(10)), 10);
    assert_eq!(peak_of(None), 0);
}

#[test]
fn persist_sync_status_reflects_lifecycle_and_target() {
    let status = row_to_status(Some(first_status_row(SyncLifecycle::Syncing, 200)));
    assert_eq!(status.state, SyncLifecycle::Syncing);
    assert_eq!(status.target_height, 200);
    let never = SyncStatus { state: SyncLifecycle::Idle, peak_height: 0, target_height: 0 };
    assert_eq!(row_to_status(None), never);
}

const SCHEMA: &str = "CREATE TABLE IF NOT EXISTS coins (coin_id TEXT NOT NULL PRIMARY KEY);";

/// Brings a database to the first version, as a store does when it opens one.
fn reopen(conn: &rusqlite::Connection) {
    let current: Option<i64> =
        conn.query_row("SELECT version FROM schema_version", [], |r| r.get(0)).ok();
    for version in pending_migrations(current.unwrap_or(0), 1).unwrap() {
        conn.execute_batch(&migration_batch(SCHEMA, version))
            .expect("reopen must recover idempotently from the crash window");
    }
}

#[test]
fn migration_recovers_from_a_crash_between_ddl_and_version_write() {
    let conn = rusqlite::Connection::open_in_memory().unwrap();
    conn.execute("CREATE TABLE IF NOT EXISTS schema_version (version INTEGER NOT NULL)", [])
        .unwrap();
    conn.execute_batch(SCHEMA).unwrap();
    reopen(&conn);
    let version: i64 =
        conn.query_row("SELECT version FROM schema_version", [], |r| r.get(0)).unwrap();
    assert_eq!(version, 1);
    reopen(&conn);
    let rows: i64 =
        conn.query_row("SELECT COUNT(*) FROM schema_version", [], |r| r.get(0)).unwrap();
    assert_eq!(rows, 1);
}

#[test]
fn both_stores_stay_alike() {
    let id = IdentityRef::new(WalletId(1));
    let mut store = InMemoryWalletStore::new();
    let conn = rusqlite::Connection::open_in_memory().unwrap();
    conn.execute("CREATE TABLE coins (coin_id TEXT PRIMARY KEY, amount TEXT, created, spent)", [])
        .unwrap();
    let coins = [
        coin("keep", 10, Some(3), None),
        coin("drop", 20, Some(8), None),
        coin("respent", 100, Some(2), Some(9)),
    ];
    for coin in &coins {
        store.apply_coin_state(id.wallet_id, coin.clone());
        conn.execute(
            "INSERT INTO coins VALUES (?1, ?2, ?3, ?4)",
            rusqlite::params_from_iter([
                rusqlite::types::Value::from(coin.coin_id.clone()),
                rusqlite::types::Value::from(coin.amount.mojos().to_string()),
                rusqlite::types::Value::from(coin.created_height.map(i64::from)),
                rusqlite::types::Value::from(coin.spent_height.map(i64::from)),
            ]),
        )
        .unwrap();
    }
    let mut row = Some(first_status_row(SyncLifecycle::Syncing, 200));
    store.set_sync_status(id.wallet_id, SyncLifecycle::Syncing, 200);
    let peak = raised_peak(row.map(|r| r.peak_height), 9);
    row = row.map(|r| SyncRow { peak_height: i64::from(peak), ..r });
    store.set_peak(id.wallet_id, 9);
    assert_eq!(row_to_status(row), store.sync_status(&id).unwrap());

    let rows: Vec<HeightRow> = conn
        .prepare("SELECT coin_id, created, spent FROM coins")
        .unwrap()
        .query_map([], |r| {
            Ok(HeightRow { coin_id: r.get(0)?, created: r.get(1)?, spent: r.get(2)? })
        })
        .unwrap()
        .map(|row| row.unwrap())
        .collect();
    let plan = plan_rollback(&rows, 5);
    for id in &plan.forget {
        conn.execute("DELETE FROM coins WHERE coin_id = ?1", [id]).unwrap();
    }
    for id in &plan.unspend {
        conn.execute("UPDATE coins SET spent = NULL WHERE coin_id = ?1", [id]).unwrap();
    }
    row = row.map(|r| SyncRow { peak_height: first_peak_row(5).peak_height, ..r });
    let mut stored = plan.affected();
    let mut held = store.rollback_to(id.wallet_id, 5);
    stored.sort();
    held.sort();
    assert_eq!(stored, held);
    assert_eq!(row_to_status(row), store.sync_status(&id).unwrap());
    assert_eq!(peak_of(row.map(|r| r.peak_height)), store.peak_height(id.wallet_id));
    let amounts: Vec<String> = conn
        .prepare("SELECT amount FROM coins WHERE spent IS NULL")
        .unwrap()
        .query_map([], |r| r.get(0))
        .unwrap()
        .map(|amount| amount.unwrap())
        .collect();
    assert_eq!(checked_balance_of(&amounts).unwrap().unwrap(), store.balance(&id).unwrap());
}
