//! What a persistent store decides: which migrations to run, what a row says, and what a rollback
//! touches. Reading and writing the database is the caller's.
//!
//! Amounts are stored as decimal texts, so that the whole range of a machine word survives.

use vstd::prelude::*;
use vstd::string::*;

use super::state::{
    applied, forgets, fresh_state, lemma_total_remove, named, peak_raised, rolled_back,
    rolled_back_state, status_of, status_set, touched, unspends, unspent_total, WalletStateView,
};
use crate::text::{decimal, decimal_text, digit, joined, joined3, optional_text};
use crate::types::error::{WalletError, WalletErrorCode, WalletErrorView, WalletResult};
use crate::types::event::{SyncLifecycle, SyncStatus};
use crate::types::value::{
    Amount, AssetId, Balance, CatRecord, CatRecordView, CoinRecord, CoinRecordView, Puzzlehash,
};

verus! {

/// An error of the storage layer.
pub open spec fn storage_fault(message: Seq<char>) -> WalletErrorView {
    WalletErrorView { code: WalletErrorCode::Storage, message }
}

/// An error of the storage layer.
pub fn storage_err(message: String) -> (error: WalletError)
    ensures
        error@ == storage_fault(message@),
{
    WalletError::new(WalletErrorCode::Storage, message)
}

/// The decimal notation of a signed number.
pub open spec fn signed_decimal(n: int) -> Seq<char> {
    if n < 0 {
        "-"@ + decimal((-n) as nat)
    } else {
        decimal(n as nat)
    }
}

/// Writes a signed number in decimal notation.
fn signed_text(n: i64) -> (text: String)
    ensures
        text@ == signed_decimal(n as int),
{
    if n < 0 {
        let size: u64 = (-(n as i128)) as u64;
        joined("-", decimal_text(size).as_str())
    } else {
        decimal_text(n as u64)
    }
}

/// The versions that a database at one version passes on its way to another.
pub open spec fn versions_after(current: int, target: int) -> Seq<i64> {
    let first = if current < 0 { 1 } else { current + 1 };
    if first > target {
        Seq::empty()
    } else {
        Seq::new((target - first + 1) as nat, |i: int| (first + i) as i64)
    }
}

/// The migrations that a database still needs. One that is newer than the program is refused.
pub fn pending_migrations(current: i64, target: u32) -> (result: WalletResult<Vec<i64>>)
    ensures
        match result {
            Ok(versions) => current <= target && versions@ == versions_after(
                current as int,
                target as int,
            ),
            Err(error) => current > target && error@ == storage_fault(
                "database schema version "@ + signed_decimal(current as int)
                    + " is newer than this build supports ("@ + signed_decimal(target as int)
                    + ")"@,
            ),
        },
{
    let last: i64 = target as i64;
    if current > last {
        let mut message = joined3(
            "database schema version ",
            signed_text(current).as_str(),
            " is newer than this build supports (",
        );
        message.append(signed_text(last).as_str());
        message.append(")");
        return Err(storage_err(message));
    }
    let first: i64 = if current < 0 {
        1
    } else {
        current + 1
    };
    let mut versions: Vec<i64> = Vec::new();
    let mut version: i64 = first;
    while version <= last
        invariant
            first == (if current < 0 { 1int } else { current + 1 }),
            1 <= first <= version <= last + 1 || (version == first && first == last + 1),
            last == target,
            versions@.len() == version - first,
            forall|k: int| 0 <= k < versions@.len() ==> #[trigger] versions@[k] == first + k,
        decreases last + 1 - version,
    {
        versions.push(version);
        version = version + 1;
    }
    assert(versions@ =~= versions_after(current as int, target as int));
    Ok(versions)
}

/// The batch that applies a migration: its statements and the new version, in one transaction.
pub open spec fn batch_of(statements: Seq<char>, version: int) -> Seq<char> {
    "BEGIN;"@ + statements + "DELETE FROM schema_version;INSERT INTO schema_version (version) VALUES ("@
        + signed_decimal(version) + ");COMMIT;"@
}

/// Writes the batch that applies a migration. The statements and the version stand in one
/// transaction, so that a crash never leaves one without the other.
pub fn migration_batch(statements: &str, version: i64) -> (batch: String)
    ensures
        batch@ == batch_of(statements@, version as int),
{
    let mut batch = joined3(
        "BEGIN;",
        statements,
        "DELETE FROM schema_version;INSERT INTO schema_version (version) VALUES (",
    );
    batch.append(signed_text(version).as_str());
    batch.append(");COMMIT;");
    batch
}

/// After its migrations a database is at the target, and one that is there needs none.
pub proof fn migrating_is_idempotent(current: int, target: int)
    requires
        current <= target,
        0 <= target <= i64::MAX,
    ensures
        versions_after(target, target) == Seq::<i64>::empty(),
        current < target && target > 0 ==> versions_after(current, target).len() > 0 && versions_after(
            current,
            target,
        ).last() == target,
        forall|i: int|
            0 <= i < versions_after(current, target).len() - 1 ==> (#[trigger] versions_after(
                current,
                target,
            )[i]) + 1 == versions_after(current, target)[i + 1],
{
}

/// Why a text is not an amount.
#[derive(Debug, Clone, Copy, PartialEq, Eq, Structural)]
pub enum AmountFault {
    /// There is nothing.
    Empty,
    /// There is something other than a digit.
    InvalidDigit,
    /// The number exceeds a machine word.
    TooLarge,
}

/// The value of a decimal digit.
pub open spec fn digit_value(c: char) -> Option<nat> {
    if '0' <= c <= '9' {
        Some((c as u32 - '0' as u32) as nat)
    } else {
        None
    }
}

/// The number that the first `n` characters stand for; from left to right, the first fault
/// decides.
pub open spec fn digits_value(text: Seq<char>, n: nat) -> Result<nat, AmountFault>
    decreases n,
{
    if n == 0 {
        Ok(0)
    } else {
        match digits_value(text, (n - 1) as nat) {
            Err(fault) => Err(fault),
            Ok(value) => match digit_value(text[n - 1]) {
                None => Err(AmountFault::InvalidDigit),
                Some(d) => if value * 10 + d > u64::MAX {
                    Err(AmountFault::TooLarge)
                } else {
                    Ok(value * 10 + d)
                },
            },
        }
    }
}

/// The amount that a text stands for: decimal digits, after one plus sign if there is one.
pub open spec fn amount_of(text: Seq<char>) -> Result<nat, AmountFault> {
    if text.len() == 0 {
        Err(AmountFault::Empty)
    } else if text[0] == '+' {
        if text.len() == 1 {
            Err(AmountFault::InvalidDigit)
        } else {
            digits_value(text.skip(1), (text.len() - 1) as nat)
        }
    } else {
        digits_value(text, text.len())
    }
}

/// The text of an amount fault.
pub open spec fn amount_fault_text(fault: AmountFault) -> Seq<char> {
    match fault {
        AmountFault::Empty => "cannot parse integer from empty string"@,
        AmountFault::InvalidDigit => "invalid digit found in string"@,
        AmountFault::TooLarge => "number too large to fit in target type"@,
    }
}

/// The text of an amount fault.
fn fault_text(fault: AmountFault) -> (text: String)
    ensures
        text@ == amount_fault_text(fault),
{
    match fault {
        AmountFault::Empty => "cannot parse integer from empty string".to_owned(),
        AmountFault::InvalidDigit => "invalid digit found in string".to_owned(),
        AmountFault::TooLarge => "number too large to fit in target type".to_owned(),
    }
}

/// What reading an amount returned, over views.
pub open spec fn amount_view(result: Result<u64, AmountFault>) -> Result<nat, AmountFault> {
    match result {
        Ok(value) => Ok(value as nat),
        Err(fault) => Err(fault),
    }
}

/// Reads an amount.
pub fn parse_amount(text: &str) -> (result: Result<u64, AmountFault>)
    ensures
        amount_view(result) == amount_of(text@),
{
    let len: usize = text.unicode_len();
    if len == 0 {
        return Err(AmountFault::Empty);
    }
    let start: usize = if text.get_char(0) == '+' {
        1
    } else {
        0
    };
    if start == 1 && len == 1 {
        return Err(AmountFault::InvalidDigit);
    }
    let ghost body = text@.skip(start as int);
    assert(text@.skip(0) =~= text@);
    let mut value: u64 = 0;
    let mut i: usize = start;
    while i < len
        invariant
            len == text@.len(),
            start <= i <= len,
            body == text@.skip(start as int),
            body.len() == len - start,
            amount_of(text@) == digits_value(body, body.len()),
            digits_value(body, (i - start) as nat) == Ok::<nat, AmountFault>(value as nat),
        decreases len - i,
    {
        let c: char = text.get_char(i);
        assert(c == body[i - start]);
        proof {
            if digits_value(body, (i - start + 1) as nat) is Err {
                lemma_digits_fault(body, (i - start + 1) as nat, body.len());
            }
        }
        if c < '0' || c > '9' {
            return Err(AmountFault::InvalidDigit);
        }
        let d: u64 = (c as u32 - '0' as u32) as u64;
        match value.checked_mul(10) {
            None => return Err(AmountFault::TooLarge),
            Some(shifted) => match shifted.checked_add(d) {
                None => return Err(AmountFault::TooLarge),
                Some(next) => value = next,
            },
        }
        i = i + 1;
    }
    Ok(value)
}

proof fn lemma_digits_fault(text: Seq<char>, i: nat, n: nat)
    requires
        i <= n,
        digits_value(text, i) is Err,
    ensures
        digits_value(text, n) == digits_value(text, i),
    decreases n - i,
{
    if i < n {
        lemma_digits_fault(text, i, (n - 1) as nat);
    }
}

/// Every amount survives being written as a decimal text and read back.
pub proof fn amounts_survive_the_text(amount: u64)
    ensures
        amount_of(decimal(amount as nat)) == Ok::<nat, AmountFault>(amount as nat),
{
    let text = decimal(amount as nat);
    lemma_decimal_digits(amount as nat);
    assert(digit_value(text[0]) is Some);
    lemma_digits_of_decimal(amount as nat, text.len());
    assert(text.take(text.len() as int) =~= text);
}

proof fn lemma_decimal_digits(n: nat)
    ensures
        decimal(n).len() > 0,
        forall|i: int| 0 <= i < decimal(n).len() ==> digit_value(#[trigger] decimal(n)[i]) is Some,
        digit_value(decimal(n).last()) == Some(n % 10),
    decreases n,
{
    lemma_digit(n % 10);
    if n >= 10 {
        lemma_decimal_digits(n / 10);
        let front = decimal(n / 10);
        assert forall|i: int| 0 <= i < decimal(n).len() implies digit_value(
            #[trigger] decimal(n)[i],
        ) is Some by {
            if i < front.len() {
                assert(decimal(n)[i] == front[i]);
            }
        }
    } else {
        assert(n % 10 == n);
    }
}

proof fn lemma_digit(d: nat)
    requires
        d < 10,
    ensures
        digit_value(digit(d)) == Some(d),
{
}

/// The digits of a number stand for it.
proof fn lemma_digits_of_decimal(n: nat, len: nat)
    requires
        len == decimal(n).len(),
        n <= u64::MAX,
    ensures
        digits_value(decimal(n), len) == Ok::<nat, AmountFault>(n),
    decreases n,
{
    lemma_decimal_digits(n);
    let text = decimal(n);
    if n >= 10 {
        let front = decimal(n / 10);
        lemma_digits_of_decimal(n / 10, front.len());
        lemma_digits_prefix(front, text, front.len());
        assert(text[text.len() - 1] == text.last());
        assert((n / 10) * 10 + n % 10 == n);
    } else {
        assert(digits_value(text, 0) == Ok::<nat, AmountFault>(0));
        assert(text[0] == text.last());
    }
}

proof fn lemma_digits_prefix(short: Seq<char>, long: Seq<char>, n: nat)
    requires
        n <= short.len() <= long.len(),
        forall|i: int| 0 <= i < short.len() ==> #[trigger] long[i] == short[i],
    ensures
        digits_value(long, n) == digits_value(short, n),
    decreases n,
{
    if n > 0 {
        lemma_digits_prefix(short, long, (n - 1) as nat);
        assert(long[n - 1] == short[n - 1]);
    }
}

/// A stored height as the type has it: its low 32 bits.
pub open spec fn stored_height(height: i64) -> u32 {
    (height as int % 0x1_0000_0000) as u32
}

/// Reads a stored height.
pub fn height_of(height: i64) -> (out: u32)
    ensures
        out == stored_height(height),
{
    let wide: i128 = height as i128;
    let rest: i128 = wide % 0x1_0000_0000i128;
    if rest < 0 {
        proof {
            assert(rest + 0x1_0000_0000 == wide as int % 0x1_0000_0000) by {
                lemma_remainder(wide as int, rest as int);
            }
        }
        (rest + 0x1_0000_0000i128) as u32
    } else {
        proof {
            lemma_remainder(wide as int, rest as int);
        }
        rest as u32
    }
}

/// A remainder of truncating division, moved into the range of the Euclidean one.
proof fn lemma_remainder(wide: int, rest: int)
    requires
        -0x1_0000_0000 < rest < 0x1_0000_0000,
        (wide - rest) % 0x1_0000_0000 == 0,
    ensures
        rest < 0 ==> rest + 0x1_0000_0000 == wide % 0x1_0000_0000,
        rest >= 0 ==> rest == wide % 0x1_0000_0000,
{
}

/// A stored optional height as the type has it.
pub open spec fn stored_optional_height(height: Option<i64>) -> Option<u32> {
    match height {
        Some(h) => Some(stored_height(h)),
        None => None,
    }
}

/// Reads a stored optional height.
fn optional_height_of(height: Option<i64>) -> (out: Option<u32>)
    ensures
        out == stored_optional_height(height),
{
    match height {
        Some(h) => Some(height_of(h)),
        None => None,
    }
}

/// Where the sync loop of a wallet is, as it is stored.
#[derive(Debug, Clone, Copy, PartialEq, Eq)]
pub struct SyncRow {
    /// The lifecycle.
    pub lifecycle: SyncLifecycle,
    /// The processed height.
    pub peak_height: i64,
    /// The tip that the wallet is syncing toward.
    pub target_height: i64,
}

/// What a stored sync row says. A wallet without one is idle at zero.
pub open spec fn row_status(row: Option<SyncRow>) -> SyncStatus {
    match row {
        Some(row) => SyncStatus {
            state: row.lifecycle,
            peak_height: stored_height(row.peak_height),
            target_height: stored_height(row.target_height),
        },
        None => SyncStatus { state: SyncLifecycle::Idle, peak_height: 0, target_height: 0 },
    }
}

/// The peak column of a wallet's sync row, if it has one.
pub open spec fn peak_column(row: Option<SyncRow>) -> Option<i64> {
    match row {
        Some(row) => Some(row.peak_height),
        None => None,
    }
}

/// The stored peak of a wallet; one that has none is at zero.
pub open spec fn stored_peak(column: Option<i64>) -> u32 {
    match column {
        Some(height) => stored_height(height),
        None => 0,
    }
}

/// The sync row of a wallet after its peak is written: a row keeps its other columns, and a wallet
/// without one gets one that is idle.
pub open spec fn with_peak(row: Option<SyncRow>, peak: u32) -> SyncRow {
    match row {
        Some(row) => SyncRow { peak_height: peak as i64, ..row },
        None => SyncRow {
            lifecycle: SyncLifecycle::Idle,
            peak_height: peak as i64,
            target_height: 0,
        },
    }
}

/// The sync row of a wallet after its lifecycle and target are written: a row keeps its peak, and a
/// wallet without one gets one at zero.
pub open spec fn with_status(
    row: Option<SyncRow>,
    lifecycle: SyncLifecycle,
    target: u32,
) -> SyncRow {
    match row {
        Some(row) => SyncRow { lifecycle, target_height: target as i64, ..row },
        None => SyncRow { lifecycle, peak_height: 0, target_height: target as i64 },
    }
}

/// The higher of a wallet's stored peak and a height.
pub open spec fn raised(column: Option<i64>, peak_height: u32) -> u32 {
    if peak_height > stored_peak(column) {
        peak_height
    } else {
        stored_peak(column)
    }
}

/// Reads the sync row of a wallet.
pub fn row_to_status(row: Option<SyncRow>) -> (status: SyncStatus)
    ensures
        status == row_status(row),
{
    match row {
        Some(row) => SyncStatus {
            state: row.lifecycle,
            peak_height: height_of(row.peak_height),
            target_height: height_of(row.target_height),
        },
        None => SyncStatus { state: SyncLifecycle::Idle, peak_height: 0, target_height: 0 },
    }
}

/// Reads the stored peak of a wallet.
pub fn peak_of(column: Option<i64>) -> (peak: u32)
    ensures
        peak == stored_peak(column),
{
    match column {
        Some(height) => height_of(height),
        None => 0,
    }
}

/// The peak that a wallet moves to: it never moves backwards.
pub fn raised_peak(column: Option<i64>, peak_height: u32) -> (peak: u32)
    ensures
        peak == raised(column, peak_height),
{
    let current: u32 = peak_of(column);
    if peak_height > current {
        peak_height
    } else {
        current
    }
}

/// The row that a wallet without one gets when its peak is written.
pub fn first_peak_row(peak: u32) -> (row: SyncRow)
    ensures
        row == with_peak(None, peak),
{
    SyncRow { lifecycle: SyncLifecycle::Idle, peak_height: peak as i64, target_height: 0 }
}

/// The row that a wallet without one gets when its status is written.
pub fn first_status_row(lifecycle: SyncLifecycle, target: u32) -> (row: SyncRow)
    ensures
        row == with_status(None, lifecycle, target),
{
    SyncRow { lifecycle, peak_height: 0, target_height: target as i64 }
}

/// A stored wallet and one in memory keep the same sync status: both start idle at zero, and
/// where they agree they still agree after either's peak is raised, either is rolled back, which
/// leaves the peak at the fork, or either's status is set.
pub proof fn both_stores_sync_alike(
    row: Option<SyncRow>,
    state: WalletStateView,
    height: u32,
    lifecycle: SyncLifecycle,
)
    requires
        row_status(row) == status_of(state),
    ensures
        row_status(None) == status_of(fresh_state()),
        row_status(Some(with_peak(row, raised(peak_column(row), height)))) == status_of(
            peak_raised(state, height),
        ),
        stored_peak(peak_column(row)) == state.peak_height,
        row_status(Some(with_peak(row, height))) == status_of(rolled_back_state(state, height)),
        stored_peak(peak_column(Some(with_peak(row, height)))) == height,
        row_status(Some(with_status(row, lifecycle, height))) == status_of(
            status_set(state, lifecycle, height),
        ),
{
}

/// Every height survives being stored and read back.
pub proof fn heights_survive_the_store(height: u32)
    ensures
        stored_height(height as i64) == height,
{
}

/// A coin row as a record, or the fault in its amount.
pub open spec fn coin_row(
    coin_id: Seq<char>,
    puzzle_hash: Seq<char>,
    amount: Seq<char>,
    created: Option<i64>,
    spent: Option<i64>,
) -> Result<CoinRecordView, AmountFault> {
    match amount_of(amount) {
        Err(fault) => Err(fault),
        Ok(value) => Ok(
            CoinRecordView {
                coin_id,
                puzzle_hash,
                amount: value as u64,
                created_height: stored_optional_height(created),
                spent_height: stored_optional_height(spent),
            },
        ),
    }
}

/// Reads a coin row. A malformed amount is a fault, never a silent zero.
pub fn row_to_coin(
    coin_id: String,
    puzzle_hash: String,
    amount: &str,
    created: Option<i64>,
    spent: Option<i64>,
) -> (result: Result<CoinRecord, AmountFault>)
    ensures
        match result {
            Ok(record) => coin_row(coin_id@, puzzle_hash@, amount@, created, spent) == Ok::<
                CoinRecordView,
                AmountFault,
            >(record@),
            Err(fault) => coin_row(coin_id@, puzzle_hash@, amount@, created, spent) == Err::<
                CoinRecordView,
                AmountFault,
            >(fault),
        },
{
    match parse_amount(amount) {
        Err(fault) => Err(fault),
        Ok(value) => Ok(
            CoinRecord {
                coin_id,
                puzzle_hash: Puzzlehash(puzzle_hash),
                amount: Amount(value),
                created_height: optional_height_of(created),
                spent_height: optional_height_of(spent),
            },
        ),
    }
}

/// A coin survives being written as a row and read back.
pub proof fn coins_survive_the_store(coin: CoinRecordView)
    ensures
        coin_row(
            coin.coin_id,
            coin.puzzle_hash,
            decimal(coin.amount as nat),
            match coin.created_height {
                Some(h) => Some(h as i64),
                None => None,
            },
            match coin.spent_height {
                Some(h) => Some(h as i64),
                None => None,
            },
        ) == Ok::<CoinRecordView, AmountFault>(coin),
{
    amounts_survive_the_text(coin.amount);
}

/// Reads a CAT row.
pub fn row_to_cat(asset_id: String, balance: &str, name: Option<String>) -> (result: WalletResult<
    CatRecord,
>)
    ensures
        match result {
            Ok(record) => amount_of(balance@) matches Ok(value) && record@ == (CatRecordView {
                asset_id: asset_id@,
                balance: value as u64,
                name: optional_text(name),
            }),
            Err(error) => amount_of(balance@) matches Err(fault) && error@ == storage_fault(
                amount_fault_text(fault),
            ),
        },
{
    match parse_amount(balance) {
        Ok(value) => Ok(
            CatRecord { asset_id: AssetId(asset_id), balance: Amount(value), name },
        ),
        Err(fault) => Err(storage_err(fault_text(fault))),
    }
}

/// What the first `n` amounts add up to; the first fault decides. Nothing if the sum exceeds a
/// machine word before that.
pub open spec fn amounts_total(amounts: Seq<String>, n: nat) -> Option<Result<nat, AmountFault>>
    decreases n,
{
    if n == 0 {
        Some(Ok(0))
    } else {
        match amounts_total(amounts, (n - 1) as nat) {
            None => None,
            Some(Err(fault)) => Some(Err(fault)),
            Some(Ok(total)) => match amount_of(amounts[n - 1]@) {
                Err(fault) => Some(Err(fault)),
                Ok(value) => if total + value > u64::MAX {
                    None
                } else {
                    Some(Ok((total + value) as nat))
                },
            },
        }
    }
}

/// The balance of stored amounts, unless it exceeds a machine word.
pub fn checked_balance_of(amounts: &Vec<String>) -> (result: Option<WalletResult<Balance>>)
    ensures
        match result {
            None => amounts_total(amounts@, amounts@.len()) is None,
            Some(Ok(balance)) => amounts_total(amounts@, amounts@.len()) == Some(
                Ok::<nat, AmountFault>(balance.confirmed.0 as nat),
            ) && balance.spendable == balance.confirmed,
            Some(Err(error)) => amounts_total(amounts@, amounts@.len()) matches Some(Err(fault))
                && error@ == storage_fault(amount_fault_text(fault)),
        },
{
    let mut total: u64 = 0;
    let mut i: usize = 0;
    while i < amounts.len()
        invariant
            i <= amounts@.len(),
            amounts_total(amounts@, i as nat) == Some(Ok::<nat, AmountFault>(total as nat)),
        decreases amounts@.len() - i,
    {
        proof {
            match amounts_total(amounts@, i as nat + 1) {
                Some(Ok(_)) => {},
                _ => lemma_total_stops(amounts@, i as nat + 1, amounts@.len()),
            }
        }
        match parse_amount(amounts[i].as_str()) {
            Err(fault) => return Some(Err(storage_err(fault_text(fault)))),
            Ok(value) => match total.checked_add(value) {
                None => return None,
                Some(more) => total = more,
            },
        }
        i = i + 1;
    }
    Some(Ok(Balance { confirmed: Amount(total), spendable: Amount(total) }))
}

proof fn lemma_total_stops(amounts: Seq<String>, i: nat, n: nat)
    requires
        i <= n,
        !(amounts_total(amounts, i) matches Some(Ok(_))),
    ensures
        amounts_total(amounts, n) == amounts_total(amounts, i),
    decreases n - i,
{
    if i < n {
        lemma_total_stops(amounts, i, (n - 1) as nat);
    }
}

/// Whether texts are the stored amounts of the unspent coins of a map: one for each of them, in
/// the order of a list that names each once.
pub open spec fn stores_amounts(
    amounts: Seq<String>,
    ids: Seq<Seq<char>>,
    held: Map<Seq<char>, CoinRecordView>,
) -> bool {
    &&& amounts.len() == ids.len()
    &&& ids.no_duplicates()
    &&& forall|i: int|
        0 <= i < ids.len() ==> held.contains_key(#[trigger] ids[i]) && held[ids[i]].spent_height
            is None && amounts[i]@ == decimal(held[ids[i]].amount as nat)
    &&& forall|id: Seq<char>| #[trigger]
        held.contains_key(id) && held[id].spent_height is None ==> ids.contains(id)
}

/// A stored wallet and one in memory have the same balance: the stored amounts of the unspent
/// coins add up to what the coins do, wherever that fits a machine word, and to nothing elsewhere.
pub proof fn both_stores_balance_alike(
    amounts: Seq<String>,
    ids: Seq<Seq<char>>,
    held: Map<Seq<char>, CoinRecordView>,
)
    requires
        held.dom().finite(),
        stores_amounts(amounts, ids, held),
    ensures
        amounts_total(amounts, amounts.len()) == if unspent_total(held) <= u64::MAX {
            Some(Ok::<nat, AmountFault>(unspent_total(held)))
        } else {
            None
        },
    decreases ids.len(),
{
    if ids.len() == 0 {
        lemma_nothing_unspent(held);
    } else {
        let last = ids.last();
        let rest = held.remove(last);
        let front = ids.drop_last();
        let fewer = amounts.drop_last();
        assert(held.contains_key(ids[ids.len() - 1]));
        assert forall|id: Seq<char>| #[trigger]
            rest.contains_key(id) && rest[id].spent_height is None implies front.contains(id) by {
            assert(held.contains_key(id) && held[id].spent_height is None);
            let k = choose|k: int| 0 <= k < ids.len() && ids[k] == id;
            assert(front[k] == id);
        }
        assert forall|i: int| 0 <= i < front.len() implies rest.contains_key(#[trigger] front[i])
            && rest[front[i]].spent_height is None && fewer[i]@ == decimal(
            rest[front[i]].amount as nat,
        ) by {
            assert(front[i] == ids[i]);
            assert(ids[i] != ids[ids.len() - 1]);
        }
        both_stores_balance_alike(fewer, front, rest);
        lemma_amounts_prefix(fewer, amounts, fewer.len());
        lemma_total_remove(held, last);
        amounts_survive_the_text(held[last].amount);
    }
}

proof fn lemma_amounts_prefix(fewer: Seq<String>, amounts: Seq<String>, n: nat)
    requires
        n <= fewer.len() <= amounts.len(),
        forall|i: int| 0 <= i < fewer.len() ==> #[trigger] fewer[i] == amounts[i],
    ensures
        amounts_total(fewer, n) == amounts_total(amounts, n),
    decreases n,
{
    if n > 0 {
        lemma_amounts_prefix(fewer, amounts, (n - 1) as nat);
        assert(fewer[n - 1] == amounts[n - 1]);
    }
}

proof fn lemma_nothing_unspent(held: Map<Seq<char>, CoinRecordView>)
    requires
        held.dom().finite(),
        forall|id: Seq<char>| #[trigger]
            held.contains_key(id) ==> held[id].spent_height is Some,
    ensures
        unspent_total(held) == 0,
    decreases held.dom().len(),
{
    if held.dom().len() > 0 {
        let id = held.dom().choose();
        assert(held.dom().contains(id));
        lemma_nothing_unspent(held.remove(id));
    }
}

/// What a rollback reads of a stored coin: its id and its heights, as they are stored.
#[derive(Debug, Clone, PartialEq, Eq)]
pub struct HeightRow {
    /// The coin id.
    pub coin_id: String,
    /// The height that the coin was created at.
    pub created: Option<i64>,
    /// The height that the coin was spent at.
    pub spent: Option<i64>,
}

/// What a rollback does to stored coins.
#[derive(Debug, PartialEq, Eq)]
pub struct RollbackPlan {
    /// The coins to forget.
    pub forget: Vec<String>,
    /// The coins whose spend is taken back.
    pub unspend: Vec<String>,
}

/// Whether a stored height is known and above another.
pub open spec fn above(height: Option<i64>, fork: u32) -> bool {
    height matches Some(h) && h > fork
}

/// The ids of the first `n` rows that a rollback forgets.
pub open spec fn forgotten_ids(rows: Seq<HeightRow>, fork: u32, n: nat) -> Seq<Seq<char>>
    decreases n,
{
    if n == 0 {
        Seq::empty()
    } else {
        let before = forgotten_ids(rows, fork, (n - 1) as nat);
        if above(rows[n - 1].created, fork) {
            before.push(rows[n - 1].coin_id@)
        } else {
            before
        }
    }
}

/// The ids of the first `n` rows that a rollback keeps and takes a spend back from.
pub open spec fn unspent_ids(rows: Seq<HeightRow>, fork: u32, n: nat) -> Seq<Seq<char>>
    decreases n,
{
    if n == 0 {
        Seq::empty()
    } else {
        let before = unspent_ids(rows, fork, (n - 1) as nat);
        if !above(rows[n - 1].created, fork) && above(rows[n - 1].spent, fork) {
            before.push(rows[n - 1].coin_id@)
        } else {
            before
        }
    }
}

/// The texts of a list.
pub open spec fn ids_view(ids: Seq<String>) -> Seq<Seq<char>> {
    ids.map_values(|id: String| id@)
}

/// Plans a rollback of stored coins to a fork: which to forget, and which to unspend. It reads
/// heights alone, so a coin whose amount cannot be read is rolled back like any other.
pub fn plan_rollback(rows: &Vec<HeightRow>, fork_height: u32) -> (plan: RollbackPlan)
    ensures
        ids_view(plan.forget@) == forgotten_ids(rows@, fork_height, rows@.len()),
        ids_view(plan.unspend@) == unspent_ids(rows@, fork_height, rows@.len()),
{
    let mut forget: Vec<String> = Vec::new();
    let mut unspend: Vec<String> = Vec::new();
    let mut i: usize = 0;
    assert(ids_view(forget@) =~= Seq::empty());
    assert(ids_view(unspend@) =~= Seq::empty());
    while i < rows.len()
        invariant
            i <= rows@.len(),
            ids_view(forget@) == forgotten_ids(rows@, fork_height, i as nat),
            ids_view(unspend@) == unspent_ids(rows@, fork_height, i as nat),
        decreases rows@.len() - i,
    {
        let row = &rows[i];
        let ghost forgotten = forget@;
        let ghost unspent = unspend@;
        if is_above(row.created, fork_height) {
            forget.push(row.coin_id.clone());
            assert(ids_view(forget@) =~= ids_view(forgotten).push(row.coin_id@));
        } else if is_above(row.spent, fork_height) {
            unspend.push(row.coin_id.clone());
            assert(ids_view(unspend@) =~= ids_view(unspent).push(row.coin_id@));
        }
        i = i + 1;
    }
    RollbackPlan { forget, unspend }
}

impl RollbackPlan {
    /// The coins that the plan touches: those to forget, then those to unspend.
    pub fn affected(self) -> (ids: Vec<String>)
        ensures
            ids_view(ids@) == ids_view(self.forget@) + ids_view(self.unspend@),
    {
        let mut ids = self.forget;
        let mut more = self.unspend;
        ids.append(&mut more);
        assert(ids_view(ids@) =~= ids_view(self.forget@) + ids_view(self.unspend@));
        ids
    }
}

/// Whether a stored height is known and above another.
fn is_above(height: Option<i64>, fork: u32) -> (yes: bool)
    ensures
        yes == above(height, fork),
{
    match height {
        Some(h) => h > fork as i64,
        None => false,
    }
}

/// A height as the store writes it.
pub open spec fn written_height(height: Option<u32>) -> Option<i64> {
    match height {
        Some(h) => Some(h as i64),
        None => None,
    }
}

/// Whether rows hold the coins of a map, one for each key.
pub open spec fn stores(rows: Seq<HeightRow>, held: Map<Seq<char>, CoinRecordView>) -> bool {
    &&& forall|i: int, j: int|
        0 <= i < j < rows.len() ==> (#[trigger] rows[i]).coin_id@ != (#[trigger] rows[j]).coin_id@
    &&& forall|i: int|
        0 <= i < rows.len() ==> held.contains_key((#[trigger] rows[i]).coin_id@) && rows[i].created
            == written_height(held[rows[i].coin_id@].created_height) && rows[i].spent
            == written_height(held[rows[i].coin_id@].spent_height)
    &&& forall|id: Seq<char>| #[trigger]
        held.contains_key(id) ==> exists|i: int|
            0 <= i < rows.len() && (#[trigger] rows[i]).coin_id@ == id
}

proof fn lemma_plan(
    rows: Seq<HeightRow>,
    held: Map<Seq<char>, CoinRecordView>,
    fork: u32,
    n: nat,
)
    requires
        stores(rows, held),
        n <= rows.len(),
    ensures
        forgotten_ids(rows, fork, n).no_duplicates(),
        unspent_ids(rows, fork, n).no_duplicates(),
        forall|id: Seq<char>| #[trigger]
            forgotten_ids(rows, fork, n).contains(id) ==> forgets(held, fork, id) && stands_before(
                rows,
                id,
                n,
            ),
        forall|id: Seq<char>| #[trigger]
            unspent_ids(rows, fork, n).contains(id) ==> unspends(held, fork, id) && stands_before(
                rows,
                id,
                n,
            ),
        forall|i: int|
            0 <= i < n && forgets(held, fork, (#[trigger] rows[i]).coin_id@) ==> forgotten_ids(
                rows,
                fork,
                n,
            ).contains(rows[i].coin_id@),
        forall|i: int|
            0 <= i < n && unspends(held, fork, (#[trigger] rows[i]).coin_id@) ==> unspent_ids(
                rows,
                fork,
                n,
            ).contains(rows[i].coin_id@),
    decreases n,
{
    if n > 0 {
        lemma_plan(rows, held, fork, (n - 1) as nat);
        let row = rows[n - 1];
        assert(held.contains_key(row.coin_id@));
        assert(!stands_before(rows, row.coin_id@, (n - 1) as nat));
        let f0 = forgotten_ids(rows, fork, (n - 1) as nat);
        let f1 = forgotten_ids(rows, fork, n);
        let u0 = unspent_ids(rows, fork, (n - 1) as nat);
        let u1 = unspent_ids(rows, fork, n);
        lemma_grown(f0, f1, row.coin_id@);
        lemma_grown(u0, u1, row.coin_id@);
        assert(!f0.contains(row.coin_id@) && !u0.contains(row.coin_id@));
        assert forall|id: Seq<char>| stands_before(rows, id, (n - 1) as nat) || id
            == row.coin_id@ implies stands_before(rows, id, n) by {
            if stands_before(rows, id, (n - 1) as nat) {
                let i = choose|i: int| 0 <= i < n - 1 && (#[trigger] rows[i]).coin_id@ == id;
                assert(rows[i].coin_id@ == id);
            } else {
                assert(rows[n - 1].coin_id@ == id);
            }
        }
        assert forall|i: int| 0 <= i < n && forgets(
            held,
            fork,
            (#[trigger] rows[i]).coin_id@,
        ) implies f1.contains(rows[i].coin_id@) by {
            if i < n - 1 {
                assert(f0.contains(rows[i].coin_id@));
            }
        }
        assert forall|i: int| 0 <= i < n && unspends(
            held,
            fork,
            (#[trigger] rows[i]).coin_id@,
        ) implies u1.contains(rows[i].coin_id@) by {
            if i < n - 1 {
                assert(u0.contains(rows[i].coin_id@));
            }
        }
    }
}

/// Whether one of the first `n` rows has an id.
spec fn stands_before(rows: Seq<HeightRow>, id: Seq<char>, n: nat) -> bool {
    exists|i: int| 0 <= i < n && (#[trigger] rows[i]).coin_id@ == id
}

proof fn lemma_grown(before: Seq<Seq<char>>, now: Seq<Seq<char>>, last: Seq<char>)
    requires
        now == before || now == before.push(last),
    ensures
        forall|id: Seq<char>| #[trigger]
            now.contains(id) == (before.contains(id) || (now != before && id == last)),
{
    assert forall|id: Seq<char>| #[trigger] now.contains(id) == (before.contains(id) || (now
        != before && id == last)) by {
        if now != before {
            if now.contains(id) {
                let k = choose|k: int| 0 <= k < now.len() && now[k] == id;
                if k < before.len() {
                    assert(before[k] == id);
                }
            }
            if before.contains(id) {
                let k = choose|k: int| 0 <= k < before.len() && before[k] == id;
                assert(now[k] == id);
            }
            assert(now[before.len() as int] == last);
        }
    }
}

/// A stored coin after a plan is carried out, if it is left.
pub open spec fn carried_out(
    held: Map<Seq<char>, CoinRecordView>,
    forget: Seq<Seq<char>>,
    unspend: Seq<Seq<char>>,
) -> Map<Seq<char>, CoinRecordView> {
    Map::new(
        |id: Seq<char>| held.contains_key(id) && !forget.contains(id),
        |id: Seq<char>|
            if unspend.contains(id) {
                CoinRecordView { spent_height: None, ..held[id] }
            } else {
                held[id]
            },
    )
}

/// Whether ids are those that a plan made from rows touches: those to forget, then those to
/// unspend.
pub open spec fn reports(rows: Seq<HeightRow>, fork: u32, ids: Seq<String>) -> bool {
    ids_view(ids) == forgotten_ids(rows, fork, rows.len()) + unspent_ids(rows, fork, rows.len())
}

/// A stored wallet and one in memory agree after a rollback: carrying out the plan on the stored
/// coins leaves what a rollback in memory leaves, and the ids that the plan touches are, each
/// once, those that a rollback in memory reports.
pub proof fn both_stores_roll_back_alike(
    rows: Seq<HeightRow>,
    held: Map<Seq<char>, CoinRecordView>,
    fork: u32,
    ids: Seq<String>,
)
    requires
        stores(rows, held),
        reports(rows, fork, ids),
    ensures
        carried_out(
            held,
            forgotten_ids(rows, fork, rows.len()),
            unspent_ids(rows, fork, rows.len()),
        ) == rolled_back(held, fork),
        ids_view(ids).no_duplicates(),
        touched(held, fork, ids),
        forall|other: Seq<String>| #[trigger]
            touched(held, fork, other) ==> forall|id: Seq<char>|
                named(ids, id) == #[trigger] named(other, id),
{
    lemma_plan(rows, held, fork, rows.len());
    lemma_plan_is_exact(rows, held, fork);
    let forget = forgotten_ids(rows, fork, rows.len());
    let unspend = unspent_ids(rows, fork, rows.len());
    let done = carried_out(held, forget, unspend);
    let want = rolled_back(held, fork);
    assert forall|id: Seq<char>| #[trigger] done.contains_key(id) == want.contains_key(id) && (
    done.contains_key(id) ==> done[id] == want[id]) by {
        assert(forget.contains(id) == forgets(held, fork, id));
    }
    assert(done =~= want);
    let all = forget + unspend;
    assert forall|k: int| 0 <= k < ids.len() implies (#[trigger] ids[k])@ == all[k] by {
        assert(ids_view(ids)[k] == all[k]);
    }
    assert(ids.len() == all.len());
    assert forall|k: int| 0 <= k < all.len() implies if k < forget.len() {
        forgets(held, fork, #[trigger] all[k])
    } else {
        unspends(held, fork, all[k])
    } by {
        if k < forget.len() {
            assert(forget.contains(forget[k]));
        } else {
            assert(unspend.contains(unspend[k - forget.len()]));
        }
    }
    assert forall|i: int, j: int| 0 <= i < j < all.len() implies all[i] != all[j] by {
        if j < forget.len() {
            assert(forget[i] != forget[j]);
        } else if i >= forget.len() {
            assert(unspend[i - forget.len()] != unspend[j - forget.len()]);
        }
    }
    assert forall|id: Seq<char>|
        forgets(held, fork, id) || unspends(held, fork, id) implies named(ids, id) by {
        if forgets(held, fork, id) {
            assert(forget.contains(id));
            let k = choose|k: int| 0 <= k < forget.len() && forget[k] == id;
            assert(ids[k]@ == all[k]);
        } else {
            assert(unspend.contains(id));
            let k = choose|k: int| 0 <= k < unspend.len() && unspend[k] == id;
            assert(ids[k + forget.len()]@ == all[k + forget.len()]);
        }
    }
    assert(touched(held, fork, ids));
    assert forall|other: Seq<String>| #[trigger] touched(held, fork, other) implies forall|
        id: Seq<char>,
    | named(ids, id) == #[trigger] named(other, id) by {
        lemma_touched_alike(held, fork, ids, other);
    }
}

/// A plan names exactly the coins that a rollback forgets and those that it unspends.
proof fn lemma_plan_is_exact(
    rows: Seq<HeightRow>,
    held: Map<Seq<char>, CoinRecordView>,
    fork: u32,
)
    requires
        stores(rows, held),
    ensures
        forall|id: Seq<char>| #[trigger]
            forgotten_ids(rows, fork, rows.len()).contains(id) == forgets(held, fork, id),
        forall|id: Seq<char>| #[trigger]
            unspent_ids(rows, fork, rows.len()).contains(id) == unspends(held, fork, id),
{
    lemma_plan(rows, held, fork, rows.len());
    let forget = forgotten_ids(rows, fork, rows.len());
    let unspend = unspent_ids(rows, fork, rows.len());
    assert forall|id: Seq<char>| #[trigger]
        forget.contains(id) == forgets(held, fork, id) by {
        if forgets(held, fork, id) {
            let i = choose|i: int| 0 <= i < rows.len() && (#[trigger] rows[i]).coin_id@ == id;
            assert(forget.contains(rows[i].coin_id@));
        }
    }
    assert forall|id: Seq<char>| #[trigger]
        unspend.contains(id) == unspends(held, fork, id) by {
        if unspends(held, fork, id) {
            let i = choose|i: int| 0 <= i < rows.len() && (#[trigger] rows[i]).coin_id@ == id;
            assert(unspend.contains(rows[i].coin_id@));
        }
    }
}

proof fn lemma_touched_alike(
    held: Map<Seq<char>, CoinRecordView>,
    fork: u32,
    a: Seq<String>,
    b: Seq<String>,
)
    requires
        touched(held, fork, a),
        touched(held, fork, b),
    ensures
        forall|id: Seq<char>| named(a, id) == #[trigger] named(b, id),
{
    assert forall|id: Seq<char>| named(a, id) == #[trigger] named(b, id) by {
        if named(a, id) {
            let i = choose|i: int| 0 <= i < a.len() && (#[trigger] a[i])@ == id;
            assert(forgets(held, fork, a[i]@) || unspends(held, fork, a[i]@));
        }
        if named(b, id) {
            let i = choose|i: int| 0 <= i < b.len() && (#[trigger] b[i])@ == id;
            assert(forgets(held, fork, b[i]@) || unspends(held, fork, b[i]@));
        }
    }
}

/// The columns of a stored coin beside its id.
pub struct StoredCoin {
    /// The puzzle hash.
    pub puzzle_hash: Seq<char>,
    /// The amount as text.
    pub amount: Seq<char>,
    /// The height that the coin was created at.
    pub created: Option<i64>,
    /// The height that the coin was spent at.
    pub spent: Option<i64>,
}

/// What a database holds of a wallet's coins and its sync loop.
pub struct StoredWallet {
    /// The coins by id.
    pub coins: Map<Seq<char>, StoredCoin>,
    /// The sync row.
    pub sync: Option<SyncRow>,
}

/// A coin as the store writes it.
pub open spec fn written_coin(coin: CoinRecordView) -> StoredCoin {
    StoredCoin {
        puzzle_hash: coin.puzzle_hash,
        amount: decimal(coin.amount as nat),
        created: written_height(coin.created_height),
        spent: written_height(coin.spent_height),
    }
}

/// A call that changes a wallet's coins or its sync status.
pub enum StoreCall {
    /// A coin update.
    Apply(CoinRecordView),
    /// A rollback to a fork.
    RollBack(u32),
    /// A move of the peak.
    SetPeak(u32),
    /// A lifecycle and a target.
    SetStatus(SyncLifecycle, u32),
}

/// Whether rows are the ids and heights of stored coins, one row for each.
pub open spec fn reads_heights(rows: Seq<HeightRow>, coins: Map<Seq<char>, StoredCoin>) -> bool {
    &&& forall|i: int, j: int|
        0 <= i < j < rows.len() ==> (#[trigger] rows[i]).coin_id@ != (#[trigger] rows[j]).coin_id@
    &&& forall|i: int|
        0 <= i < rows.len() ==> coins.contains_key((#[trigger] rows[i]).coin_id@) && rows[i].created
            == coins[rows[i].coin_id@].created && rows[i].spent == coins[rows[i].coin_id@].spent
    &&& forall|id: Seq<char>| #[trigger]
        coins.contains_key(id) ==> exists|i: int|
            0 <= i < rows.len() && (#[trigger] rows[i]).coin_id@ == id
}

/// Stored coins after the plan that was made from rows is carried out.
pub open spec fn planned(
    coins: Map<Seq<char>, StoredCoin>,
    rows: Seq<HeightRow>,
    fork: u32,
) -> Map<Seq<char>, StoredCoin> {
    let forget = forgotten_ids(rows, fork, rows.len());
    let unspend = unspent_ids(rows, fork, rows.len());
    Map::new(
        |id: Seq<char>| coins.contains_key(id) && !forget.contains(id),
        |id: Seq<char>|
            if unspend.contains(id) {
                StoredCoin { spent: None, ..coins[id] }
            } else {
                coins[id]
            },
    )
}

/// Whether a call takes a stored wallet from one content to another.
pub open spec fn stored_call(before: StoredWallet, call: StoreCall, now: StoredWallet) -> bool {
    match call {
        StoreCall::Apply(record) => now == (StoredWallet {
            coins: before.coins.insert(record.coin_id, written_coin(record)),
            ..before
        }),
        StoreCall::RollBack(fork) => now.sync == Some(with_peak(before.sync, fork)) && exists|
            rows: Seq<HeightRow>,
        | #[trigger]
            reads_heights(rows, before.coins) && now.coins == planned(before.coins, rows, fork),
        StoreCall::SetPeak(height) => now == (StoredWallet {
            sync: Some(with_peak(before.sync, raised(peak_column(before.sync), height))),
            ..before
        }),
        StoreCall::SetStatus(lifecycle, target) => now == (StoredWallet {
            sync: Some(with_status(before.sync, lifecycle, target)),
            ..before
        }),
    }
}

/// A wallet in memory after a call.
pub open spec fn memory_call(state: WalletStateView, call: StoreCall) -> WalletStateView {
    match call {
        StoreCall::Apply(record) => applied(state, record),
        StoreCall::RollBack(fork) => rolled_back_state(state, fork),
        StoreCall::SetPeak(height) => peak_raised(state, height),
        StoreCall::SetStatus(lifecycle, target) => status_set(state, lifecycle, target),
    }
}

/// A fresh wallet in memory after the first `n` calls.
pub open spec fn memory_after(calls: Seq<StoreCall>, n: nat) -> WalletStateView
    decreases n,
{
    if n == 0 {
        fresh_state()
    } else {
        memory_call(memory_after(calls, (n - 1) as nat), calls[n - 1])
    }
}

/// Whether a stored wallet says what one in memory does: the same coins, each as it is written,
/// and the same sync status.
pub open spec fn alike(stored: StoredWallet, state: WalletStateView) -> bool {
    &&& stored.coins.dom() == state.coins.dom()
    &&& forall|id: Seq<char>| #[trigger]
        state.coins.contains_key(id) ==> stored.coins[id] == written_coin(state.coins[id])
    &&& row_status(stored.sync) == status_of(state)
    &&& stored_peak(peak_column(stored.sync)) == state.peak_height
}

/// Whether a list of contents is what a fresh stored wallet goes through under some calls.
pub open spec fn stored_run(contents: Seq<StoredWallet>, calls: Seq<StoreCall>) -> bool {
    &&& contents.len() == calls.len() + 1
    &&& contents[0] == (StoredWallet { coins: Map::empty(), sync: None })
    &&& forall|i: int|
        0 <= i < calls.len() ==> stored_call(contents[i], #[trigger] calls[i], contents[i + 1])
}

/// A stored wallet and one in memory that received the same calls are alike: every coin is read
/// back from the store as memory has it, the sync status and with it the peak are the same, a
/// rollback would report the same ids, each once, and the balances agree.
pub proof fn both_stores_stay_alike(contents: Seq<StoredWallet>, calls: Seq<StoreCall>)
    requires
        stored_run(contents, calls),
    ensures
        alike(contents.last(), memory_after(calls, calls.len())),
        forall|id: Seq<char>| #[trigger]
            contents.last().coins.contains_key(id) ==> coin_row(
                memory_after(calls, calls.len()).coins[id].coin_id,
                contents.last().coins[id].puzzle_hash,
                contents.last().coins[id].amount,
                contents.last().coins[id].created,
                contents.last().coins[id].spent,
            ) == Ok::<CoinRecordView, AmountFault>(memory_after(calls, calls.len()).coins[id])
                && memory_after(calls, calls.len()).coins[id].coin_id == id,
        forall|rows: Seq<HeightRow>, fork: u32, ids: Seq<String>|
            reads_heights(rows, contents.last().coins) && #[trigger] reports(rows, fork, ids)
                ==> ids_view(ids).no_duplicates() && touched(
                memory_after(calls, calls.len()).coins,
                fork,
                ids,
            ),
        forall|amounts: Seq<String>, ids: Seq<Seq<char>>| #[trigger]
            stores_amounts(amounts, ids, memory_after(calls, calls.len()).coins) ==> amounts_total(
                amounts,
                amounts.len(),
            ) == if unspent_total(memory_after(calls, calls.len()).coins) <= u64::MAX {
                Some(
                    Ok::<nat, AmountFault>(
                        unspent_total(memory_after(calls, calls.len()).coins),
                    ),
                )
            } else {
                None
            },
{
    lemma_run(contents, calls, calls.len());
    let stored = contents.last();
    let state = memory_after(calls, calls.len());
    assert forall|id: Seq<char>| #[trigger] stored.coins.contains_key(id) implies coin_row(
        state.coins[id].coin_id,
        stored.coins[id].puzzle_hash,
        stored.coins[id].amount,
        stored.coins[id].created,
        stored.coins[id].spent,
    ) == Ok::<CoinRecordView, AmountFault>(state.coins[id]) && state.coins[id].coin_id == id by {
        assert(state.coins.contains_key(id));
        coins_survive_the_store(state.coins[id]);
    }
    assert forall|rows: Seq<HeightRow>, fork: u32, ids: Seq<String>|
        reads_heights(rows, stored.coins) && #[trigger] reports(
            rows,
            fork,
            ids,
        ) implies ids_view(ids).no_duplicates() && touched(
        state.coins,
        fork,
        ids,
    ) by {
        lemma_reads_as_memory(rows, stored, state);
        both_stores_roll_back_alike(rows, state.coins, fork, ids);
    }
    assert forall|amounts: Seq<String>, ids: Seq<Seq<char>>| #[trigger]
        stores_amounts(amounts, ids, state.coins) implies amounts_total(amounts, amounts.len())
        == if unspent_total(state.coins) <= u64::MAX {
        Some(Ok::<nat, AmountFault>(unspent_total(state.coins)))
    } else {
        None
    } by {
        both_stores_balance_alike(amounts, ids, state.coins);
    }
}

/// Rows that read the heights of a stored wallet hold the coins of one in memory that is alike.
proof fn lemma_reads_as_memory(rows: Seq<HeightRow>, stored: StoredWallet, state: WalletStateView)
    requires
        alike(stored, state),
        reads_heights(rows, stored.coins),
    ensures
        stores(rows, state.coins),
{
    assert forall|i: int| 0 <= i < rows.len() implies state.coins.contains_key(
        (#[trigger] rows[i]).coin_id@,
    ) && rows[i].created == written_height(state.coins[rows[i].coin_id@].created_height)
        && rows[i].spent == written_height(state.coins[rows[i].coin_id@].spent_height) by {
        assert(stored.coins.dom().contains(rows[i].coin_id@));
    }
    assert forall|id: Seq<char>| #[trigger] state.coins.contains_key(id) implies exists|i: int|
        0 <= i < rows.len() && (#[trigger] rows[i]).coin_id@ == id by {
        assert(stored.coins.dom().contains(id));
        assert(stored.coins.contains_key(id));
    }
}

proof fn lemma_run(contents: Seq<StoredWallet>, calls: Seq<StoreCall>, n: nat)
    requires
        stored_run(contents, calls),
        n <= calls.len(),
    ensures
        alike(contents[n as int], memory_after(calls, n)),
        memory_after(calls, n).coins.dom().finite(),
        forall|id: Seq<char>| #[trigger]
            memory_after(calls, n).coins.contains_key(id) ==> memory_after(calls, n).coins[id].coin_id
                == id,
    decreases n,
{
    if n == 0 {
        assert(contents[0].coins.dom() =~= fresh_state().coins.dom());
    } else {
        lemma_run(contents, calls, (n - 1) as nat);
        let before = contents[n - 1];
        let now = contents[n as int];
        let held = memory_after(calls, (n - 1) as nat);
        let state = memory_after(calls, n);
        let call = calls[n - 1];
        assert(stored_call(before, call, now));
        match call {
            StoreCall::Apply(record) => {
                assert(now.coins.dom() =~= state.coins.dom());
            },
            StoreCall::RollBack(fork) => {
                let rows = choose|rows: Seq<HeightRow>| #[trigger]
                    reads_heights(rows, before.coins) && now.coins == planned(
                        before.coins,
                        rows,
                        fork,
                    );
                lemma_reads_as_memory(rows, before, held);
                lemma_planned(rows, before, held, fork);
                assert(state.coins.dom().subset_of(held.coins.dom()));
                assert(now.coins.dom() =~= state.coins.dom());
                both_stores_sync_alike(before.sync, held, fork, SyncLifecycle::Idle);
            },
            StoreCall::SetPeak(height) => {
                both_stores_sync_alike(before.sync, held, height, SyncLifecycle::Idle);
            },
            StoreCall::SetStatus(lifecycle, target) => {
                both_stores_sync_alike(before.sync, held, target, lifecycle);
            },
        }
    }
}

/// Carrying out a plan on stored coins leaves what a rollback in memory leaves, as it is written.
proof fn lemma_planned(
    rows: Seq<HeightRow>,
    stored: StoredWallet,
    state: WalletStateView,
    fork: u32,
)
    requires
        alike(stored, state),
        stores(rows, state.coins),
    ensures
        forall|id: Seq<char>| #[trigger]
            planned(stored.coins, rows, fork).contains_key(id) == rolled_back(
                state.coins,
                fork,
            ).contains_key(id),
        forall|id: Seq<char>| #[trigger]
            rolled_back(state.coins, fork).contains_key(id) ==> planned(
                stored.coins,
                rows,
                fork,
            )[id] == written_coin(rolled_back(state.coins, fork)[id]),
{
    lemma_plan_is_exact(rows, state.coins, fork);
    let done = planned(stored.coins, rows, fork);
    let want = rolled_back(state.coins, fork);
    assert forall|id: Seq<char>| #[trigger] done.contains_key(id) == want.contains_key(id) by {
        assert(stored.coins.dom().contains(id) == state.coins.dom().contains(id));
    }
    assert forall|id: Seq<char>| #[trigger] want.contains_key(id) implies done[id] == written_coin(
        want[id],
    ) by {
        assert(state.coins.contains_key(id));
        assert(stored.coins.dom().contains(id));
        assert(done.contains_key(id));
    }
}

} // verus!
