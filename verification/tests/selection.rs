//! Coin selection.

use dig_wallet_backend::engine::selection::{
    select_for_consolidation, select_for_spend, sum_of_coins, SelectionOutcome, DEFAULT_COIN_CAP,
};
use dig_wallet_backend::types::{Bytes32, WalletCoin, WalletErrorCode};

fn coin(amount: u64, seed: u8) -> WalletCoin {
    WalletCoin::new(
        Bytes32::new([seed; 32]),
        Bytes32::new([seed.wrapping_add(100); 32]),
        amount,
    )
}

fn amounts(coins: &[WalletCoin]) -> Vec<u64> {
    coins.iter().map(|c| c.amount).collect()
}

#[test]
fn default_cap_is_500() {
    assert_eq!(DEFAULT_COIN_CAP, 500);
}

#[test]
fn selects_high_value_first_with_change() {
    let coins = [coin(100, 1), coin(300, 2), coin(200, 3)];
    match select_for_spend(&coins, 400, DEFAULT_COIN_CAP) {
        SelectionOutcome::Selected { coins, total, change } => {
            assert_eq!(amounts(&coins), vec![300, 200]);
            assert_eq!(total, 500);
            assert_eq!(change, 100);
        }
        other => panic!("expected Selected, got {other:?}"),
    }
}

#[test]
fn exact_target_yields_zero_change() {
    let coins = [coin(300, 1), coin(200, 2)];
    match select_for_spend(&coins, 500, DEFAULT_COIN_CAP) {
        SelectionOutcome::Selected { total, change, .. } => {
            assert_eq!(total, 500);
            assert_eq!(change, 0);
        }
        other => panic!("expected Selected, got {other:?}"),
    }
}

#[test]
fn stops_at_the_minimal_prefix() {
    let coins = [coin(500, 1), coin(400, 2)];
    match select_for_spend(&coins, 400, DEFAULT_COIN_CAP) {
        SelectionOutcome::Selected { coins, change, .. } => {
            assert_eq!(amounts(&coins), vec![500]);
            assert_eq!(change, 100);
        }
        other => panic!("expected Selected, got {other:?}"),
    }
}

#[test]
fn selection_is_deterministic_across_input_order() {
    let a = [coin(100, 1), coin(300, 2), coin(200, 3)];
    let b = [coin(200, 3), coin(100, 1), coin(300, 2)];
    assert_eq!(
        select_for_spend(&a, 400, DEFAULT_COIN_CAP),
        select_for_spend(&b, 400, DEFAULT_COIN_CAP),
    );
}

#[test]
fn equal_amounts_tie_break_by_coin_id() {
    let coins = [coin(50, 9), coin(50, 1)];
    let SelectionOutcome::Selected { coins: picked, .. } =
        select_for_spend(&coins, 50, DEFAULT_COIN_CAP)
    else {
        panic!("expected Selected");
    };
    assert_eq!(picked.len(), 1);
    let expected = if coin(50, 1).coin_id().is_before(&coin(50, 9).coin_id()) {
        coin(50, 1)
    } else {
        coin(50, 9)
    };
    assert_eq!(picked[0].coin_id(), expected.coin_id());
}

#[test]
fn at_cap_boundary_is_selected() {
    let coins: Vec<WalletCoin> = (0..50).map(|i| coin(1, i as u8)).collect();
    match select_for_spend(&coins, 50, 50) {
        SelectionOutcome::Selected { total, change, .. } => {
            assert_eq!(total, 50);
            assert_eq!(change, 0);
        }
        other => panic!("expected Selected at the cap boundary, got {other:?}"),
    }
}

#[test]
fn one_over_cap_needs_consolidation() {
    let coins: Vec<WalletCoin> = (0..51).map(|i| coin(1, i as u8)).collect();
    match select_for_spend(&coins, 51, 50) {
        SelectionOutcome::NeedsConsolidation {
            available_coin_count,
            available_total,
            required,
            cap,
        } => {
            assert_eq!(available_coin_count, 51);
            assert_eq!(available_total, 51);
            assert_eq!(required, 51);
            assert_eq!(cap, 50);
        }
        other => panic!("expected NeedsConsolidation, got {other:?}"),
    }
}

#[test]
fn genuine_shortfall_is_insufficient_not_consolidation() {
    let coins: Vec<WalletCoin> = (0..51).map(|i| coin(1, i as u8)).collect();
    match select_for_spend(&coins, 100, 50) {
        SelectionOutcome::InsufficientFunds { available_total, required } => {
            assert_eq!(available_total, 51);
            assert_eq!(required, 100);
        }
        other => panic!("expected InsufficientFunds, got {other:?}"),
    }
}

#[test]
fn empty_wallet_is_insufficient() {
    match select_for_spend(&[], 10, DEFAULT_COIN_CAP) {
        SelectionOutcome::InsufficientFunds { available_total, required } => {
            assert_eq!(available_total, 0);
            assert_eq!(required, 10);
        }
        other => panic!("expected InsufficientFunds, got {other:?}"),
    }
}

#[test]
fn zero_target_selects_nothing() {
    match select_for_spend(&[coin(10, 1)], 0, DEFAULT_COIN_CAP) {
        SelectionOutcome::Selected { coins, change, .. } => {
            assert!(coins.is_empty());
            assert_eq!(change, 0);
        }
        other => panic!("expected an empty Selected, got {other:?}"),
    }
}

#[test]
fn selected_coins_are_inputs() {
    let inputs = [coin(500, 7), coin(400, 8)];
    let SelectionOutcome::Selected { coins, .. } =
        select_for_spend(&inputs, 600, DEFAULT_COIN_CAP)
    else {
        panic!("expected Selected");
    };
    let input_ids: Vec<Bytes32> = inputs.iter().map(|c| c.coin_id()).collect();
    for c in &coins {
        assert!(input_ids.contains(&c.coin_id()), "selected coin is an input");
    }
}

#[test]
fn consolidation_picks_largest_capped() {
    let coins = [coin(5, 1), coin(1, 2), coin(4, 3), coin(2, 4), coin(3, 5)];
    let picked = select_for_consolidation(&coins, 3).unwrap();
    assert_eq!(amounts(&picked), vec![5, 4, 3]);
}

#[test]
fn consolidation_requires_two_coins() {
    assert_eq!(
        select_for_consolidation(&[coin(10, 1)], 50).unwrap_err().code,
        WalletErrorCode::InvalidInput
    );
    assert_eq!(
        select_for_consolidation(&[], 50).unwrap_err().code,
        WalletErrorCode::InvalidInput
    );
}

#[test]
fn consolidation_never_truncates_below_two() {
    let coins = [coin(5, 1), coin(4, 2), coin(3, 3)];
    assert_eq!(select_for_consolidation(&coins, 1).unwrap().len(), 2);
}

#[test]
fn a_coin_id_hashes_the_coin() {
    let outside = chia_protocol::Coin::new(
        chia_protocol::Bytes32::new([7u8; 32]),
        chia_protocol::Bytes32::new([107u8; 32]),
        1_000,
    );
    assert_eq!(coin(1_000, 7).coin_id().0, outside.coin_id().to_bytes());
    assert_ne!(coin(1_000, 7).coin_id(), coin(1_001, 7).coin_id());
}

#[test]
fn coins_add_up() {
    assert_eq!(sum_of_coins(&[coin(5, 1), coin(1, 2), coin(4, 3)]), 10);
    assert_eq!(sum_of_coins(&[]), 0);
    assert_eq!(sum_of_coins(&[coin(u64::MAX, 1)]), u64::MAX);
}
