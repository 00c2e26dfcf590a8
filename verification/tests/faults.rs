//! Each fault, and the error that it becomes.

use dig_wallet_backend::engine::build_offer::{
    compute_offer_id, cost_to_assets, map_offer_asset, map_offer_error, unknown_build,
};
use dig_wallet_backend::engine::build_options::map_options_error;
use dig_wallet_backend::engine::build_tips::map_tip_error;
use dig_wallet_backend::engine::builder::{assert_conserved, checked_target, ensure_signed_offline};
use dig_wallet_backend::engine::offer_driver::{LegAsset, OfferFault};
use dig_wallet_backend::engine::option_driver::OptionFault;
use dig_wallet_backend::engine::tip_driver::TipFault;
use dig_wallet_backend::types::{
    Amount, AssetId, Bytes32, PublicKey, RequiredSignature, SummaryAsset, WalletCoin, WalletError,
    WalletErrorCode, WalletSpend,
};

fn is(error: WalletError, code: WalletErrorCode, message: &str) {
    assert_eq!(error, WalletError::new(code, message.into()));
}

#[test]
fn offer_faults_become_errors() {
    let short = OfferFault::InvalidInput("Insufficient XCH".into());
    is(map_offer_error(short), WalletErrorCode::InsufficientFunds, "Insufficient XCH");
    let odd = OfferFault::InvalidInput("no legs".into());
    is(map_offer_error(odd), WalletErrorCode::InvalidInput, "no legs");
    let text = OfferFault::Decode("x".into());
    is(map_offer_error(text), WalletErrorCode::InvalidInput, "malformed offer: x");
    let apart = OfferFault::Incompatible("apart".into());
    is(map_offer_error(apart), WalletErrorCode::InvalidInput, "apart");
    let driver = OfferFault::Driver("Eval".into());
    is(map_offer_error(driver), WalletErrorCode::SpendValidationFailed, "offer driver: Eval");
    let signer = OfferFault::Signer("Bad".into());
    is(
        map_offer_error(signer),
        WalletErrorCode::SpendValidationFailed,
        "offer signature extraction: Bad",
    );
    assert_eq!(unknown_build().code, WalletErrorCode::InvalidInput);
    assert_eq!(
        compute_offer_id(&"offer1nonsense".to_string()).unwrap_err().code,
        WalletErrorCode::InvalidInput
    );
}

#[test]
fn option_faults_become_errors() {
    let odd = OptionFault::InvalidInput("even".into());
    is(map_options_error(odd), WalletErrorCode::InvalidInput, "even");
    let other = OptionFault::Other("driver".into());
    is(map_options_error(other), WalletErrorCode::SpendValidationFailed, "dig-options: driver");
}

#[test]
fn tip_faults_become_errors() {
    is(
        map_tip_error(TipFault::ZeroAmount),
        WalletErrorCode::InvalidInput,
        "a tip must move a non-zero amount",
    );
    is(
        map_tip_error(TipFault::InsufficientFunds { need: 5, have: 3 }),
        WalletErrorCode::InsufficientFunds,
        "insufficient CAT to tip: need 5, have 3",
    );
    is(
        map_tip_error(TipFault::TooManyInputs { needed: 51, cap: 50 }),
        WalletErrorCode::InsufficientFunds,
        "tip needs 51 CAT inputs, over the 50-coin cap; consolidate first",
    );
    is(
        map_tip_error(TipFault::Other("driver".into())),
        WalletErrorCode::SpendValidationFailed,
        "dig-tips: driver",
    );
}

#[test]
fn a_target_needs_a_value_that_fits() {
    assert_eq!(checked_target(100, 5), Ok(105));
    is(
        checked_target(u64::MAX, 1).unwrap_err(),
        WalletErrorCode::InvalidInput,
        "amount + fee overflows",
    );
    is(
        checked_target(0, 0).unwrap_err(),
        WalletErrorCode::InvalidInput,
        "a spend must move a non-zero amount",
    );
}

#[test]
fn a_spend_that_loses_value_is_refused() {
    assert!(assert_conserved(100, 95, 5).is_ok());
    is(
        assert_conserved(100, 90, 5).unwrap_err(),
        WalletErrorCode::SpendValidationFailed,
        "value not conserved: inputs 100 != outputs+fee 95",
    );
    is(
        assert_conserved(100, u64::MAX, 1).unwrap_err(),
        WalletErrorCode::SpendValidationFailed,
        "output + fee overflow",
    );
}

#[test]
fn a_spend_without_spends_or_signatures_is_refused() {
    let coin = WalletCoin::new(Bytes32::new([1; 32]), Bytes32::new([2; 32]), 1);
    let spends = vec![WalletSpend { coin, puzzle_reveal: vec![1], solution: vec![0x80] }];
    let required =
        vec![RequiredSignature { public_key: PublicKey([0; 48]), message: vec![1, 2, 3] }];
    assert!(ensure_signed_offline(&spends, &required).is_ok());
    is(
        ensure_signed_offline(&vec![], &required).unwrap_err(),
        WalletErrorCode::SpendValidationFailed,
        "spend produced no coin spends",
    );
    is(
        ensure_signed_offline(&spends, &vec![]).unwrap_err(),
        WalletErrorCode::SpendValidationFailed,
        "spend requires no signatures",
    );
}

#[test]
fn offer_legs_are_shown_in_hex() {
    let id = Bytes32::new([0xab; 32]);
    let hex_id = "ab".repeat(32);
    assert_eq!(map_offer_asset(&LegAsset::Xch(5)), SummaryAsset::Xch { amount: Amount(5) });
    assert_eq!(
        map_offer_asset(&LegAsset::Cat { asset_id: id, amount: 7 }),
        SummaryAsset::Cat { asset_id: AssetId(hex_id.clone()), amount: Amount(7) }
    );
    assert_eq!(
        map_offer_asset(&LegAsset::Nft { launcher_id: id }),
        SummaryAsset::Nft { launcher_id: hex_id.clone() }
    );
    assert_eq!(
        cost_to_assets(3, &vec![(id, 7)]),
        vec![
            SummaryAsset::Xch { amount: Amount(3) },
            SummaryAsset::Cat { asset_id: AssetId(hex_id), amount: Amount(7) },
        ]
    );
    assert!(cost_to_assets(0, &vec![]).is_empty());
}
