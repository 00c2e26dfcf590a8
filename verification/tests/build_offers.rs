//! Leg-based offer requests.

use dig_wallet_backend::engine::builder::{SdkSpendBuilder, SpendInputs};
use dig_wallet_backend::types::offers::{CancelOfferRequest, MakeOfferRequest, TakeOfferRequest};
use dig_wallet_backend::types::{
    Amount, AssetId, Bytes32, IdentityRef, Network, OfferLeg, PublicKey, Puzzlehash, WalletCat,
    WalletCoin, WalletErrorCode, WalletId, WalletResult,
};

struct NoInputs;

impl SpendInputs for NoInputs {
    fn spendable_xch(&self, _: &IdentityRef) -> WalletResult<Vec<WalletCoin>> {
        Ok(vec![])
    }
    fn spendable_cat(&self, _: &IdentityRef, _: &AssetId) -> WalletResult<Vec<WalletCat>> {
        Ok(vec![])
    }
    fn synthetic_key(&self, _: &Bytes32) -> Option<PublicKey> {
        None
    }
    fn change_puzzle_hash(&self, _: &IdentityRef) -> WalletResult<Bytes32> {
        Ok(Bytes32::new([1u8; 32]))
    }
}

fn builder() -> SdkSpendBuilder<NoInputs> {
    SdkSpendBuilder::new(NoInputs, Network::Mainnet, 500)
}

fn identity() -> IdentityRef {
    IdentityRef::new(WalletId(1))
}

fn xch(amount: u64) -> OfferLeg {
    OfferLeg::Xch { amount: Amount(amount) }
}

fn make(offered: Vec<OfferLeg>, requested: Vec<OfferLeg>) -> MakeOfferRequest {
    MakeOfferRequest {
        identity: identity(),
        offered,
        requested,
        payee_puzzle_hash: Puzzlehash(hex::encode([9u8; 32])),
        fee: Amount(0),
    }
}

#[test]
fn make_offer_is_reserved_pending_the_assemble_seam() {
    let cat = OfferLeg::Cat { asset_id: AssetId("ab".repeat(32)), amount: Amount(50) };
    let err = builder().build_make_offer(make(vec![xch(100)], vec![cat])).unwrap_err();
    assert_eq!(err.code, WalletErrorCode::NotImplemented);
}

#[test]
fn make_offer_rejects_an_empty_side_before_not_implemented() {
    let err = builder().build_make_offer(make(vec![], vec![xch(1)])).unwrap_err();
    assert_eq!(err.code, WalletErrorCode::InvalidInput);
    assert_eq!(err.message, "an offer's offered side must carry at least one asset");
}

#[test]
fn make_offer_rejects_a_zero_amount_leg() {
    let err = builder().build_make_offer(make(vec![xch(0)], vec![xch(1)])).unwrap_err();
    assert_eq!(err.code, WalletErrorCode::InvalidInput);
}

#[test]
fn take_offer_rejects_a_non_offer_string() {
    let req = TakeOfferRequest {
        identity: identity(),
        offer: "definitely not an offer".into(),
        fee: Amount(0),
    };
    let err = builder().build_take_offer(req).unwrap_err();
    assert_eq!(err.code, WalletErrorCode::InvalidInput);
    assert!(err.message.starts_with("not a valid offer: decode error: not a Chia offer"));
}

#[test]
fn cancel_offer_rejects_a_bad_reclaim_hash_before_decoding() {
    let req = CancelOfferRequest {
        identity: identity(),
        offer: "offer1whatever".into(),
        reclaim_puzzle_hash: Puzzlehash("not-hex".into()),
        fee: Amount(0),
    };
    let err = builder().build_cancel_offer(req).unwrap_err();
    assert_eq!(err.code, WalletErrorCode::InvalidInput);
    assert!(err.message.starts_with("bad puzzle hash not-hex: "));
}

#[test]
fn cancel_offer_rejects_a_non_offer_string() {
    let req = CancelOfferRequest {
        identity: identity(),
        offer: "not an offer".into(),
        reclaim_puzzle_hash: Puzzlehash(hex::encode([2u8; 32])),
        fee: Amount(0),
    };
    let err = builder().build_cancel_offer(req).unwrap_err();
    assert_eq!(err.code, WalletErrorCode::InvalidInput);
}

#[test]
fn a_cat_leg_with_a_short_asset_id_is_rejected() {
    let cat = OfferLeg::Cat { asset_id: AssetId("abcd".into()), amount: Amount(50) };
    let err = builder().build_make_offer(make(vec![cat], vec![xch(1)])).unwrap_err();
    assert_eq!(err.code, WalletErrorCode::InvalidInput);
    assert_eq!(err.message, "asset id abcd is not 32 bytes");
}
