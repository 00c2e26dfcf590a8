//! Tips.

use chia_bls::PublicKey as BlsKey;
use chia_protocol::{Bytes32 as ChainHash, Coin};
use chia_puzzle_types::standard::StandardArgs;
use chia_wallet_sdk::driver::{Cat, SpendContext};
use chia_wallet_sdk::types::Conditions;
use dig_wallet_backend::engine::builder::{SdkSpendBuilder, SpendInputs};
use dig_wallet_backend::types::{
    Amount, AssetId, AutoTipPolicy, AutoTipRequest, Bytes32, CapReason, IdentityRef, LineageProof,
    Network, PublicKey, Puzzlehash, TipDecision, TipLedger, TipMode, TipRequest, WalletCat,
    WalletCoin, WalletErrorCode, WalletId, WalletResult,
};

const G1_GENERATOR: [u8; 48] = [
    0x97, 0xf1, 0xd3, 0xa7, 0x31, 0x97, 0xd7, 0x94, 0x26, 0x95, 0x63, 0x8c, 0x4f, 0xa9, 0xac, 0x0f,
    0xc3, 0x68, 0x8c, 0x4f, 0x97, 0x74, 0xb9, 0x05, 0xa1, 0x4e, 0x3a, 0x3f, 0x17, 0x1b, 0xac, 0x58,
    0x6c, 0x55, 0xe8, 0x3f, 0xf9, 0x7a, 0x1a, 0xef, 0xfb, 0x3a, 0xf0, 0x0a, 0xdb, 0x22, 0xc6, 0xbb,
];

const ASSET: [u8; 32] = [0xABu8; 32];

fn wallet_puzzle_hash() -> ChainHash {
    let key = BlsKey::from_bytes(&G1_GENERATOR).expect("valid G1 generator");
    ChainHash::from(StandardArgs::curry_tree_hash(key).to_bytes())
}

fn hash(value: ChainHash) -> Bytes32 {
    Bytes32::new(value.to_bytes())
}

fn plain(coin: Coin) -> WalletCoin {
    WalletCoin::new(hash(coin.parent_coin_info), hash(coin.puzzle_hash), coin.amount)
}

fn fabricated_cat(puzzle_hash: Bytes32, amount: u64) -> WalletCat {
    WalletCat {
        coin: WalletCoin::new(Bytes32::new([0x33u8; 32]), Bytes32::new([0xEEu8; 32]), amount),
        lineage_proof: Some(LineageProof {
            parent_parent_coin_info: Bytes32::new([0x01u8; 32]),
            parent_inner_puzzle_hash: Bytes32::new([0x02u8; 32]),
            parent_amount: amount,
        }),
        asset_id: Bytes32::new(ASSET),
        hidden_puzzle_hash: None,
        p2_puzzle_hash: puzzle_hash,
    }
}

fn foreign_cat(amount: u64) -> WalletCat {
    fabricated_cat(Bytes32::new([0x99u8; 32]), amount)
}

fn issued_cat(amount: u64, seed: u8) -> WalletCat {
    let mut ctx = SpendContext::new();
    let genesis = Coin::new(ChainHash::new([seed; 32]), wallet_puzzle_hash(), amount);
    let hint = ctx.hint(wallet_puzzle_hash()).unwrap();
    let create = Conditions::new().create_coin(wallet_puzzle_hash(), amount, hint);
    let (_, cats) =
        Cat::single_issuance(&mut ctx, genesis.coin_id(), None, amount, create).unwrap();
    let cat = cats[0];
    WalletCat {
        coin: plain(cat.coin),
        lineage_proof: cat.lineage_proof.map(|proof| LineageProof {
            parent_parent_coin_info: hash(proof.parent_parent_coin_info),
            parent_inner_puzzle_hash: hash(proof.parent_inner_puzzle_hash),
            parent_amount: proof.parent_amount,
        }),
        asset_id: hash(cat.info.asset_id),
        hidden_puzzle_hash: None,
        p2_puzzle_hash: hash(cat.info.p2_puzzle_hash),
    }
}

fn asset_of(cat: &WalletCat) -> AssetId {
    AssetId(hex::encode(cat.asset_id.0))
}

struct TestInputs {
    cats: Vec<WalletCat>,
}

impl SpendInputs for TestInputs {
    fn spendable_xch(&self, _: &IdentityRef) -> WalletResult<Vec<WalletCoin>> {
        Ok(vec![])
    }
    fn spendable_cat(&self, _: &IdentityRef, _: &AssetId) -> WalletResult<Vec<WalletCat>> {
        Ok(self.cats.clone())
    }
    fn synthetic_key(&self, puzzle_hash: &Bytes32) -> Option<PublicKey> {
        (*puzzle_hash == hash(wallet_puzzle_hash())).then_some(PublicKey(G1_GENERATOR))
    }
    fn change_puzzle_hash(&self, _: &IdentityRef) -> WalletResult<Bytes32> {
        Ok(hash(wallet_puzzle_hash()))
    }
}

fn builder(cats: Vec<WalletCat>) -> SdkSpendBuilder<TestInputs> {
    SdkSpendBuilder::new(TestInputs { cats }, Network::Mainnet, 500)
}

fn tip_request(asset: AssetId, amount: u64) -> TipRequest {
    TipRequest {
        identity: IdentityRef::new(WalletId(1)),
        asset_id: asset,
        recipient: Puzzlehash(hex::encode([0x77u8; 32])),
        amount: Amount(amount),
    }
}

fn auto_request(policy: AutoTipPolicy, primary: u64, ledger: TipLedger) -> AutoTipRequest {
    AutoTipRequest {
        identity: IdentityRef::new(WalletId(1)),
        policy,
        primary_send_amount: Amount(primary),
        ledger,
    }
}

fn policy(asset: AssetId) -> AutoTipPolicy {
    AutoTipPolicy {
        enabled: true,
        mode: TipMode::Auto,
        asset_id: asset,
        recipient: Puzzlehash(hex::encode([0x77u8; 32])),
        tip_amount: Amount(1_000),
        threshold: Amount(0),
        max_tips_per_day: 3,
        max_amount_per_day: Amount(5_000),
    }
}

#[test]
fn builds_an_unsigned_tip_with_change_and_required_signatures() {
    let cat = issued_cat(10_000, 1);
    let asset = asset_of(&cat);
    let unsigned = builder(vec![cat]).build_tip(tip_request(asset.clone(), 1_000)).unwrap();
    assert!(!unsigned.coin_spends.is_empty());
    assert!(!unsigned.required_signatures.is_empty());
    assert_eq!(unsigned.summary.fee, Amount(0));
    assert_eq!(unsigned.summary.outputs[0].amount, Amount(1_000));
    assert_eq!(unsigned.summary.outputs[0].asset_id, Some(asset));
}

#[test]
fn tip_is_deterministic() {
    let asset = asset_of(&issued_cat(10_000, 1));
    let a = builder(vec![issued_cat(10_000, 1)])
        .build_tip(tip_request(asset.clone(), 1_000))
        .unwrap();
    let b = builder(vec![issued_cat(10_000, 1)]).build_tip(tip_request(asset, 1_000)).unwrap();
    assert_eq!(a, b, "identical inputs must yield an identical tip");
}

#[test]
fn tip_binds_the_dig_constants_mainnet_agg_sig_me() {
    let cat = issued_cat(10_000, 1);
    let asset = asset_of(&cat);
    let unsigned = builder(vec![cat]).build_tip(tip_request(asset, 1_000)).unwrap();
    assert!(!unsigned.required_signatures.is_empty());
    for req in &unsigned.required_signatures {
        assert!(req.message.ends_with(&dig_constants::CHIA_L1_MAINNET_AGG_SIG_ME));
    }
}

#[test]
fn zero_amount_tip_is_rejected() {
    let cat = issued_cat(10_000, 1);
    let asset = asset_of(&cat);
    let err = builder(vec![cat]).build_tip(tip_request(asset, 0)).unwrap_err();
    assert_eq!(err.code, WalletErrorCode::InvalidInput);
}

#[test]
fn tip_without_enough_cat_is_insufficient_funds() {
    let cat = issued_cat(100, 1);
    let asset = asset_of(&cat);
    let err = builder(vec![cat]).build_tip(tip_request(asset, 1_000)).unwrap_err();
    assert_eq!(err.code, WalletErrorCode::InsufficientFunds);
    assert_eq!(err.message, "insufficient CAT to tip: need 1000, have 100");
}

#[test]
fn tip_with_no_key_controlled_cat_is_insufficient_funds() {
    let err = builder(vec![foreign_cat(10_000)])
        .build_tip(tip_request(AssetId(hex::encode(ASSET)), 1_000))
        .unwrap_err();
    assert_eq!(err.code, WalletErrorCode::InsufficientFunds);
}

#[test]
fn bad_recipient_puzzle_hash_is_rejected() {
    let cat = issued_cat(10_000, 1);
    let asset = asset_of(&cat);
    let req =
        TipRequest { recipient: Puzzlehash("not-hex".into()), ..tip_request(asset, 1_000) };
    let err = builder(vec![cat]).build_tip(req).unwrap_err();
    assert_eq!(err.code, WalletErrorCode::InvalidInput);
}

#[test]
fn auto_tip_builds_a_spend_when_within_caps() {
    let cat = issued_cat(10_000, 1);
    let asset = asset_of(&cat);
    let outcome = builder(vec![cat])
        .build_auto_tip(auto_request(policy(asset), 100_000, TipLedger::default()))
        .unwrap();
    assert_eq!(outcome.decision, TipDecision::Tip { amount: Amount(1_000) });
    let spend = outcome.unsigned.expect("a Tip decision must build a spend");
    assert_eq!(spend.summary.outputs[0].amount, Amount(1_000));
}

#[test]
fn auto_tip_builds_nothing_when_disabled() {
    let cat = issued_cat(10_000, 1);
    let disabled = AutoTipPolicy { enabled: false, ..policy(asset_of(&cat)) };
    let outcome = builder(vec![cat])
        .build_auto_tip(auto_request(disabled, 100_000, TipLedger::default()))
        .unwrap();
    assert_eq!(outcome.decision, TipDecision::SkipDisabled);
    assert!(outcome.unsigned.is_none(), "a disabled auto-tip must build nothing");
}

#[test]
fn auto_tip_builds_nothing_when_the_amount_cap_is_reached() {
    let cat = issued_cat(10_000, 1);
    let asset = asset_of(&cat);
    let ledger = TipLedger { tips_today: 0, amount_today: Amount(4_500) };
    let outcome =
        builder(vec![cat]).build_auto_tip(auto_request(policy(asset), 100_000, ledger)).unwrap();
    assert_eq!(outcome.decision, TipDecision::SkipCapReached { reason: CapReason::Amount });
    assert!(outcome.unsigned.is_none(), "a capped tip must build nothing");
}

#[test]
fn auto_tip_frequency_cap_blocks_at_the_limit() {
    let cat = issued_cat(10_000, 1);
    let asset = asset_of(&cat);
    let ledger = TipLedger { tips_today: 3, amount_today: Amount(0) };
    let outcome =
        builder(vec![cat]).build_auto_tip(auto_request(policy(asset), 100_000, ledger)).unwrap();
    assert_eq!(outcome.decision, TipDecision::SkipCapReached { reason: CapReason::Frequency });
    assert!(outcome.unsigned.is_none());
}

#[test]
fn a_manual_policy_and_a_small_send_tip_nothing() {
    let cat = issued_cat(10_000, 1);
    let asset = asset_of(&cat);
    let manual = AutoTipPolicy { mode: TipMode::Manual, ..policy(asset.clone()) };
    let outcome = builder(vec![cat])
        .build_auto_tip(auto_request(manual, 100_000, TipLedger::default()))
        .unwrap();
    assert_eq!(outcome.decision, TipDecision::SkipManualNotApproved);
    let choosy = AutoTipPolicy { threshold: Amount(500), ..policy(asset) };
    let outcome = builder(vec![cat])
        .build_auto_tip(auto_request(choosy, 499, TipLedger::default()))
        .unwrap();
    assert_eq!(outcome.decision, TipDecision::SkipBelowThreshold);
    assert!(outcome.unsigned.is_none());
}

#[test]
fn a_tip_takes_too_many_coins() {
    let own = hash(wallet_puzzle_hash());
    let cats: Vec<WalletCat> = (0..60u8)
        .map(|i| {
            let mut cat = fabricated_cat(own, 1);
            cat.coin.parent_coin_info = Bytes32::new([i; 32]);
            cat
        })
        .collect();
    let err = builder(cats).build_tip(tip_request(AssetId(hex::encode(ASSET)), 55)).unwrap_err();
    assert_eq!(err.code, WalletErrorCode::InsufficientFunds);
    assert_eq!(
        err.message,
        "tip needs 55 CAT inputs, over the 50-coin cap; consolidate first"
    );
}

#[test]
fn a_tip_is_drawn_from_the_key_controlled_coins_alone() {
    let own = issued_cat(2_000, 1);
    let mut foreign = foreign_cat(10_000);
    foreign.asset_id = own.asset_id;
    let unsigned = builder(vec![foreign, own])
        .build_tip(tip_request(asset_of(&own), 1_500))
        .unwrap();
    assert_eq!(unsigned.coin_spends.len(), 1);
    assert_eq!(unsigned.coin_spends[0].coin, own.coin);
}

#[test]
fn a_skip_needs_no_coins() {
    let asset = AssetId("ab".repeat(32));
    let disabled = AutoTipPolicy { enabled: false, ..policy(asset.clone()) };
    let outcome = builder(vec![])
        .build_auto_tip(auto_request(disabled, 100_000, TipLedger::default()))
        .unwrap();
    assert_eq!(outcome.decision, TipDecision::SkipDisabled);
    assert!(outcome.unsigned.is_none());
    let capped = TipLedger { tips_today: 3, amount_today: Amount(0) };
    let outcome = builder(vec![])
        .build_auto_tip(auto_request(policy(asset.clone()), 100_000, capped))
        .unwrap();
    assert_eq!(outcome.decision, TipDecision::SkipCapReached { reason: CapReason::Frequency });
    let due = builder(vec![])
        .build_auto_tip(auto_request(policy(asset), 100_000, TipLedger::default()))
        .unwrap_err();
    assert_eq!(due.code, WalletErrorCode::InsufficientFunds);
}
