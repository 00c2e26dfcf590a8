//! Single-destination sends.

use chia_bls::PublicKey as BlsKey;
use chia_protocol::{Bytes32 as ChainHash, Coin};
use chia_puzzle_types::standard::StandardArgs;
use chia_wallet_sdk::driver::{Cat, SpendContext};
use chia_wallet_sdk::types::Conditions;
use chia_wallet_sdk::utils::Address as Bech32Address;
use dig_wallet_backend::engine::builder::{assert_conserved, SdkSpendBuilder, SpendInputs};
use dig_wallet_backend::types::{
    Address, Amount, AssetId, Bytes32, IdentityRef, LineageProof, Network, PublicKey,
    SendCatRequest, SendXchRequest, WalletCat, WalletCoin, WalletErrorCode, WalletId, WalletResult,
};

const G1_GENERATOR: [u8; 48] = [
    0x97, 0xf1, 0xd3, 0xa7, 0x31, 0x97, 0xd7, 0x94, 0x26, 0x95, 0x63, 0x8c, 0x4f, 0xa9, 0xac, 0x0f,
    0xc3, 0x68, 0x8c, 0x4f, 0x97, 0x74, 0xb9, 0x05, 0xa1, 0x4e, 0x3a, 0x3f, 0x17, 0x1b, 0xac, 0x58,
    0x6c, 0x55, 0xe8, 0x3f, 0xf9, 0x7a, 0x1a, 0xef, 0xfb, 0x3a, 0xf0, 0x0a, 0xdb, 0x22, 0xc6, 0xbb,
];

fn wallet_puzzle_hash() -> ChainHash {
    let key = BlsKey::from_bytes(&G1_GENERATOR).expect("valid G1 generator");
    ChainHash::from(StandardArgs::curry_tree_hash(key).to_bytes())
}

fn hash(value: ChainHash) -> Bytes32 {
    Bytes32::new(value.to_bytes())
}

fn plain(coin: Coin) -> WalletCoin {
    WalletCoin::new(hash(coin.parent_coin_info), hash(coin.puzzle_hash), coin.amount)
}

fn plain_cat(cat: Cat) -> WalletCat {
    WalletCat {
        coin: plain(cat.coin),
        lineage_proof: cat.lineage_proof.map(|proof| LineageProof {
            parent_parent_coin_info: hash(proof.parent_parent_coin_info),
            parent_inner_puzzle_hash: hash(proof.parent_inner_puzzle_hash),
            parent_amount: proof.parent_amount,
        }),
        asset_id: hash(cat.info.asset_id),
        hidden_puzzle_hash: cat.info.hidden_puzzle_hash.map(hash),
        p2_puzzle_hash: hash(cat.info.p2_puzzle_hash),
    }
}

fn wallet_coin(amount: u64, seed: u8) -> Coin {
    Coin::new(ChainHash::new([seed; 32]), wallet_puzzle_hash(), amount)
}

fn issued_cat(amount: u64) -> Cat {
    let mut ctx = SpendContext::new();
    let genesis = wallet_coin(amount, 42);
    let hint = ctx.hint(wallet_puzzle_hash()).unwrap();
    let create = Conditions::new().create_coin(wallet_puzzle_hash(), amount, hint);
    let (_, cats) =
        Cat::single_issuance(&mut ctx, genesis.coin_id(), None, amount, create).unwrap();
    cats[0]
}

struct TestInputs {
    xch: Vec<WalletCoin>,
    cats: Vec<WalletCat>,
}

impl SpendInputs for TestInputs {
    fn spendable_xch(&self, _: &IdentityRef) -> WalletResult<Vec<WalletCoin>> {
        Ok(self.xch.clone())
    }
    fn spendable_cat(&self, _: &IdentityRef, _: &AssetId) -> WalletResult<Vec<WalletCat>> {
        Ok(self.cats.clone())
    }
    fn synthetic_key(&self, puzzle_hash: &Bytes32) -> Option<PublicKey> {
        (*puzzle_hash == hash(wallet_puzzle_hash())).then_some(PublicKey(G1_GENERATOR))
    }
    fn change_puzzle_hash(&self, _: &IdentityRef) -> WalletResult<Bytes32> {
        Ok(hash(wallet_puzzle_hash()))
    }
}

fn builder(xch: Vec<Coin>) -> SdkSpendBuilder<TestInputs> {
    builder_with_cats(xch, vec![])
}

fn builder_with_cats(xch: Vec<Coin>, cats: Vec<Cat>) -> SdkSpendBuilder<TestInputs> {
    let inputs = TestInputs {
        xch: xch.into_iter().map(plain).collect(),
        cats: cats.into_iter().map(plain_cat).collect(),
    };
    SdkSpendBuilder::new(inputs, Network::Mainnet, 500)
}

fn recipient() -> Address {
    let ph = ChainHash::new([7u8; 32]);
    Address(Bech32Address::new(ph, "xch".into()).encode().unwrap())
}

fn cat_request(asset: &str, amount: u64, fee: u64) -> SendCatRequest {
    SendCatRequest {
        identity: IdentityRef::new(WalletId(1)),
        asset_id: AssetId(asset.into()),
        to: recipient(),
        amount: Amount(amount),
        fee: Amount(fee),
    }
}

fn xch_request(amount: u64, fee: u64) -> SendXchRequest {
    SendXchRequest {
        identity: IdentityRef::new(WalletId(1)),
        to: recipient(),
        amount: Amount(amount),
        fee: Amount(fee),
    }
}

#[test]
fn builds_an_unsigned_xch_send_with_change_and_required_signatures() {
    let b = builder(vec![wallet_coin(1000, 1)]);
    let unsigned = b.build_send_xch(xch_request(600, 10)).unwrap();
    assert_eq!(unsigned.coin_spends.len(), 1);
    assert!(!unsigned.required_signatures.is_empty());
    assert_eq!(unsigned.summary.fee, Amount(10));
    assert_eq!(unsigned.summary.outputs[0].amount, Amount(600));
    assert!(unsigned.summary.outputs[0].asset_id.is_none());
}

#[test]
fn unsigned_spend_carries_no_signature() {
    let b = builder(vec![wallet_coin(1000, 1)]);
    let unsigned = b.build_send_xch(xch_request(500, 0)).unwrap();
    for req in &unsigned.required_signatures {
        assert!(!req.message.is_empty(), "a signature is still required, not produced");
    }
}

#[test]
fn build_is_deterministic() {
    let coins = vec![wallet_coin(1000, 1), wallet_coin(500, 2)];
    let a = builder(coins.clone()).build_send_xch(xch_request(1200, 5)).unwrap();
    let b = builder(coins).build_send_xch(xch_request(1200, 5)).unwrap();
    assert_eq!(a, b, "identical inputs must yield an identical unsigned spend");
}

#[test]
fn multiple_inputs_produce_one_spend_each() {
    let b = builder(vec![wallet_coin(700, 1), wallet_coin(600, 2)]);
    let unsigned = b.build_send_xch(xch_request(1000, 0)).unwrap();
    assert_eq!(unsigned.coin_spends.len(), 2);
}

#[test]
fn insufficient_funds_is_reported() {
    let b = builder(vec![wallet_coin(100, 1)]);
    let err = b.build_send_xch(xch_request(500, 0)).unwrap_err();
    assert_eq!(err.code, WalletErrorCode::InsufficientFunds);
    assert_eq!(err.message, "insufficient XCH: have 100, need 500");
}

#[test]
fn needs_consolidation_surfaces_as_insufficient_funds() {
    let coins: Vec<WalletCoin> = (0..51).map(|i| plain(wallet_coin(1, i as u8))).collect();
    let b = SdkSpendBuilder::new(TestInputs { xch: coins, cats: vec![] }, Network::Mainnet, 50);
    let err = b.build_send_xch(xch_request(51, 0)).unwrap_err();
    assert_eq!(err.code, WalletErrorCode::InsufficientFunds);
    assert!(err.message.contains("consolidation"));
}

#[test]
fn zero_amount_is_rejected() {
    let b = builder(vec![wallet_coin(1000, 1)]);
    let err = b.build_send_xch(xch_request(0, 0)).unwrap_err();
    assert_eq!(err.code, WalletErrorCode::InvalidInput);
}

#[test]
fn amount_plus_fee_overflow_is_rejected() {
    let b = builder(vec![wallet_coin(1000, 1)]);
    let err = b.build_send_xch(xch_request(u64::MAX, 1)).unwrap_err();
    assert_eq!(err.code, WalletErrorCode::InvalidInput);
}

#[test]
fn bad_address_is_rejected() {
    let b = builder(vec![wallet_coin(1000, 1)]);
    let req = SendXchRequest {
        identity: IdentityRef::new(WalletId(1)),
        to: Address("not-a-real-address".into()),
        amount: Amount(500),
        fee: Amount(0),
    };
    let err = b.build_send_xch(req).unwrap_err();
    assert_eq!(err.code, WalletErrorCode::InvalidInput);
    assert!(err.message.starts_with("bad address not-a-real-address: "));
}

#[test]
fn a_coin_the_wallet_cannot_authorize_fails_closed() {
    let foreign = Coin::new(ChainHash::new([1u8; 32]), ChainHash::new([9u8; 32]), 1000);
    let b = builder(vec![foreign]);
    let err = b.build_send_xch(xch_request(500, 0)).unwrap_err();
    assert_eq!(err.code, WalletErrorCode::SpendValidationFailed);
}

#[test]
fn cat_send_with_no_coins_is_insufficient() {
    let b = builder(vec![]);
    let err = b.build_send_cat(cat_request("tail", 5, 0)).unwrap_err();
    assert_eq!(err.code, WalletErrorCode::InsufficientFunds);
}

#[test]
fn cat_send_zero_amount_is_rejected() {
    let b = builder(vec![]);
    let err = b.build_send_cat(cat_request("tail", 0, 0)).unwrap_err();
    assert_eq!(err.code, WalletErrorCode::InvalidInput);
}

#[test]
fn builds_an_unsigned_cat_send_with_change() {
    let b = builder_with_cats(vec![], vec![issued_cat(1000)]);
    let unsigned = b.build_send_cat(cat_request("tail", 600, 0)).unwrap();
    assert!(!unsigned.coin_spends.is_empty());
    assert!(!unsigned.required_signatures.is_empty());
    assert_eq!(unsigned.summary.outputs[0].amount, Amount(600));
    assert!(unsigned.summary.outputs[0].asset_id.is_some());
}

#[test]
fn cat_send_with_a_fee_spends_xch_too() {
    let b = builder_with_cats(vec![wallet_coin(1000, 1)], vec![issued_cat(1000)]);
    let unsigned = b.build_send_cat(cat_request("tail", 500, 50)).unwrap();
    assert!(unsigned.coin_spends.len() >= 2);
    assert_eq!(unsigned.summary.fee, Amount(50));
}

#[test]
fn cat_send_is_deterministic() {
    let cat = issued_cat(1000);
    let a = builder_with_cats(vec![], vec![cat])
        .build_send_cat(cat_request("tail", 400, 0))
        .unwrap();
    let b = builder_with_cats(vec![], vec![cat])
        .build_send_cat(cat_request("tail", 400, 0))
        .unwrap();
    assert_eq!(a, b);
}

#[test]
fn cat_fee_without_xch_is_insufficient() {
    let b = builder_with_cats(vec![], vec![issued_cat(1000)]);
    let err = b.build_send_cat(cat_request("tail", 500, 50)).unwrap_err();
    assert_eq!(err.code, WalletErrorCode::InsufficientFunds);
}

#[test]
fn conservation_rejects_a_mismatch() {
    assert!(assert_conserved(100, 90, 5).is_err());
    assert!(assert_conserved(100, 90, 10).is_ok());
}

#[test]
fn engine_binds_the_dig_constants_mainnet_agg_sig_me() {
    let unsigned =
        builder(vec![wallet_coin(1000, 1)]).build_send_xch(xch_request(600, 10)).unwrap();
    assert!(!unsigned.required_signatures.is_empty());
    for req in &unsigned.required_signatures {
        assert!(req.message.ends_with(&dig_constants::CHIA_L1_MAINNET_AGG_SIG_ME));
    }
}

#[test]
fn engine_agg_sig_me_matches_dig_constants_per_network() {
    let none = || TestInputs { xch: vec![], cats: vec![] };
    let mainnet = SdkSpendBuilder::new(none(), Network::Mainnet, 500);
    let testnet = SdkSpendBuilder::new(none(), Network::Testnet, 500);
    let simulator = SdkSpendBuilder::new(none(), Network::Simulator, 500);
    assert_eq!(mainnet.agg_sig_me().0.to_vec(), dig_constants::CHIA_L1_MAINNET_AGG_SIG_ME.to_vec());
    assert_eq!(testnet.agg_sig_me().0.to_vec(), dig_constants::CHIA_L1_TESTNET11_AGG_SIG_ME.to_vec());
    assert_eq!(simulator.agg_sig_me().0.to_vec(), testnet.agg_sig_me().0.to_vec());
}

#[test]
fn every_input_coin_is_spent_once_in_order() {
    let coins = vec![wallet_coin(700, 1), wallet_coin(600, 2)];
    let unsigned = builder(coins.clone()).build_send_xch(xch_request(1000, 0)).unwrap();
    let spent: Vec<WalletCoin> = unsigned.coin_spends.iter().map(|s| s.coin).collect();
    assert_eq!(spent, vec![plain(coins[0]), plain(coins[1])]);
}

#[test]
fn coin_ids_are_those_of_the_chain() {
    let coin = wallet_coin(1234, 5);
    assert_eq!(plain(coin).coin_id(), hash(coin.coin_id()));
}
