//! Multi-sends, combines and splits.

use chia_bls::PublicKey as BlsKey;
use chia_protocol::{Bytes32 as ChainHash, Coin, Program};
use chia_puzzle_types::standard::StandardArgs;
use chia_wallet_sdk::driver::{Cat, SpendContext};
use chia_wallet_sdk::types::{Condition, Conditions};
use chia_wallet_sdk::utils::Address as Bech32Address;
use clvm_traits::{FromClvm, ToClvm};
use clvmr::Allocator;
use dig_wallet_backend::engine::builder::{SdkSpendBuilder, SpendInputs};
use dig_wallet_backend::types::{
    Address, Amount, AssetId, Bytes32, CombineXchRequest, IdentityRef, LineageProof,
    MultiSendCatRequest, MultiSendXchRequest, Network, PublicKey, SendLeg, SplitXchRequest,
    UnsignedSpend, WalletCat, WalletCoin, WalletErrorCode, WalletId, WalletResult,
};

const G1_GENERATOR: [u8; 48] = [
    0x97, 0xf1, 0xd3, 0xa7, 0x31, 0x97, 0xd7, 0x94, 0x26, 0x95, 0x63, 0x8c, 0x4f, 0xa9, 0xac, 0x0f,
    0xc3, 0x68, 0x8c, 0x4f, 0x97, 0x74, 0xb9, 0x05, 0xa1, 0x4e, 0x3a, 0x3f, 0x17, 0x1b, 0xac, 0x58,
    0x6c, 0x55, 0xe8, 0x3f, 0xf9, 0x7a, 0x1a, 0xef, 0xfb, 0x3a, 0xf0, 0x0a, 0xdb, 0x22, 0xc6, 0xbb,
];

fn wallet_puzzle_hash() -> ChainHash {
    let key = BlsKey::from_bytes(&G1_GENERATOR).expect("valid G1 generator");
    ChainHash::from(StandardArgs::curry_tree_hash(key).to_bytes())
}

fn hash(value: ChainHash) -> Bytes32 {
    Bytes32::new(value.to_bytes())
}

fn plain(coin: Coin) -> WalletCoin {
    WalletCoin::new(hash(coin.parent_coin_info), hash(coin.puzzle_hash), coin.amount)
}

fn plain_cat(cat: Cat) -> WalletCat {
    WalletCat {
        coin: plain(cat.coin),
        lineage_proof: cat.lineage_proof.map(|proof| LineageProof {
            parent_parent_coin_info: hash(proof.parent_parent_coin_info),
            parent_inner_puzzle_hash: hash(proof.parent_inner_puzzle_hash),
            parent_amount: proof.parent_amount,
        }),
        asset_id: hash(cat.info.asset_id),
        hidden_puzzle_hash: cat.info.hidden_puzzle_hash.map(hash),
        p2_puzzle_hash: hash(cat.info.p2_puzzle_hash),
    }
}

fn wallet_coin(amount: u64, seed: u8) -> Coin {
    Coin::new(ChainHash::new([seed; 32]), wallet_puzzle_hash(), amount)
}

fn issued_cat(amount: u64) -> Cat {
    let mut ctx = SpendContext::new();
    let genesis = wallet_coin(amount, 42);
    let hint = ctx.hint(wallet_puzzle_hash()).unwrap();
    let create = Conditions::new().create_coin(wallet_puzzle_hash(), amount, hint);
    let (_, cats) =
        Cat::single_issuance(&mut ctx, genesis.coin_id(), None, amount, create).unwrap();
    cats[0]
}

struct TestInputs {
    xch: Vec<WalletCoin>,
    cats: Vec<WalletCat>,
}

impl SpendInputs for TestInputs {
    fn spendable_xch(&self, _: &IdentityRef) -> WalletResult<Vec<WalletCoin>> {
        Ok(self.xch.clone())
    }
    fn spendable_cat(&self, _: &IdentityRef, _: &AssetId) -> WalletResult<Vec<WalletCat>> {
        Ok(self.cats.clone())
    }
    fn synthetic_key(&self, puzzle_hash: &Bytes32) -> Option<PublicKey> {
        (*puzzle_hash == hash(wallet_puzzle_hash())).then_some(PublicKey(G1_GENERATOR))
    }
    fn change_puzzle_hash(&self, _: &IdentityRef) -> WalletResult<Bytes32> {
        Ok(hash(wallet_puzzle_hash()))
    }
}

fn builder(xch: Vec<Coin>) -> SdkSpendBuilder<TestInputs> {
    builder_with_cats(xch, vec![])
}

fn builder_with_cats(xch: Vec<Coin>, cats: Vec<Cat>) -> SdkSpendBuilder<TestInputs> {
    let inputs = TestInputs {
        xch: xch.into_iter().map(plain).collect(),
        cats: cats.into_iter().map(plain_cat).collect(),
    };
    SdkSpendBuilder::new(inputs, Network::Mainnet, 500)
}

fn identity() -> IdentityRef {
    IdentityRef::new(WalletId(1))
}

fn destination(seed: u8) -> Address {
    let ph = ChainHash::new([seed; 32]);
    Address(Bech32Address::new(ph, "xch".into()).encode().unwrap())
}

fn leg(seed: u8, amount: u64) -> SendLeg {
    SendLeg { to: destination(seed), amount: Amount(amount) }
}

fn multi(legs: Vec<SendLeg>, fee: u64) -> MultiSendXchRequest {
    MultiSendXchRequest { identity: identity(), legs, fee: Amount(fee) }
}

fn multi_cat(legs: Vec<SendLeg>) -> MultiSendCatRequest {
    MultiSendCatRequest {
        identity: identity(),
        asset_id: AssetId("tail".into()),
        legs,
        fee: Amount(0),
    }
}

fn combine(fee: u64) -> CombineXchRequest {
    CombineXchRequest { identity: identity(), fee: Amount(fee) }
}

fn split(parts: u32, fee: u64) -> SplitXchRequest {
    SplitXchRequest { identity: identity(), parts, fee: Amount(fee) }
}

/// The coins that a spend creates, read back off the coin spends.
fn created_coins(spend: &UnsignedSpend) -> Vec<(ChainHash, u64)> {
    let mut allocator = Allocator::new();
    let mut created = Vec::new();
    for coin_spend in &spend.coin_spends {
        let puzzle = Program::from(coin_spend.puzzle_reveal.clone());
        let puzzle = puzzle.to_clvm(&mut allocator).unwrap();
        let solution = Program::from(coin_spend.solution.clone());
        let solution = solution.to_clvm(&mut allocator).unwrap();
        let dialect = clvmr::ChiaDialect::new(0);
        let output =
            clvmr::run_program(&mut allocator, &dialect, puzzle, solution, u64::MAX).unwrap().1;
        let conditions = Vec::<Condition>::from_clvm(&allocator, output).unwrap();
        for condition in conditions {
            if let Some(create) = condition.into_create_coin() {
                created.push((create.puzzle_hash, create.amount));
            }
        }
    }
    created
}

#[test]
fn a_multi_send_pays_every_leg_its_own_amount() {
    let spend = builder(vec![wallet_coin(1_000, 1)])
        .build_multi_send_xch(multi(vec![leg(7, 100), leg(8, 250), leg(9, 30)], 5))
        .unwrap();
    let created = created_coins(&spend);
    for (seed, amount) in [(7u8, 100u64), (8, 250), (9, 30)] {
        assert!(
            created.contains(&(ChainHash::new([seed; 32]), amount)),
            "leg {seed} was not paid {amount}: {created:?}"
        );
    }
}

#[test]
fn a_multi_send_conserves_value_across_legs_change_and_fee() {
    let spend = builder(vec![wallet_coin(1_000, 1)])
        .build_multi_send_xch(multi(vec![leg(7, 100), leg(8, 250), leg(9, 30)], 5))
        .unwrap();
    let paid: u64 = created_coins(&spend).iter().map(|(_, a)| a).sum();
    assert_eq!(paid, 995);
}

#[test]
fn a_multi_send_summary_lists_one_output_per_leg() {
    let spend = builder(vec![wallet_coin(1_000, 1)])
        .build_multi_send_xch(multi(vec![leg(7, 100), leg(8, 250)], 5))
        .unwrap();
    let listed: Vec<_> =
        spend.summary.outputs.iter().map(|o| (o.address.clone(), o.amount)).collect();
    assert_eq!(listed, vec![(destination(7), Amount(100)), (destination(8), Amount(250))]);
    assert_eq!(spend.summary.fee, Amount(5));
}

#[test]
fn a_multi_send_requires_signatures() {
    let spend = builder(vec![wallet_coin(1_000, 1)])
        .build_multi_send_xch(multi(vec![leg(7, 100)], 0))
        .unwrap();
    assert!(!spend.required_signatures.is_empty());
}

#[test]
fn a_multi_send_with_no_legs_is_rejected() {
    let err = builder(vec![wallet_coin(1_000, 1)])
        .build_multi_send_xch(multi(vec![], 0))
        .unwrap_err();
    assert_eq!(err.code, WalletErrorCode::InvalidInput);
}

#[test]
fn a_zero_amount_leg_is_rejected_rather_than_dropped() {
    let err = builder(vec![wallet_coin(1_000, 1)])
        .build_multi_send_xch(multi(vec![leg(7, 100), leg(8, 0)], 0))
        .unwrap_err();
    assert_eq!(err.code, WalletErrorCode::InvalidInput);
}

#[test]
fn a_multi_send_beyond_the_balance_is_insufficient_funds() {
    let err = builder(vec![wallet_coin(100, 1)])
        .build_multi_send_xch(multi(vec![leg(7, 90), leg(8, 90)], 0))
        .unwrap_err();
    assert_eq!(err.code, WalletErrorCode::InsufficientFunds);
}

#[test]
fn a_multi_send_with_a_malformed_address_is_rejected() {
    let legs = vec![SendLeg { to: Address("not-an-address".into()), amount: Amount(10) }];
    let err =
        builder(vec![wallet_coin(1_000, 1)]).build_multi_send_xch(multi(legs, 0)).unwrap_err();
    assert_eq!(err.code, WalletErrorCode::InvalidInput);
}

#[test]
fn a_cat_multi_send_pays_every_leg() {
    let cat = issued_cat(1_000);
    let spend = builder_with_cats(vec![wallet_coin(500, 1)], vec![cat])
        .build_multi_send_cat(multi_cat(vec![leg(7, 100), leg(8, 250)]))
        .unwrap();
    let created = created_coins(&spend);
    for (seed, amount) in [(7u8, 100u64), (8, 250)] {
        assert!(
            created.iter().any(|(_, a)| *a == amount),
            "leg {seed} amount {amount} missing from {created:?}"
        );
    }
    assert!(spend.summary.outputs.iter().all(|o| o.asset_id == Some(AssetId("tail".into()))));
    assert_eq!(spend.summary.outputs.len(), 2);
    assert!(!spend.required_signatures.is_empty());
}

#[test]
fn a_cat_multi_send_beyond_the_balance_is_insufficient_funds() {
    let cat = issued_cat(100);
    let err = builder_with_cats(vec![wallet_coin(500, 1)], vec![cat])
        .build_multi_send_cat(multi_cat(vec![leg(7, 90), leg(8, 90)]))
        .unwrap_err();
    assert_eq!(err.code, WalletErrorCode::InsufficientFunds);
}

#[test]
fn a_combine_merges_every_coin_into_one() {
    let spend = builder(vec![wallet_coin(100, 1), wallet_coin(250, 2), wallet_coin(30, 3)])
        .build_combine_xch(combine(5))
        .unwrap();
    assert_eq!(created_coins(&spend), vec![(wallet_puzzle_hash(), 375)]);
    assert_eq!(spend.coin_spends.len(), 3);
}

#[test]
fn a_combine_summary_lists_no_payment() {
    let spend = builder(vec![wallet_coin(100, 1), wallet_coin(250, 2)])
        .build_combine_xch(combine(5))
        .unwrap();
    assert!(spend.summary.outputs.is_empty());
    assert!(spend.summary.received.is_empty());
    assert_eq!(spend.summary.fee, Amount(5));
}

#[test]
fn a_combine_of_a_single_coin_is_rejected() {
    let err = builder(vec![wallet_coin(100, 1)]).build_combine_xch(combine(0)).unwrap_err();
    assert_eq!(err.code, WalletErrorCode::InvalidInput);
}

#[test]
fn a_combine_that_cannot_cover_its_fee_is_insufficient_funds() {
    let err = builder(vec![wallet_coin(3, 1), wallet_coin(2, 2)])
        .build_combine_xch(combine(5))
        .unwrap_err();
    assert_eq!(err.code, WalletErrorCode::InsufficientFunds);
}

#[test]
fn a_split_produces_exactly_the_requested_number_of_coins() {
    let spend = builder(vec![wallet_coin(1_000, 1)]).build_split_xch(split(4, 0)).unwrap();
    assert_eq!(created_coins(&spend), vec![(wallet_puzzle_hash(), 250); 4]);
}

#[test]
fn a_split_with_a_remainder_keeps_every_mojo() {
    let spend = builder(vec![wallet_coin(1_003, 1)]).build_split_xch(split(4, 0)).unwrap();
    let amounts: Vec<u64> = created_coins(&spend).iter().map(|(_, a)| *a).collect();
    assert_eq!(amounts, vec![253, 250, 250, 250]);
    assert_eq!(amounts.iter().sum::<u64>(), 1_003);
}

#[test]
fn a_split_pays_its_fee_out_of_the_split_value() {
    let spend = builder(vec![wallet_coin(1_000, 1)]).build_split_xch(split(2, 10)).unwrap();
    let total: u64 = created_coins(&spend).iter().map(|(_, a)| a).sum();
    assert_eq!(total, 990);
    assert_eq!(spend.summary.fee, Amount(10));
}

#[test]
fn a_split_into_fewer_than_two_parts_is_rejected() {
    for parts in [0u32, 1] {
        let err =
            builder(vec![wallet_coin(1_000, 1)]).build_split_xch(split(parts, 0)).unwrap_err();
        assert_eq!(err.code, WalletErrorCode::InvalidInput);
    }
}

#[test]
fn a_split_too_small_to_give_each_part_a_mojo_is_insufficient_funds() {
    let err = builder(vec![wallet_coin(3, 1)]).build_split_xch(split(4, 0)).unwrap_err();
    assert_eq!(err.code, WalletErrorCode::InsufficientFunds);
}

#[test]
fn a_split_with_no_coins_is_insufficient_funds() {
    let err = builder(vec![]).build_split_xch(split(2, 0)).unwrap_err();
    assert_eq!(err.code, WalletErrorCode::InsufficientFunds);
}

#[test]
fn refused_legs_are_refused_whatever_the_wallet_holds() {
    let rich = || vec![wallet_coin(u64::MAX, 1), wallet_coin(u64::MAX, 2)];
    let none = builder(rich()).build_multi_send_xch(multi(vec![], 0)).unwrap_err();
    assert_eq!(none.code, WalletErrorCode::InvalidInput);
    let zero = builder(rich()).build_multi_send_xch(multi(vec![leg(7, 0)], 0)).unwrap_err();
    assert_eq!(zero.code, WalletErrorCode::InvalidInput);
    let much = builder(rich())
        .build_multi_send_xch(multi(vec![leg(7, u64::MAX), leg(8, 1)], 0))
        .unwrap_err();
    assert_eq!(much.message, "multi-send total overflows");
}
