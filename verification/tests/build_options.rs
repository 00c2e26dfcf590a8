//! Covered options.

use chia_bls::PublicKey as BlsKey;
use chia_protocol::{Bytes32 as ChainHash, Coin};
use chia_puzzle_types::standard::StandardArgs;
use dig_wallet_backend::engine::builder::{SdkSpendBuilder, SpendInputs};
use dig_wallet_backend::types::{
    Amount, AssetId, Bytes32, ExerciseOptionRequest, IdentityRef, MintOptionRequest, Network,
    OptionHandle, OptionOnChainState, OptionStrike, PublicKey, Puzzlehash, TransferOptionRequest,
    WalletCat, WalletCoin, WalletErrorCode, WalletId, WalletResult, WireCoin,
};

const G1_GENERATOR: [u8; 48] = [
    0x97, 0xf1, 0xd3, 0xa7, 0x31, 0x97, 0xd7, 0x94, 0x26, 0x95, 0x63, 0x8c, 0x4f, 0xa9, 0xac, 0x0f,
    0xc3, 0x68, 0x8c, 0x4f, 0x97, 0x74, 0xb9, 0x05, 0xa1, 0x4e, 0x3a, 0x3f, 0x17, 0x1b, 0xac, 0x58,
    0x6c, 0x55, 0xe8, 0x3f, 0xf9, 0x7a, 0x1a, 0xef, 0xfb, 0x3a, 0xf0, 0x0a, 0xdb, 0x22, 0xc6, 0xbb,
];

fn wallet_puzzle_hash() -> ChainHash {
    let key = BlsKey::from_bytes(&G1_GENERATOR).expect("valid G1 generator");
    ChainHash::from(StandardArgs::curry_tree_hash(key).to_bytes())
}

fn hash(value: ChainHash) -> Bytes32 {
    Bytes32::new(value.to_bytes())
}

fn plain(coin: Coin) -> WalletCoin {
    WalletCoin::new(hash(coin.parent_coin_info), hash(coin.puzzle_hash), coin.amount)
}

fn wallet_coin(amount: u64, seed: u8) -> Coin {
    Coin::new(ChainHash::new([seed; 32]), wallet_puzzle_hash(), amount)
}

struct TestInputs {
    xch: Vec<WalletCoin>,
}

impl SpendInputs for TestInputs {
    fn spendable_xch(&self, _: &IdentityRef) -> WalletResult<Vec<WalletCoin>> {
        Ok(self.xch.clone())
    }
    fn spendable_cat(&self, _: &IdentityRef, _: &AssetId) -> WalletResult<Vec<WalletCat>> {
        Ok(vec![])
    }
    fn synthetic_key(&self, puzzle_hash: &Bytes32) -> Option<PublicKey> {
        (*puzzle_hash == hash(wallet_puzzle_hash())).then_some(PublicKey(G1_GENERATOR))
    }
    fn change_puzzle_hash(&self, _: &IdentityRef) -> WalletResult<Bytes32> {
        Ok(hash(wallet_puzzle_hash()))
    }
}

fn builder(xch: Vec<Coin>) -> SdkSpendBuilder<TestInputs> {
    let xch = xch.into_iter().map(plain).collect();
    SdkSpendBuilder::new(TestInputs { xch }, Network::Mainnet, 500)
}

fn mint_request(underlying: u64, strike: u64, fee: u64) -> MintOptionRequest {
    MintOptionRequest {
        identity: IdentityRef::new(WalletId(1)),
        creator_puzzle_hash: None,
        owner_puzzle_hash: None,
        underlying_amount: Amount(underlying),
        strike: OptionStrike::Xch { amount: Amount(strike) },
        expiry_seconds: 1_800_000_000,
        fee: Amount(fee),
    }
}

fn sample_handle() -> OptionHandle {
    OptionHandle {
        launcher_id: hex::encode([1u8; 32]),
        creator_puzzle_hash: Puzzlehash(hex::encode([2u8; 32])),
        owner_puzzle_hash: Puzzlehash(hex::encode([3u8; 32])),
        underlying_amount: Amount(1000),
        strike: OptionStrike::Xch { amount: Amount(500) },
        expiry_seconds: 1_800_000_000,
        underlying_coin_id: hex::encode([4u8; 32]),
        funding_coin_id: hex::encode([5u8; 32]),
    }
}

fn sample_on_chain() -> OptionOnChainState {
    let coin = |amount| WireCoin {
        parent_coin_info: "aa".repeat(32),
        puzzle_hash: "bb".repeat(32),
        amount,
    };
    OptionOnChainState {
        option_parent_coin: coin(1),
        option_parent_puzzle_reveal: "ff01".into(),
        option_parent_solution: "80".into(),
        underlying_coin: coin(1_000),
    }
}

fn transfer_request(to: &str) -> TransferOptionRequest {
    TransferOptionRequest {
        identity: IdentityRef::new(WalletId(1)),
        handle: sample_handle(),
        on_chain: sample_on_chain(),
        to_puzzle_hash: Puzzlehash(to.into()),
        fee: Amount(1),
    }
}

#[test]
fn builds_an_unsigned_mint_with_handle_and_required_signatures() {
    let b = builder(vec![wallet_coin(1011, 1)]);
    let minted = b.build_mint_option(mint_request(1000, 500, 10)).unwrap();
    assert!(!minted.unsigned.coin_spends.is_empty());
    assert!(!minted.unsigned.required_signatures.is_empty());
    assert_eq!(minted.unsigned.summary.fee, Amount(10));
    assert_eq!(minted.unsigned.summary.outputs[0].amount, Amount(1000));
    assert_eq!(minted.handle.underlying_amount, Amount(1000));
    assert_eq!(minted.handle.launcher_id.len(), 64);
    assert_eq!(minted.handle.underlying_coin_id.len(), 64);
    assert_eq!(minted.handle.strike, OptionStrike::Xch { amount: Amount(500) });
}

#[test]
fn mint_is_deterministic() {
    let coins = vec![wallet_coin(1011, 1)];
    let a = builder(coins.clone()).build_mint_option(mint_request(1000, 500, 10)).unwrap();
    let b = builder(coins).build_mint_option(mint_request(1000, 500, 10)).unwrap();
    assert_eq!(a, b, "identical inputs must yield an identical mint");
}

#[test]
fn mint_picks_the_smallest_covering_coin() {
    let b = builder(vec![wallet_coin(2000, 1), wallet_coin(1005, 2)]);
    let minted = b.build_mint_option(mint_request(1000, 500, 10)).unwrap();
    assert_eq!(minted.unsigned.summary.fee, Amount(4));
    let funding = plain(wallet_coin(1005, 2));
    assert_eq!(minted.handle.funding_coin_id, hex::encode(funding.coin_id().0));
    assert!(minted.unsigned.coin_spends.iter().any(|spend| spend.coin == funding));
}

#[test]
fn mint_zero_underlying_is_rejected() {
    let b = builder(vec![wallet_coin(1011, 1)]);
    let err = b.build_mint_option(mint_request(0, 500, 10)).unwrap_err();
    assert_eq!(err.code, WalletErrorCode::InvalidInput);
}

#[test]
fn mint_without_a_covering_coin_is_insufficient_funds() {
    let b = builder(vec![wallet_coin(100, 1)]);
    let err = b.build_mint_option(mint_request(1000, 500, 10)).unwrap_err();
    assert_eq!(err.code, WalletErrorCode::InsufficientFunds);
    assert_eq!(
        err.message,
        "no single XCH coin covers the option underlying + singleton (1001); \
         largest available across 1 coins totals 100"
    );
}

#[test]
fn mint_rejects_a_coin_whose_excess_exceeds_the_fee() {
    let b = builder(vec![wallet_coin(2000, 1)]);
    let err = b.build_mint_option(mint_request(1000, 500, 10)).unwrap_err();
    assert_eq!(err.code, WalletErrorCode::InsufficientFunds);
    assert!(err.message.contains("split"), "message: {}", err.message);
}

#[test]
fn transfer_reports_not_implemented() {
    let err = builder(vec![])
        .build_transfer_option(transfer_request(&hex::encode([9u8; 32])))
        .unwrap_err();
    assert_eq!(err.code, WalletErrorCode::NotImplemented);
}

#[test]
fn exercise_reports_not_implemented() {
    let req = ExerciseOptionRequest {
        identity: IdentityRef::new(WalletId(1)),
        handle: sample_handle(),
        on_chain: sample_on_chain(),
        fee: Amount(1),
    };
    let err = builder(vec![]).build_exercise_option(req).unwrap_err();
    assert_eq!(err.code, WalletErrorCode::NotImplemented);
}

#[test]
fn transfer_rejects_a_bad_destination_before_not_implemented() {
    let err = builder(vec![]).build_transfer_option(transfer_request("not-hex")).unwrap_err();
    assert_eq!(err.code, WalletErrorCode::InvalidInput);
}

#[test]
fn a_mint_of_the_whole_word_overflows() {
    let b = builder(vec![wallet_coin(1011, 1)]);
    let err = b.build_mint_option(mint_request(u64::MAX, 500, 10)).unwrap_err();
    assert_eq!(err.message, "underlying amount overflows");
    let err = b.build_mint_option(mint_request(u64::MAX - 1, 500, 10)).unwrap_err();
    assert_eq!(err.message, "underlying + fee overflows");
    let rich = builder(vec![wallet_coin(u64::MAX, 1), wallet_coin(u64::MAX, 2)]);
    let err = rich.build_mint_option(mint_request(u64::MAX, 500, 10)).unwrap_err();
    assert_eq!(err.message, "underlying amount overflows");
}

#[test]
fn a_mint_names_its_parties() {
    let creator = hex::encode([0x11u8; 32]);
    let owner = hex::encode([0x22u8; 32]);
    let mut request = mint_request(1000, 500, 10);
    request.creator_puzzle_hash = Some(Puzzlehash(creator.clone()));
    request.owner_puzzle_hash = Some(Puzzlehash(owner.clone()));
    let minted = builder(vec![wallet_coin(1011, 1)]).build_mint_option(request).unwrap();
    assert_eq!(minted.handle.creator_puzzle_hash, Puzzlehash(creator));
    assert_eq!(minted.handle.owner_puzzle_hash, Puzzlehash(owner));
    let own = builder(vec![wallet_coin(1011, 1)])
        .build_mint_option(mint_request(1000, 500, 10))
        .unwrap();
    assert_eq!(own.handle.creator_puzzle_hash, own.handle.owner_puzzle_hash);
    assert_eq!(own.handle.owner_puzzle_hash, Puzzlehash(hex::encode(wallet_puzzle_hash())));
}

#[test]
fn a_mint_without_a_key_fails_closed() {
    let foreign = Coin::new(ChainHash::new([1u8; 32]), ChainHash::new([9u8; 32]), 1011);
    let err = builder(vec![foreign]).build_mint_option(mint_request(1000, 500, 10)).unwrap_err();
    assert_eq!(err.code, WalletErrorCode::SpendValidationFailed);
}
