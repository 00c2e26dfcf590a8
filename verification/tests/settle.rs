//! What the builders build, signed and submitted to a simulated chain.

use chia_protocol::{
    Bytes32 as ChainHash, Coin, CoinSpend, Program, SpendBundle as ChainBundle,
};
use chia_sdk_test::{sign_transaction, BlsPairWithCoin, Simulator};
use chia_wallet_sdk::driver::{Cat, SpendContext, StandardLayer};
use chia_wallet_sdk::types::Conditions;
use chia_wallet_sdk::utils::Address as Bech32Address;
use dig_wallet_backend::engine::builder::{SdkSpendBuilder, SpendInputs};
use dig_wallet_backend::types::{
    Address, Amount, AssetId, Bytes32, CombineXchRequest, IdentityRef, LineageProof,
    MintOptionRequest, MultiSendCatRequest, MultiSendXchRequest, Network, OptionStrike, PublicKey,
    Puzzlehash, SendCatRequest, SendLeg, SendXchRequest, TipRequest,
    UnsignedSpend, WalletCat, WalletCoin, WalletId, WalletResult,
};

struct SimInputs {
    xch: Vec<WalletCoin>,
    cats: Vec<WalletCat>,
    puzzle_hash: Bytes32,
    key: PublicKey,
}

impl SpendInputs for SimInputs {
    fn spendable_xch(&self, _: &IdentityRef) -> WalletResult<Vec<WalletCoin>> {
        Ok(self.xch.clone())
    }
    fn spendable_cat(&self, _: &IdentityRef, _: &AssetId) -> WalletResult<Vec<WalletCat>> {
        Ok(self.cats.clone())
    }
    fn synthetic_key(&self, puzzle_hash: &Bytes32) -> Option<PublicKey> {
        (*puzzle_hash == self.puzzle_hash).then_some(self.key)
    }
    fn change_puzzle_hash(&self, _: &IdentityRef) -> WalletResult<Bytes32> {
        Ok(self.puzzle_hash)
    }
}

fn identity() -> IdentityRef {
    IdentityRef::new(WalletId(1))
}

fn hash(value: ChainHash) -> Bytes32 {
    Bytes32::new(value.to_bytes())
}

fn plain(coin: Coin) -> WalletCoin {
    WalletCoin::new(hash(coin.parent_coin_info), hash(coin.puzzle_hash), coin.amount)
}

fn plain_cat(cat: Cat) -> WalletCat {
    WalletCat {
        coin: plain(cat.coin),
        lineage_proof: cat.lineage_proof.map(|proof| LineageProof {
            parent_parent_coin_info: hash(proof.parent_parent_coin_info),
            parent_inner_puzzle_hash: hash(proof.parent_inner_puzzle_hash),
            parent_amount: proof.parent_amount,
        }),
        asset_id: hash(cat.info.asset_id),
        hidden_puzzle_hash: cat.info.hidden_puzzle_hash.map(hash),
        p2_puzzle_hash: hash(cat.info.p2_puzzle_hash),
    }
}

fn builder(
    owner: &BlsPairWithCoin,
    xch: Vec<Coin>,
    cats: Vec<Cat>,
) -> SdkSpendBuilder<SimInputs> {
    let inputs = SimInputs {
        xch: xch.into_iter().map(plain).collect(),
        cats: cats.into_iter().map(plain_cat).collect(),
        puzzle_hash: hash(owner.puzzle_hash),
        key: PublicKey(owner.pk.to_bytes()),
    };
    SdkSpendBuilder::new(inputs, Network::Simulator, 500)
}

fn issue(sim: &mut Simulator, owner: &BlsPairWithCoin, amounts: &[u64]) -> Vec<Cat> {
    let total: u64 = amounts.iter().sum();
    let mut ctx = SpendContext::new();
    let funding = sim.new_coin(owner.puzzle_hash, total);
    let hint = ctx.hint(owner.puzzle_hash).unwrap();
    let create = amounts.iter().fold(Conditions::new(), |conditions, amount| {
        conditions.create_coin(owner.puzzle_hash, *amount, hint)
    });
    let (issue, cats) =
        Cat::single_issuance(&mut ctx, funding.coin_id(), None, total, create).unwrap();
    StandardLayer::new(owner.pk).spend(&mut ctx, funding, issue).unwrap();
    sim.spend_coins(ctx.take(), std::slice::from_ref(&owner.sk)).unwrap();
    cats
}

fn settle(sim: &mut Simulator, unsigned: &UnsignedSpend, owner: &BlsPairWithCoin) {
    let spends: Vec<CoinSpend> = unsigned
        .coin_spends
        .iter()
        .map(|spend| {
            let coin = Coin::new(
                ChainHash::new(spend.coin.parent_coin_info.0),
                ChainHash::new(spend.coin.puzzle_hash.0),
                spend.coin.amount,
            );
            CoinSpend::new(
                coin,
                Program::from(spend.puzzle_reveal.clone()),
                Program::from(spend.solution.clone()),
            )
        })
        .collect();
    let signature = sign_transaction(&spends, std::slice::from_ref(&owner.sk)).unwrap();
    sim.new_transaction(ChainBundle::new(spends, signature)).expect("the spend settles");
}

fn amounts_at(sim: &Simulator, puzzle_hash: ChainHash) -> Vec<u64> {
    let mut amounts: Vec<u64> =
        sim.unspent_coins(puzzle_hash, false).iter().map(|coin| coin.amount).collect();
    amounts.sort_unstable();
    amounts
}

fn payee(seed: u8) -> ChainHash {
    ChainHash::new([seed; 32])
}

fn address(seed: u8) -> Address {
    Address(Bech32Address::new(payee(seed), "txch".into()).encode().unwrap())
}

fn leg(seed: u8, amount: u64) -> SendLeg {
    SendLeg { to: address(seed), amount: Amount(amount) }
}

#[test]
fn a_send_from_several_coins_settles() {
    let mut sim = Simulator::new();
    let owner = sim.bls(300);
    let second = sim.new_coin(owner.puzzle_hash, 200);
    let unsigned = builder(&owner, vec![owner.coin, second], vec![])
        .build_send_xch(SendXchRequest {
            identity: identity(),
            to: address(7),
            amount: Amount(400),
            fee: Amount(30),
        })
        .unwrap();
    settle(&mut sim, &unsigned, &owner);
    assert_eq!(amounts_at(&sim, payee(7)), vec![400]);
    assert_eq!(amounts_at(&sim, owner.puzzle_hash), vec![70]);
}

#[test]
fn a_cat_send_with_a_fee_settles() {
    let mut sim = Simulator::new();
    let owner = sim.bls(500);
    let cats = issue(&mut sim, &owner, &[600, 400]);
    let asset = cats[0].info.asset_id;
    let unsigned = builder(&owner, vec![owner.coin], cats)
        .build_send_cat(SendCatRequest {
            identity: identity(),
            asset_id: AssetId(hex::encode(asset)),
            to: address(7),
            amount: Amount(700),
            fee: Amount(50),
        })
        .unwrap();
    settle(&mut sim, &unsigned, &owner);
    assert_eq!(amounts_at(&sim, owner.puzzle_hash), vec![450]);
}

#[test]
fn a_multi_send_settles() {
    let mut sim = Simulator::new();
    let owner = sim.bls(1_000);
    let unsigned = builder(&owner, vec![owner.coin], vec![])
        .build_multi_send_xch(MultiSendXchRequest {
            identity: identity(),
            legs: vec![leg(7, 100), leg(8, 250)],
            fee: Amount(5),
        })
        .unwrap();
    settle(&mut sim, &unsigned, &owner);
    assert_eq!(amounts_at(&sim, payee(7)), vec![100]);
    assert_eq!(amounts_at(&sim, payee(8)), vec![250]);
    assert_eq!(amounts_at(&sim, owner.puzzle_hash), vec![645]);
}

#[test]
fn a_cat_multi_send_settles() {
    let mut sim = Simulator::new();
    let owner = sim.bls(500);
    let cats = issue(&mut sim, &owner, &[1_000]);
    let asset = cats[0].info.asset_id;
    let unsigned = builder(&owner, vec![owner.coin], cats)
        .build_multi_send_cat(MultiSendCatRequest {
            identity: identity(),
            asset_id: AssetId(hex::encode(asset)),
            legs: vec![leg(7, 100), leg(8, 250)],
            fee: Amount(20),
        })
        .unwrap();
    settle(&mut sim, &unsigned, &owner);
    assert_eq!(amounts_at(&sim, owner.puzzle_hash), vec![480]);
}

#[test]
fn a_combine_settles() {
    let mut sim = Simulator::new();
    let owner = sim.bls(100);
    let second = sim.new_coin(owner.puzzle_hash, 253);
    let unsigned = builder(&owner, vec![owner.coin, second], vec![])
        .build_combine_xch(CombineXchRequest { identity: identity(), fee: Amount(50) })
        .unwrap();
    settle(&mut sim, &unsigned, &owner);
    assert_eq!(amounts_at(&sim, owner.puzzle_hash), vec![303]);
}

#[test]
fn a_tip_settles() {
    let mut sim = Simulator::new();
    let owner = sim.bls(0);
    let cats = issue(&mut sim, &owner, &[5_000, 4_000]);
    let asset = cats[0].info.asset_id;
    let unsigned = builder(&owner, vec![], cats)
        .build_tip(TipRequest {
            identity: identity(),
            asset_id: AssetId(hex::encode(asset)),
            recipient: Puzzlehash(hex::encode([0x77u8; 32])),
            amount: Amount(6_000),
        })
        .unwrap();
    settle(&mut sim, &unsigned, &owner);
}

#[test]
fn a_minted_option_settles() {
    let mut sim = Simulator::new();
    let owner = sim.bls(1_011);
    let minted = builder(&owner, vec![owner.coin], vec![])
        .build_mint_option(MintOptionRequest {
            identity: identity(),
            creator_puzzle_hash: None,
            owner_puzzle_hash: None,
            underlying_amount: Amount(1_000),
            strike: OptionStrike::Xch { amount: Amount(500) },
            expiry_seconds: 10_000,
            fee: Amount(10),
        })
        .unwrap();
    settle(&mut sim, &minted.unsigned, &owner);
    let mut id = [0u8; 32];
    id.copy_from_slice(&hex::decode(&minted.handle.underlying_coin_id).unwrap());
    let locked = sim.coin_state(ChainHash::new(id)).expect("the underlying coin exists");
    assert_eq!(locked.coin.amount, 1_000);
}
