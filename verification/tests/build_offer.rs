//! The lifecycle of an offer, settled on a simulated chain.

use chia_protocol::{
    Bytes32 as ChainHash, Coin, CoinSpend, Program, SpendBundle as ChainBundle,
};
use chia_sdk_test::{sign_transaction, BlsPairWithCoin, Simulator};
use chia_wallet_sdk::driver::{Cat, SpendContext, StandardLayer};
use chia_wallet_sdk::types::Conditions;
use chia_wallet_sdk::utils::Address as Bech32Address;
use dig_wallet_backend::engine::build_offer::OfferBuilder;
use dig_wallet_backend::engine::builder::SpendInputs;
use dig_wallet_backend::engine::parse::parse_asset_id;
use dig_wallet_backend::types::{
    Address, Amount, AssembleOfferRequest, AssetId, Bytes32, CancelOfferRequest,
    CombineOffersRequest, FinalizeTakeRequest, IdentityRef, LineageProof, MakeOfferRequest,
    Network, OfferBuildId, OfferString, OfferedAssets, PendingOfferBuild, PublicKey,
    RequestedAssets, Signature, SignedBundle, SummarizeOfferRequest, SummaryAsset,
    TakeOfferRequest, WalletBundle, WalletCat, WalletCoin, WalletErrorCode, WalletId, WalletResult,
    WalletSpend,
};

/// A fixed set of the simulator's coins with their keys.
struct TestInputs {
    xch: Vec<WalletCoin>,
    cats: Vec<WalletCat>,
    keys: Vec<(Bytes32, PublicKey)>,
    change: Bytes32,
}

impl SpendInputs for TestInputs {
    fn spendable_xch(&self, _: &IdentityRef) -> WalletResult<Vec<WalletCoin>> {
        Ok(self.xch.clone())
    }
    fn spendable_cat(&self, _: &IdentityRef, asset_id: &AssetId) -> WalletResult<Vec<WalletCat>> {
        let want = parse_asset_id(asset_id).ok();
        Ok(self
            .cats
            .iter()
            .filter(|cat| want.map_or(true, |a| cat.asset_id == a))
            .copied()
            .collect())
    }
    fn synthetic_key(&self, puzzle_hash: &Bytes32) -> Option<PublicKey> {
        self.keys.iter().find(|(ph, _)| ph == puzzle_hash).map(|(_, key)| *key)
    }
    fn change_puzzle_hash(&self, _: &IdentityRef) -> WalletResult<Bytes32> {
        Ok(self.change)
    }
}

fn identity() -> IdentityRef {
    IdentityRef::new(WalletId(1))
}

fn hash(value: ChainHash) -> Bytes32 {
    Bytes32::new(value.to_bytes())
}

fn plain(coin: Coin) -> WalletCoin {
    WalletCoin::new(hash(coin.parent_coin_info), hash(coin.puzzle_hash), coin.amount)
}

fn plain_cat(cat: Cat) -> WalletCat {
    WalletCat {
        coin: plain(cat.coin),
        lineage_proof: cat.lineage_proof.map(|proof| LineageProof {
            parent_parent_coin_info: hash(proof.parent_parent_coin_info),
            parent_inner_puzzle_hash: hash(proof.parent_inner_puzzle_hash),
            parent_amount: proof.parent_amount,
        }),
        asset_id: hash(cat.info.asset_id),
        hidden_puzzle_hash: cat.info.hidden_puzzle_hash.map(hash),
        p2_puzzle_hash: hash(cat.info.p2_puzzle_hash),
    }
}

fn chain_spend(spend: &WalletSpend) -> CoinSpend {
    let coin = Coin::new(
        ChainHash::new(spend.coin.parent_coin_info.0),
        ChainHash::new(spend.coin.puzzle_hash.0),
        spend.coin.amount,
    );
    CoinSpend::new(
        coin,
        Program::from(spend.puzzle_reveal.clone()),
        Program::from(spend.solution.clone()),
    )
}

fn chain_bundle(bundle: &WalletBundle) -> ChainBundle {
    let signature = chia_bls::Signature::from_bytes(&bundle.aggregated_signature.0).unwrap();
    ChainBundle::new(bundle.coin_spends.iter().map(chain_spend).collect(), signature)
}

fn builder_with_cap(
    owner: &BlsPairWithCoin,
    xch: Vec<Coin>,
    cats: Vec<Cat>,
    cap: usize,
) -> OfferBuilder<TestInputs> {
    OfferBuilder::new(
        TestInputs {
            xch: xch.into_iter().map(plain).collect(),
            cats: cats.into_iter().map(plain_cat).collect(),
            keys: vec![(hash(owner.puzzle_hash), PublicKey(owner.pk.to_bytes()))],
            change: hash(owner.puzzle_hash),
        },
        Network::Simulator,
        cap,
    )
}

fn builder_for(
    owner: &BlsPairWithCoin,
    xch: Vec<Coin>,
    cats: Vec<Cat>,
) -> OfferBuilder<TestInputs> {
    builder_with_cap(owner, xch, cats, 500)
}

/// Issues a fresh CAT to an owner and settles it, funded by a throwaway coin.
fn issue_cat_to(sim: &mut Simulator, owner: &BlsPairWithCoin, amount: u64) -> (Cat, ChainHash) {
    let mut ctx = SpendContext::new();
    let funding = sim.new_coin(owner.puzzle_hash, amount);
    let hint = ctx.hint(owner.puzzle_hash).unwrap();
    let (issue, cats) = Cat::single_issuance(
        &mut ctx,
        funding.coin_id(),
        None,
        amount,
        Conditions::new().create_coin(owner.puzzle_hash, amount, hint),
    )
    .unwrap();
    StandardLayer::new(owner.pk).spend(&mut ctx, funding, issue).unwrap();
    let asset_id = cats[0].info.asset_id;
    sim.spend_coins(ctx.take(), std::slice::from_ref(&owner.sk)).unwrap();
    (cats[0], asset_id)
}

/// Signs coin spends with the owner's key, as the client would.
fn client_sign(coin_spends: &[WalletSpend], owner: &BlsPairWithCoin) -> SignedBundle {
    let on_chain: Vec<CoinSpend> = coin_spends.iter().map(chain_spend).collect();
    let signature = sign_transaction(&on_chain, std::slice::from_ref(&owner.sk)).unwrap();
    SignedBundle {
        bundle: WalletBundle {
            coin_spends: coin_spends.to_vec(),
            aggregated_signature: Signature(signature.to_bytes()),
        },
    }
}

fn xch_address(puzzle_hash: ChainHash) -> Address {
    Address(Bech32Address::new(puzzle_hash, "xch".into()).encode().unwrap())
}

fn make_request(
    offered: (u64, Vec<(ChainHash, u64)>),
    requested: (u64, Vec<(ChainHash, u64)>),
    payee: ChainHash,
) -> MakeOfferRequest {
    let wire = |cats: Vec<(ChainHash, u64)>| {
        cats.into_iter()
            .map(|(asset, amount)| (AssetId(hex::encode(asset)), Amount(amount)))
            .collect()
    };
    MakeOfferRequest {
        identity: identity(),
        offered: OfferedAssets { xch: Amount(offered.0), cats: wire(offered.1) },
        requested: RequestedAssets {
            xch: Amount(requested.0),
            cats: wire(requested.1),
            payee: xch_address(payee),
        },
        fee: Amount(0),
    }
}

fn take_request(offer: String) -> TakeOfferRequest {
    TakeOfferRequest { identity: identity(), offer, fee: Amount(0) }
}

fn assemble(
    builder: &mut OfferBuilder<TestInputs>,
    pending: PendingOfferBuild,
    maker: &BlsPairWithCoin,
) -> OfferString {
    let signed = client_sign(&pending.unsigned.coin_spends, maker);
    builder
        .assemble_make(AssembleOfferRequest { build_id: pending.build_id, signed }, 1)
        .unwrap()
}

fn settle(
    builder: &mut OfferBuilder<TestInputs>,
    offer: String,
    taker: &BlsPairWithCoin,
) -> ChainBundle {
    let pending = builder.build_take(take_request(offer), 0).unwrap();
    let signed = client_sign(&pending.unsigned.coin_spends, taker);
    let settlement = builder
        .finalize_take(FinalizeTakeRequest { build_id: pending.build_id, signed }, 1)
        .unwrap();
    chain_bundle(&settlement.bundle)
}

#[test]
fn round_trip_offer_cat_for_xch_settles() {
    let mut sim = Simulator::new();
    let maker = sim.bls(0);
    let (maker_cat, asset) = issue_cat_to(&mut sim, &maker, 1_000);
    let taker = sim.bls(60_000);
    let mut maker_builder = builder_for(&maker, vec![], vec![maker_cat]);
    let pending = maker_builder
        .build_make(
            make_request((0, vec![(asset, 1_000)]), (50_000, vec![]), maker.puzzle_hash),
            0,
        )
        .expect("make builds without any XCH");
    let offer = assemble(&mut maker_builder, pending, &maker);
    assert!(offer.offer.starts_with("offer1"), "assembled offer string");
    let mut taker_builder = builder_for(&taker, vec![taker.coin], vec![]);
    let settlement = settle(&mut taker_builder, offer.offer, &taker);
    sim.new_transaction(settlement).expect("the atomic settlement bundle must be accepted");
}

#[test]
fn round_trip_offer_xch_for_cat_settles() {
    let mut sim = Simulator::new();
    let maker = sim.bls(50_000);
    let taker = sim.bls(0);
    let (taker_cat, asset) = issue_cat_to(&mut sim, &taker, 1_000);
    let mut maker_builder = builder_for(&maker, vec![maker.coin], vec![]);
    let pending = maker_builder
        .build_make(
            make_request((50_000, vec![]), (0, vec![(asset, 1_000)]), maker.puzzle_hash),
            0,
        )
        .unwrap();
    let offer = assemble(&mut maker_builder, pending, &maker);
    let mut taker_builder = builder_for(&taker, vec![taker.coin], vec![taker_cat]);
    let settlement = settle(&mut taker_builder, offer.offer, &taker);
    sim.new_transaction(settlement).expect("reverse-direction settlement must be accepted");
}

#[test]
fn cancel_reclaims_the_offered_coin() {
    let mut sim = Simulator::new();
    let maker = sim.bls(50_000);
    let taker = sim.bls(0);
    let (_taker_cat, asset) = issue_cat_to(&mut sim, &taker, 1_000);
    let mut maker_builder = builder_for(&maker, vec![maker.coin], vec![]);
    let pending = maker_builder
        .build_make(
            make_request((50_000, vec![]), (0, vec![(asset, 1_000)]), maker.puzzle_hash),
            0,
        )
        .unwrap();
    let offer = assemble(&mut maker_builder, pending, &maker);
    let cancel = maker_builder
        .build_cancel(CancelOfferRequest {
            identity: identity(),
            offer: offer.offer,
            fee: Amount(0),
        })
        .unwrap();
    let signed = client_sign(&cancel.coin_spends, &maker);
    sim.new_transaction(chain_bundle(&signed.bundle)).expect("the maker's reclaim must settle");
}

#[test]
fn cancel_of_an_unowned_offer_is_rejected() {
    let mut sim = Simulator::new();
    let maker = sim.bls(50_000);
    let stranger = sim.bls(50_000);
    let cat_owner = sim.bls(0);
    let (_cat, asset) = issue_cat_to(&mut sim, &cat_owner, 1_000);
    let mut maker_builder = builder_for(&maker, vec![maker.coin], vec![]);
    let pending = maker_builder
        .build_make(
            make_request((50_000, vec![]), (0, vec![(asset, 1_000)]), maker.puzzle_hash),
            0,
        )
        .unwrap();
    let offer = assemble(&mut maker_builder, pending, &maker);
    let stranger_builder = builder_for(&stranger, vec![stranger.coin], vec![]);
    let err = stranger_builder
        .build_cancel(CancelOfferRequest {
            identity: identity(),
            offer: offer.offer,
            fee: Amount(0),
        })
        .unwrap_err();
    assert_eq!(
        err.code,
        WalletErrorCode::SpendValidationFailed,
        "an unowned cancel must fail closed, not return a non-signable spend"
    );
}

#[test]
fn cancel_of_a_cat_offer_is_rejected() {
    let mut sim = Simulator::new();
    let maker = sim.bls(0);
    let (maker_cat, asset) = issue_cat_to(&mut sim, &maker, 1_000);
    let mut maker_builder = builder_for(&maker, vec![], vec![maker_cat]);
    let pending = maker_builder
        .build_make(
            make_request((0, vec![(asset, 1_000)]), (50_000, vec![]), maker.puzzle_hash),
            0,
        )
        .unwrap();
    let offer = assemble(&mut maker_builder, pending, &maker);
    let err = maker_builder
        .build_cancel(CancelOfferRequest {
            identity: identity(),
            offer: offer.offer,
            fee: Amount(0),
        })
        .unwrap_err();
    assert_eq!(err.code, WalletErrorCode::SpendValidationFailed);
}

#[test]
fn a_make_summary_surfaces_the_requested_payment_as_a_received_leg() {
    let mut sim = Simulator::new();
    let maker = sim.bls(0);
    let (maker_cat, asset) = issue_cat_to(&mut sim, &maker, 1_000);
    let payee = xch_address(maker.puzzle_hash);
    let pending = builder_for(&maker, vec![], vec![maker_cat])
        .build_make(
            make_request((0, vec![(asset, 1_000)]), (50_000, vec![]), maker.puzzle_hash),
            0,
        )
        .unwrap();
    let summary = pending.unsigned.summary;
    assert_eq!(summary.outputs.len(), 1);
    assert!(summary.outputs[0].address.0.is_empty());
    assert_eq!(summary.outputs[0].asset_id, Some(AssetId(hex::encode(asset))));
    assert_eq!(summary.received.len(), 1);
    assert_eq!(summary.received[0].amount, Amount(50_000));
    assert_eq!(summary.received[0].asset_id, None);
    assert_eq!(summary.received[0].address, payee);
}

#[test]
fn offer_string_and_summary_carry_the_offer_id() {
    let mut sim = Simulator::new();
    let maker = sim.bls(50_000);
    let cat_owner = sim.bls(0);
    let (_cat, asset) = issue_cat_to(&mut sim, &cat_owner, 1_000);
    let mut maker_builder = builder_for(&maker, vec![maker.coin], vec![]);
    let pending = maker_builder
        .build_make(
            make_request((50_000, vec![]), (0, vec![(asset, 1_000)]), maker.puzzle_hash),
            0,
        )
        .unwrap();
    let offer = assemble(&mut maker_builder, pending, &maker);
    assert_eq!(offer.offer_id.len(), 64, "offer_id is a 32-byte hex hash");
    let summary = maker_builder
        .summarize(SummarizeOfferRequest { offer: offer.offer.clone() })
        .unwrap();
    assert_eq!(summary.offer_id, offer.offer_id, "id is stable per offer");
    let cat = SummaryAsset::Cat { asset_id: AssetId(hex::encode(asset)), amount: Amount(1_000) };
    assert_eq!(summary.offered, vec![SummaryAsset::Xch { amount: Amount(50_000) }]);
    assert_eq!(summary.requested, vec![cat]);
    let again = maker_builder.summarize_checked(SummarizeOfferRequest { offer: offer.offer });
    assert_eq!(again.unwrap().unwrap(), summary);
}

#[test]
fn over_cap_taker_selection_reports_needs_consolidation() {
    let mut sim = Simulator::new();
    let maker = sim.bls(0);
    let (maker_cat, asset) = issue_cat_to(&mut sim, &maker, 1_000);
    let taker = sim.bls(0);
    let mut maker_builder = builder_for(&maker, vec![], vec![maker_cat]);
    let pending = maker_builder
        .build_make(make_request((0, vec![(asset, 1_000)]), (3, vec![]), maker.puzzle_hash), 0)
        .unwrap();
    let offer = assemble(&mut maker_builder, pending, &maker);
    let taker_coins: Vec<Coin> = (0..3).map(|_| sim.new_coin(taker.puzzle_hash, 1)).collect();
    let mut taker_builder = builder_with_cap(&taker, taker_coins, vec![], 2);
    let err = taker_builder.build_take(take_request(offer.offer), 0).unwrap_err();
    assert_eq!(err.code, WalletErrorCode::InsufficientFunds);
    assert!(
        err.message.contains("consolidation"),
        "over-cap taker selection reports consolidation, not a plain shortfall: {}",
        err.message
    );
}

#[test]
fn make_with_nothing_offered_is_rejected() {
    let maker = Simulator::new().bls(0);
    let err = builder_for(&maker, vec![], vec![])
        .build_make(make_request((0, vec![]), (1, vec![]), maker.puzzle_hash), 0)
        .unwrap_err();
    assert_eq!(err.code, WalletErrorCode::InvalidInput);
}

#[test]
fn make_with_nothing_requested_is_rejected() {
    let mut sim = Simulator::new();
    let maker = sim.bls(0);
    let (cat, asset) = issue_cat_to(&mut sim, &maker, 1_000);
    let err = builder_for(&maker, vec![], vec![cat])
        .build_make(make_request((0, vec![(asset, 1_000)]), (0, vec![]), maker.puzzle_hash), 0)
        .unwrap_err();
    assert_eq!(err.code, WalletErrorCode::InvalidInput);
}

#[test]
fn make_offering_a_zero_cat_amount_is_rejected() {
    let maker = Simulator::new().bls(0);
    let asset = ChainHash::new([0xabu8; 32]);
    let err = builder_for(&maker, vec![], vec![])
        .build_make(make_request((0, vec![(asset, 0)]), (1, vec![]), maker.puzzle_hash), 0)
        .unwrap_err();
    assert_eq!(err.code, WalletErrorCode::InvalidInput);
}

#[test]
fn take_a_malformed_offer_is_rejected() {
    let taker = Simulator::new().bls(10_000);
    let mut builder = builder_for(&taker, vec![taker.coin], vec![]);
    let err = builder.build_take(take_request("not-an-offer".into()), 0).unwrap_err();
    assert_eq!(err.code, WalletErrorCode::InvalidInput);
    let checked = builder.build_take_checked(take_request("not-an-offer".into()), 0).unwrap();
    assert_eq!(checked.unwrap_err(), err);
}

#[test]
fn summarize_a_malformed_offer_is_rejected() {
    let maker = Simulator::new().bls(0);
    let err = builder_for(&maker, vec![], vec![])
        .summarize(SummarizeOfferRequest { offer: "   ".into() })
        .unwrap_err();
    assert_eq!(err.code, WalletErrorCode::InvalidInput);
}

#[test]
fn combine_fewer_than_two_offers_is_rejected() {
    let maker = Simulator::new().bls(0);
    let err = builder_for(&maker, vec![], vec![])
        .combine(CombineOffersRequest { offers: vec!["offer1abc".into()] })
        .unwrap_err();
    assert_eq!(err.code, WalletErrorCode::InvalidInput);
}

#[test]
fn assemble_with_an_unknown_build_id_is_rejected() {
    let maker = Simulator::new().bls(0);
    let signature = chia_bls::Signature::default().to_bytes();
    let err = builder_for(&maker, vec![], vec![])
        .assemble_make(
            AssembleOfferRequest {
                build_id: OfferBuildId("nope".into()),
                signed: SignedBundle {
                    bundle: WalletBundle {
                        coin_spends: vec![],
                        aggregated_signature: Signature(signature),
                    },
                },
            },
            0,
        )
        .unwrap_err();
    assert_eq!(err.code, WalletErrorCode::InvalidInput);
}

#[test]
fn a_make_parks_then_consumes_one_pending_build() {
    let mut sim = Simulator::new();
    let maker = sim.bls(0);
    let (cat, asset) = issue_cat_to(&mut sim, &maker, 1_000);
    let mut builder = builder_for(&maker, vec![], vec![cat]);
    let pending = builder
        .build_make(
            make_request((0, vec![(asset, 1_000)]), (50_000, vec![]), maker.puzzle_hash),
            0,
        )
        .unwrap();
    assert_eq!(builder.pending_len(0), 1);
    assemble(&mut builder, pending, &maker);
    assert_eq!(builder.pending_len(1), 0, "assembly consumes the build");
}

#[test]
fn two_offers_combine_into_one_that_settles() {
    let mut sim = Simulator::new();
    let alice = sim.bls(0);
    let (alice_cat, first) = issue_cat_to(&mut sim, &alice, 1_000);
    let bob = sim.bls(0);
    let (bob_cat, second) = issue_cat_to(&mut sim, &bob, 700);
    let taker = sim.bls(60_000);
    let mut alice_builder = builder_for(&alice, vec![], vec![alice_cat]);
    let pending = alice_builder
        .build_make(make_request((0, vec![(first, 1_000)]), (20_000, vec![]), alice.puzzle_hash), 0)
        .unwrap();
    let one = assemble(&mut alice_builder, pending, &alice);
    let mut bob_builder = builder_for(&bob, vec![], vec![bob_cat]);
    let pending = bob_builder
        .build_make(make_request((0, vec![(second, 700)]), (30_000, vec![]), bob.puzzle_hash), 0)
        .unwrap();
    let two = assemble(&mut bob_builder, pending, &bob);
    let mut taker_builder = builder_for(&taker, vec![taker.coin], vec![]);
    let joined = taker_builder
        .combine(CombineOffersRequest { offers: vec![one.offer.clone(), two.offer.clone()] })
        .unwrap();
    assert_ne!(joined.offer_id, one.offer_id);
    let summary = taker_builder
        .summarize(SummarizeOfferRequest { offer: joined.offer.clone() })
        .unwrap();
    assert_eq!(summary.offered.len(), 2);
    let settlement = settle(&mut taker_builder, joined.offer, &taker);
    sim.new_transaction(settlement).expect("both offers settle at once");
}

#[test]
fn an_expired_make_cannot_be_assembled() {
    let mut sim = Simulator::new();
    let maker = sim.bls(0);
    let (cat, asset) = issue_cat_to(&mut sim, &maker, 1_000);
    let mut builder = builder_for(&maker, vec![], vec![cat]);
    let pending = builder
        .build_make(
            make_request((0, vec![(asset, 1_000)]), (50_000, vec![]), maker.puzzle_hash),
            0,
        )
        .unwrap();
    let signed = client_sign(&pending.unsigned.coin_spends, &maker);
    let err = builder
        .assemble_make(
            AssembleOfferRequest { build_id: pending.build_id, signed },
            300_000_000_000,
        )
        .unwrap_err();
    assert_eq!(err.code, WalletErrorCode::InvalidInput);
}

#[test]
fn a_make_beyond_the_cat_balance_is_insufficient_funds() {
    let mut sim = Simulator::new();
    let maker = sim.bls(0);
    let (cat, asset) = issue_cat_to(&mut sim, &maker, 1_000);
    let err = builder_for(&maker, vec![], vec![cat])
        .build_make(make_request((0, vec![(asset, 1_001)]), (5, vec![]), maker.puzzle_hash), 0)
        .unwrap_err();
    assert_eq!(err.code, WalletErrorCode::InsufficientFunds);
}

#[test]
fn a_make_from_a_wallet_past_the_machine_word_draws_what_it_needs() {
    let mut sim = Simulator::new();
    let maker = sim.bls(0);
    let coin = |seed: u8| Coin::new(ChainHash::new([seed; 32]), maker.puzzle_hash, 1 << 63);
    let asset = ChainHash::new([0xabu8; 32]);
    let pending = builder_for(&maker, vec![coin(1), coin(2)], vec![])
        .build_make(make_request((5, vec![]), (0, vec![(asset, 1)]), maker.puzzle_hash), 0)
        .unwrap();
    assert_eq!(pending.unsigned.coin_spends.len(), 1);
}
