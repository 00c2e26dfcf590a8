//! Singletons: launching, minting, moving and reading them back.

use chia_bls::PublicKey as BlsKey;
use chia_protocol::{Bytes32 as ChainHash, Coin, CoinSpend, Program};
use chia_puzzle_types::standard::StandardArgs;
use chia_wallet_sdk::driver::{Cat, SpendContext, StandardLayer};
use chia_wallet_sdk::types::Conditions;
use dig_wallet_backend::engine::did::{
    address_prefix, did_failed, did_string_from_launcher_id, hydrate_did, launch_did,
    launcher_id_from_did_string, transfer_did, unencodable_address,
};
use dig_wallet_backend::engine::nft::{
    bulk_mint_nfts, decode_nft_id, encode_nft_id, finish, mint_nft, transfer_nft, transfer_nft_with_metadata,
    update_nft_metadata,
};
use dig_wallet_backend::engine::singleton::{
    odd_children, reconstruct_checked, reconstruct_from_parent_spend, total_by_asset,
};
use dig_wallet_backend::engine::singleton_driver::{
    CreatedCoin, MetadataUpdate, MintSpec, UriKind, WalletNft,
};
use dig_wallet_backend::types::{
    Amount, AssetId, Bytes32, CatRecord, Network, PublicKey, WalletCoin, WalletErrorCode,
    WalletSpend,
};

const G1_GENERATOR: [u8; 48] = [
    0x97, 0xf1, 0xd3, 0xa7, 0x31, 0x97, 0xd7, 0x94, 0x26, 0x95, 0x63, 0x8c, 0x4f, 0xa9, 0xac, 0x0f,
    0xc3, 0x68, 0x8c, 0x4f, 0x97, 0x74, 0xb9, 0x05, 0xa1, 0x4e, 0x3a, 0x3f, 0x17, 0x1b, 0xac, 0x58,
    0x6c, 0x55, 0xe8, 0x3f, 0xf9, 0x7a, 0x1a, 0xef, 0xfb, 0x3a, 0xf0, 0x0a, 0xdb, 0x22, 0xc6, 0xbb,
];

fn owner_pk() -> BlsKey {
    BlsKey::from_bytes(&G1_GENERATOR).expect("the G1 generator is a valid public key")
}

fn owner_key() -> PublicKey {
    PublicKey(G1_GENERATOR)
}

fn owner_ph() -> ChainHash {
    ChainHash::from(StandardArgs::curry_tree_hash(owner_pk()).to_bytes())
}

fn hash(value: ChainHash) -> Bytes32 {
    Bytes32::new(value.to_bytes())
}

fn plain(coin: Coin) -> WalletCoin {
    WalletCoin::new(hash(coin.parent_coin_info), hash(coin.puzzle_hash), coin.amount)
}

fn plain_spend(spend: &CoinSpend) -> WalletSpend {
    WalletSpend {
        coin: plain(spend.coin),
        puzzle_reveal: spend.puzzle_reveal.to_vec(),
        solution: spend.solution.to_vec(),
    }
}

fn funding(seed: u8, amount: u64) -> WalletCoin {
    WalletCoin::new(Bytes32::new([seed; 32]), hash(owner_ph()), amount)
}

/// The spend that created a child.
fn parent_of(spends: &[WalletSpend], child: WalletCoin) -> WalletSpend {
    spends
        .iter()
        .find(|spend| spend.coin.coin_id() == child.parent_coin_info)
        .expect("the child's parent must be among the spends that created it")
        .clone()
}

fn did_launch() -> (Vec<WalletSpend>, dig_did::Did) {
    let mut ctx = SpendContext::new();
    let launch = dig_did::create_simple_did(
        &mut ctx,
        Coin::new(ChainHash::new([0x22; 32]), owner_ph(), 1),
        dig_did::Owner::Standard(owner_pk()),
    )
    .expect("the canonical DID launch builder");
    let did = launch.child.expect("a launch yields the settled DID");
    (launch.coin_spends.iter().map(plain_spend).collect(), did)
}

fn default_metadata() -> Vec<u8> {
    let mut ctx = SpendContext::new();
    let metadata = ctx
        .alloc(&chia_puzzle_types::nft::NftMetadata::default())
        .expect("the default NFT metadata allocates");
    ctx.serialize(&metadata).expect("metadata serializes").to_vec()
}

fn nft_mint() -> (Vec<WalletSpend>, dig_nft::Nft) {
    let mut ctx = SpendContext::new();
    let metadata = Program::from(default_metadata());
    let mint = dig_nft::mint(
        &mut ctx,
        &dig_nft::Owner::Standard(owner_pk()),
        Coin::new(ChainHash::new([0x44; 32]), owner_ph(), 1),
        &dig_nft::MintSpec::new(metadata, owner_ph()),
    )
    .expect("the canonical NFT mint builder");
    let nft = *mint.children.first().expect("a mint yields one NFT");
    (mint.coin_spends.iter().map(plain_spend).collect(), nft)
}

fn ordinary_payment() -> WalletSpend {
    let mut ctx = SpendContext::new();
    let funding = Coin::new(ChainHash::new([0x66; 32]), owner_ph(), 1_000);
    StandardLayer::new(owner_pk())
        .spend(
            &mut ctx,
            funding,
            Conditions::new().create_coin(
                ChainHash::new([0x77; 32]),
                900,
                chia_puzzle_types::Memos::None,
            ),
        )
        .expect("the standard layer spends the funding coin");
    plain_spend(&ctx.take().pop().expect("one coin spend"))
}

#[test]
fn a_real_did_launch_hydrates_the_did_it_created() {
    let (spends, did) = did_launch();
    let hydrated = reconstruct_from_parent_spend(&parent_of(&spends, plain(did.coin)))
        .expect("a real DID parent spend runs");
    assert_eq!(
        hydrated.dids.iter().map(|d| d.launcher_id.as_str()).collect::<Vec<_>>(),
        vec![hex::encode(did.info.launcher_id).as_str()],
        "the hydrated DID must be the one the builder actually created"
    );
    assert_eq!(hydrated.skipped, 0);
}

#[test]
fn a_real_nft_mint_hydrates_the_nft_it_created() {
    let (spends, nft) = nft_mint();
    let hydrated = reconstruct_from_parent_spend(&parent_of(&spends, plain(nft.coin)))
        .expect("a real NFT parent spend runs");
    assert_eq!(
        hydrated.nfts.iter().map(|n| n.launcher_id.as_str()).collect::<Vec<_>>(),
        vec![hex::encode(nft.info.launcher_id).as_str()],
        "the hydrated NFT must be the one the builder actually created"
    );
}

#[test]
fn an_ordinary_payment_hydrates_nothing_and_skips_nothing() {
    let hydrated =
        reconstruct_from_parent_spend(&ordinary_payment()).expect("an ordinary spend runs");
    assert!(
        hydrated.is_empty(),
        "an ordinary payment must not be reported as an NFT, DID or CAT: {hydrated:?}"
    );
    assert_eq!(hydrated.skipped, 0, "a spend that is no singleton is not a skip");
}

#[test]
fn each_family_claims_only_its_own_singleton() {
    let (did_spends, did) = did_launch();
    let did_hydrated =
        reconstruct_from_parent_spend(&parent_of(&did_spends, plain(did.coin))).unwrap();
    assert!(did_hydrated.nfts.is_empty(), "a DID is not an NFT");
    assert!(did_hydrated.cats.is_empty(), "a DID is not a CAT");
    let (nft_spends, nft) = nft_mint();
    let nft_hydrated =
        reconstruct_from_parent_spend(&parent_of(&nft_spends, plain(nft.coin))).unwrap();
    assert!(nft_hydrated.dids.is_empty(), "an NFT is not a DID");
    assert!(nft_hydrated.cats.is_empty(), "an NFT is not a CAT");
}

#[test]
fn a_spend_that_does_not_run_is_an_error_not_an_empty_result() {
    let broken = WalletSpend {
        coin: funding(0x88, 1),
        puzzle_reveal: vec![0xff],
        solution: vec![0xff],
    };
    assert!(
        reconstruct_from_parent_spend(&broken).is_err(),
        "a puzzle that cannot produce conditions must surface as an error"
    );
    assert!(reconstruct_checked(&broken).unwrap().is_err());
}

#[test]
fn a_cat_spend_hydrates_one_balance_line() {
    let mut ctx = SpendContext::new();
    let genesis = Coin::new(ChainHash::new([0x31; 32]), owner_ph(), 1_000);
    let hint = ctx.hint(owner_ph()).unwrap();
    let create = Conditions::new()
        .create_coin(owner_ph(), 400, hint)
        .create_coin(owner_ph(), 600, hint);
    let (_, cats) =
        Cat::single_issuance(&mut ctx, genesis.coin_id(), None, 1_000, create).unwrap();
    let spends: Vec<WalletSpend> = ctx.take().iter().map(plain_spend).collect();
    let hydrated =
        reconstruct_from_parent_spend(&parent_of(&spends, plain(cats[0].coin))).unwrap();
    let line = CatRecord {
        asset_id: AssetId(hex::encode(cats[0].info.asset_id)),
        balance: Amount(1_000),
        name: None,
    };
    assert_eq!(hydrated.cats, vec![line]);
    assert!(hydrated.dids.is_empty());
    let checked = reconstruct_checked(&parent_of(&spends, plain(cats[0].coin)));
    assert_eq!(checked.unwrap().unwrap(), hydrated);
}

#[test]
fn only_odd_children_are_candidates() {
    let parent = funding(1, 10);
    let child = |amount| Some(CreatedCoin { puzzle_hash: Bytes32::new([5; 32]), amount });
    let odd = odd_children(&parent, &vec![child(2), None, child(1), child(7)]);
    assert_eq!(odd.iter().map(|c| c.amount).collect::<Vec<_>>(), vec![1, 7]);
    assert!(odd.iter().all(|c| c.parent_coin_info == parent.coin_id()));
}

#[test]
fn balance_lines_come_in_order_of_appearance() {
    let (low, high) = (Bytes32::new([1; 32]), Bytes32::new([2; 32]));
    let lines = total_by_asset(&vec![(high, 5), (low, 7), (high, 6)]).unwrap();
    let seen: Vec<_> = lines.iter().map(|l| (l.asset_id.0.clone(), l.balance)).collect();
    assert_eq!(
        seen,
        vec![(hex::encode([2; 32]), Amount(11)), (hex::encode([1; 32]), Amount(7))]
    );
    assert!(total_by_asset(&vec![(low, u64::MAX), (low, 1)]).is_none());
}

#[test]
fn a_launched_did_is_read_back_from_its_parent() {
    let launched = launch_did(&funding(0x22, 1), &owner_key()).unwrap();
    let (spends, outside) = did_launch();
    assert_eq!(launched.coin_spends, spends);
    let did = launched.child.expect("a launch yields the settled DID");
    assert_eq!(did.launcher_id, hash(outside.info.launcher_id));
    assert_eq!(did.p2_puzzle_hash, hash(owner_ph()));
    assert_eq!(did.coin, plain(outside.coin));
    let read = hydrate_did(&parent_of(&launched.coin_spends, did.coin), &did.coin).unwrap();
    assert_eq!(read, did);
}

#[test]
fn an_ordinary_payment_is_no_did() {
    let spend = ordinary_payment();
    let child = WalletCoin::new(spend.coin.coin_id(), Bytes32::new([0x77; 32]), 900);
    let err = hydrate_did(&spend, &child).unwrap_err();
    assert_eq!(err.code, WalletErrorCode::SpendValidationFailed);
}

#[test]
fn a_did_move_that_the_driver_refuses_is_reported() {
    let launched = launch_did(&funding(0x22, 1), &owner_key()).unwrap();
    let did = launched.child.unwrap();
    let err =
        transfer_did(&did, &vec![0x80], &owner_key(), &Bytes32::new([0x55; 32])).unwrap_err();
    assert_eq!(err.code, WalletErrorCode::SpendValidationFailed);
    assert!(err.message.starts_with("DID transfer failed: "), "{}", err.message);
}

#[test]
fn did_faults_are_labelled() {
    let error = did_failed("launch", "broken");
    assert_eq!(error.code, WalletErrorCode::SpendValidationFailed);
    assert_eq!(error.message, "DID launch failed: broken");
    assert_eq!(
        unencodable_address("too long").message,
        "DID resolve produced an unencodable address: too long"
    );
    assert_eq!(address_prefix(Network::Mainnet), "xch");
    assert_eq!(address_prefix(Network::Testnet), "txch");
    assert_eq!(address_prefix(Network::Simulator), "txch");
}

fn linked_metadata() -> Vec<u8> {
    let mut ctx = SpendContext::new();
    let metadata = chia_puzzle_types::nft::NftMetadata {
        data_uris: vec!["https://example.com/data".into()],
        license_uris: vec!["https://example.com/license".into()],
        ..Default::default()
    };
    let metadata = ctx.alloc(&metadata).unwrap();
    ctx.serialize(&metadata).unwrap().to_vec()
}

fn mint_spec() -> MintSpec {
    MintSpec {
        metadata: default_metadata(),
        owner_puzzle_hash: hash(owner_ph()),
        royalty_basis_points: 300,
        owner_did: None,
    }
}

fn minted() -> WalletNft {
    let spec = MintSpec { metadata: linked_metadata(), ..mint_spec() };
    let mut mint = mint_nft(&funding(0x44, 1), &owner_key(), &spec).unwrap();
    assert_eq!(mint.children.len(), 1);
    assert!(mint.did_conditions.is_empty());
    mint.children.remove(0)
}

#[test]
fn a_minted_nft_is_the_one_the_driver_mints() {
    let (spends, outside) = nft_mint();
    let spec = MintSpec { royalty_basis_points: 0, ..mint_spec() };
    let mint = mint_nft(&funding(0x44, 1), &owner_key(), &spec).unwrap();
    assert_eq!(mint.coin_spends, spends);
    assert_eq!(mint.children[0].launcher_id, hash(outside.info.launcher_id));
    assert_eq!(minted().royalty_basis_points, 300);
    assert_eq!(minted().metadata, linked_metadata());
    let hydrated = reconstruct_from_parent_spend(&parent_of(
        &mint.coin_spends,
        mint.children[0].coin,
    ))
    .unwrap();
    assert_eq!(hydrated.nfts[0].launcher_id, hex::encode(mint.children[0].launcher_id.0));
}

#[test]
fn several_nfts_are_minted_at_once() {
    let mint =
        bulk_mint_nfts(&funding(0x45, 2), &owner_key(), &vec![mint_spec(), mint_spec()]).unwrap();
    assert_eq!(mint.children.len(), 2);
    assert_ne!(mint.children[0].launcher_id, mint.children[1].launcher_id);
    let none = bulk_mint_nfts(&funding(0x45, 2), &owner_key(), &vec![]).unwrap_err();
    assert_eq!(none.code, WalletErrorCode::SpendValidationFailed);
}

#[test]
fn a_transferred_nft_belongs_to_its_new_owner() {
    let nft = minted();
    let to = Bytes32::new([0x55; 32]);
    let moved = transfer_nft(&nft, &owner_key(), &to).unwrap();
    assert_eq!(moved.coin_spends[0].coin, nft.coin);
    assert_eq!(moved.children[0].p2_puzzle_hash, to);
    assert_eq!(moved.children[0].launcher_id, nft.launcher_id);
    let update = MetadataUpdate { kind: UriKind::Data, uri: "https://example.com/a".into() };
    let both = transfer_nft_with_metadata(&nft, &owner_key(), &to, &update).unwrap();
    assert_eq!(both.children[0].p2_puzzle_hash, to);
    assert_ne!(both.children[0].metadata, nft.metadata);
}

#[test]
fn an_updated_nft_keeps_its_owner() {
    let nft = minted();
    let data = MetadataUpdate { kind: UriKind::Data, uri: "https://example.com/a".into() };
    let license = MetadataUpdate { kind: UriKind::License, uri: "https://example.com/a".into() };
    let first = update_nft_metadata(&nft, &owner_key(), &data).unwrap();
    let second = update_nft_metadata(&nft, &owner_key(), &license).unwrap();
    assert_eq!(first.children[0].p2_puzzle_hash, nft.p2_puzzle_hash);
    assert_ne!(first.children[0].metadata, nft.metadata);
    assert_ne!(first.children[0].metadata, second.children[0].metadata);
    let again = update_nft_metadata(&first.children[0], &owner_key(), &data).unwrap();
    let hydrated = reconstruct_from_parent_spend(&again.coin_spends[0]).unwrap();
    assert_eq!(hydrated.nfts[0].launcher_id, hex::encode(nft.launcher_id.0));
    assert_eq!(hydrated.nfts[0].data_uri.as_deref(), Some("https://example.com/a"));
}

#[test]
fn an_nft_fault_is_labelled() {
    let err = finish("mint", Err("broken".into())).unwrap_err();
    assert_eq!(err.code, WalletErrorCode::SpendValidationFailed);
    assert_eq!(err.message, "NFT mint failed: broken");
}

#[test]
fn ids_are_written_and_read_back() {
    let launcher = ChainHash::new([0x5a; 32]);
    let did = did_string_from_launcher_id(launcher);
    assert!(did.starts_with("did:chia:"));
    assert_eq!(launcher_id_from_did_string(&did).unwrap(), launcher);
    let nft = encode_nft_id(launcher).unwrap();
    assert!(nft.starts_with("nft1"));
    assert_eq!(decode_nft_id(&nft).unwrap(), launcher);
}
