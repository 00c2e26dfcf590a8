//! The calls into the drivers that write and read singletons: `dig_did`, `dig_nft`,
//! chia-wallet-sdk and `clvmr`.
//!
//! A driver's DID or NFT points into the allocator that it was made in. The plain types here hold
//! what such a value says: the metadata as the serialized program, or as its tree hash where only
//! that is known.

use chia_protocol::Program;
use chia_puzzle_types::nft::NftMetadata;
use chia_puzzle_types::{EveProof, Proof};
use chia_wallet_sdk::driver::{Cat, DidInfo, Nft, NftInfo, Puzzle, Singleton, SpendContext};
use chia_wallet_sdk::types::Condition as ChainCondition;
use clvm_traits::{FromClvm, ToClvm};
use clvmr::ChiaDialect;
use dig_did::DidError;
use dig_nft::{
    DidRef as OutsideDidRef, MetadataUpdate as OutsideUpdate, MintSpec as OutsideSpec, NftSpend,
    UriKind as OutsideUriKind,
};
use vstd::prelude::*;

use super::driver::{bls_key, driver_conditions, plain_coin, plain_spends, protocol_coin, Condition};
use crate::types::chain::{
    spends_view, Bytes32, LineageProof, PublicKey, WalletCoin, WalletSpend, WalletSpendView,
};
use crate::types::value::texts_view;

verus! {

/// A driver's singleton.
#[verifier::external_type_specification]
#[verifier::external_body]
#[verifier::reject_recursive_types(I)]
pub struct ExSingleton<I>(chia_wallet_sdk::driver::Singleton<I>);

/// The DID part of a driver's singleton.
#[verifier::external_type_specification]
#[verifier::external_body]
pub struct ExDidInfo(chia_wallet_sdk::driver::DidInfo);

/// The NFT part of a driver's singleton.
#[verifier::external_type_specification]
#[verifier::external_body]
pub struct ExNftInfo(chia_wallet_sdk::driver::NftInfo);

/// A lineage proof in the driver's type.
#[verifier::external_type_specification]
#[verifier::external_body]
pub struct ExProof(chia_puzzle_types::Proof);

/// What an operation of `dig_nft` wrote.
#[verifier::external_type_specification]
#[verifier::external_body]
pub struct ExNftSpend(dig_nft::NftSpend);

/// A mint in the type of `dig_nft`.
#[verifier::external_type_specification]
#[verifier::external_body]
pub struct ExMintSpec(OutsideSpec);

/// A metadata update in the type of `dig_nft`.
#[verifier::external_type_specification]
#[verifier::external_body]
pub struct ExMetadataUpdate(OutsideUpdate);

/// A fault of `dig_did` in its own type.
#[verifier::external_type_specification]
#[verifier::external_body]
pub struct ExDidError(dig_did::DidError);

/// How a singleton coin shows that it descends from its launcher.
#[derive(Debug, Clone, Copy, PartialEq, Eq)]
pub enum SingletonProof {
    /// The first coin of the singleton.
    Eve {
        /// The parent of the launcher coin.
        parent_parent_coin_info: Bytes32,
        /// The value of the launcher coin.
        parent_amount: u64,
    },
    /// A later coin.
    Lineage(LineageProof),
}

/// A DID singleton.
#[derive(Debug, Clone, Copy, PartialEq, Eq)]
pub struct WalletDid {
    /// The coin.
    pub coin: WalletCoin,
    /// Its descent.
    pub descent: SingletonProof,
    /// The launcher id.
    pub launcher_id: Bytes32,
    /// The hash of the recovery list, if there is one.
    pub recovery_list_hash: Option<Bytes32>,
    /// How many verifications a recovery takes.
    pub num_verifications_required: u64,
    /// The tree hash of the metadata.
    pub metadata_hash: Bytes32,
    /// The inner puzzle hash of the owner.
    pub p2_puzzle_hash: Bytes32,
}

/// An NFT singleton.
#[derive(Debug, Clone, PartialEq, Eq)]
pub struct WalletNft {
    /// The coin.
    pub coin: WalletCoin,
    /// Its descent.
    pub descent: SingletonProof,
    /// The launcher id.
    pub launcher_id: Bytes32,
    /// The metadata as a serialized program.
    pub metadata: Vec<u8>,
    /// The puzzle hash of the metadata updater.
    pub metadata_updater_puzzle_hash: Bytes32,
    /// The singleton that the NFT is assigned to, if any.
    pub current_owner: Option<Bytes32>,
    /// Where royalties go.
    pub royalty_puzzle_hash: Bytes32,
    /// The royalty in hundredths of a percent.
    pub royalty_basis_points: u16,
    /// The inner puzzle hash of the owner.
    pub p2_puzzle_hash: Bytes32,
}

/// What a [`WalletNft`] says.
pub struct NftView {
    /// The coin.
    pub coin: WalletCoin,
    /// Its descent.
    pub descent: SingletonProof,
    /// The launcher id.
    pub launcher_id: Bytes32,
    /// The metadata.
    pub metadata: Seq<u8>,
    /// The puzzle hash of the metadata updater.
    pub metadata_updater_puzzle_hash: Bytes32,
    /// The singleton that the NFT is assigned to.
    pub current_owner: Option<Bytes32>,
    /// Where royalties go.
    pub royalty_puzzle_hash: Bytes32,
    /// The royalty.
    pub royalty_basis_points: u16,
    /// The inner puzzle hash of the owner.
    pub p2_puzzle_hash: Bytes32,
}

impl View for WalletNft {
    type V = NftView;

    open spec fn view(&self) -> NftView {
        NftView {
            coin: self.coin,
            descent: self.descent,
            launcher_id: self.launcher_id,
            metadata: self.metadata@,
            metadata_updater_puzzle_hash: self.metadata_updater_puzzle_hash,
            current_owner: self.current_owner,
            royalty_puzzle_hash: self.royalty_puzzle_hash,
            royalty_basis_points: self.royalty_basis_points,
            p2_puzzle_hash: self.p2_puzzle_hash,
        }
    }
}

/// A DID by its hashes.
#[derive(Debug, Clone, Copy, PartialEq, Eq)]
pub struct DidRef {
    /// The launcher id.
    pub launcher_id: Bytes32,
    /// The inner puzzle hash of the current coin.
    pub inner_puzzle_hash: Bytes32,
}

/// An NFT to mint.
#[derive(Debug, Clone, PartialEq, Eq)]
pub struct MintSpec {
    /// The metadata as a serialized program.
    pub metadata: Vec<u8>,
    /// The owner's inner puzzle hash, which royalties go to as well.
    pub owner_puzzle_hash: Bytes32,
    /// The royalty in hundredths of a percent.
    pub royalty_basis_points: u16,
    /// The DID to attribute the NFT to, if any.
    pub owner_did: Option<DidRef>,
}

/// What a [`MintSpec`] says.
pub struct MintSpecView {
    /// The metadata.
    pub metadata: Seq<u8>,
    /// The owner.
    pub owner_puzzle_hash: Bytes32,
    /// The royalty.
    pub royalty_basis_points: u16,
    /// The DID.
    pub owner_did: Option<DidRef>,
}

impl View for MintSpec {
    type V = MintSpecView;

    open spec fn view(&self) -> MintSpecView {
        MintSpecView {
            metadata: self.metadata@,
            owner_puzzle_hash: self.owner_puzzle_hash,
            royalty_basis_points: self.royalty_basis_points,
            owner_did: self.owner_did,
        }
    }
}

/// Which list of an NFT's metadata a URI goes to.
#[derive(Debug, Clone, Copy, PartialEq, Eq, Structural)]
pub enum UriKind {
    /// The data.
    Data,
    /// The off-chain metadata.
    Metadata,
    /// The license.
    License,
}

/// A URI to add to an NFT's metadata.
#[derive(Debug, Clone, PartialEq, Eq)]
pub struct MetadataUpdate {
    /// The list.
    pub kind: UriKind,
    /// The URI.
    pub uri: String,
}

/// What an NFT operation wrote.
#[derive(Debug, Clone, PartialEq, Eq)]
pub struct NftOperation {
    /// The unsigned coin spends, in spend order.
    pub coin_spends: Vec<WalletSpend>,
    /// The NFTs after the operation, in the order in which they were asked for.
    pub children: Vec<WalletNft>,
    /// What the attributed DID must emit in the same bundle, each condition serialized. Without
    /// these conditions an attributed mint fails.
    pub did_conditions: Vec<Vec<u8>>,
}

/// What an [`NftOperation`] says.
pub struct NftOperationView {
    /// The coin spends.
    pub coin_spends: Seq<WalletSpendView>,
    /// The NFTs.
    pub children: Seq<NftView>,
    /// What the attributed DID must emit.
    pub did_conditions: Seq<Seq<u8>>,
}

impl View for NftOperation {
    type V = NftOperationView;

    open spec fn view(&self) -> NftOperationView {
        NftOperationView {
            coin_spends: spends_view(self.coin_spends@),
            children: self.children@.map_values(|n: WalletNft| n@),
            did_conditions: self.did_conditions@.map_values(|c: Vec<u8>| c@),
        }
    }
}

/// What an NFT operation answered, over views.
pub open spec fn nft_answer(result: Result<NftOperation, String>) -> Result<
    NftOperationView,
    Seq<char>,
> {
    match result {
        Ok(operation) => Ok(operation@),
        Err(fault) => Err(fault@),
    }
}

/// Reads a proof.
#[verifier::external_body]
fn plain_proof(held: chia_puzzle_types::Proof) -> SingletonProof {
    match held {
        Proof::Eve(eve) => SingletonProof::Eve {
            parent_parent_coin_info: Bytes32(eve.parent_parent_coin_info.to_bytes()),
            parent_amount: eve.parent_amount,
        },
        Proof::Lineage(lineage) => SingletonProof::Lineage(LineageProof {
            parent_parent_coin_info: Bytes32(lineage.parent_parent_coin_info.to_bytes()),
            parent_inner_puzzle_hash: Bytes32(lineage.parent_inner_puzzle_hash.to_bytes()),
            parent_amount: lineage.parent_amount,
        }),
    }
}

/// Writes a proof in the driver's type.
#[verifier::external_body]
fn outside_proof(held: &SingletonProof) -> chia_puzzle_types::Proof {
    match *held {
        SingletonProof::Eve { parent_parent_coin_info, parent_amount } => Proof::Eve(EveProof {
            parent_parent_coin_info: parent_parent_coin_info.0.into(),
            parent_amount,
        }),
        SingletonProof::Lineage(lineage) => Proof::Lineage(chia_puzzle_types::LineageProof {
            parent_parent_coin_info: lineage.parent_parent_coin_info.0.into(),
            parent_inner_puzzle_hash: lineage.parent_inner_puzzle_hash.0.into(),
            parent_amount: lineage.parent_amount,
        }),
    }
}

/// Reads a DID.
#[verifier::external_body]
fn plain_did(did: &Singleton<DidInfo>) -> WalletDid {
    WalletDid {
        coin: plain_coin(&did.coin),
        descent: plain_proof(did.proof),
        launcher_id: Bytes32(did.info.launcher_id.to_bytes()),
        recovery_list_hash: did.info.recovery_list_hash.map(|hash| Bytes32(hash.to_bytes())),
        num_verifications_required: did.info.num_verifications_required,
        metadata_hash: Bytes32(did.info.metadata.tree_hash().to_bytes()),
        p2_puzzle_hash: Bytes32(did.info.p2_puzzle_hash.to_bytes()),
    }
}

/// Writes a DID in the driver's type, with its metadata allocated in `ctx`.
#[verifier::external_body]
fn outside_did(ctx: &mut SpendContext, did: &WalletDid, metadata: &Vec<u8>) -> Result<
    Singleton<DidInfo>,
    String,
> {
    let metadata = ctx.alloc_hashed(&Program::from(metadata.clone())).map_err(|fault| fault.to_string())?;
    let info = DidInfo::new(
        did.launcher_id.0.into(),
        did.recovery_list_hash.map(|hash| hash.0.into()),
        did.num_verifications_required,
        metadata,
        did.p2_puzzle_hash.0.into(),
    );
    Ok(Singleton::new(protocol_coin(&did.coin), outside_proof(&did.descent), info))
}

/// Reads an NFT, whose metadata is in `ctx`.
#[verifier::external_body]
fn plain_nft(ctx: &mut SpendContext, nft: &Singleton<NftInfo>) -> Result<WalletNft, String> {
    Ok(WalletNft {
        coin: plain_coin(&nft.coin),
        descent: plain_proof(nft.proof),
        launcher_id: Bytes32(nft.info.launcher_id.to_bytes()),
        metadata: ctx.serialize(&nft.info.metadata).map_err(|fault| fault.to_string())?.to_vec(),
        metadata_updater_puzzle_hash: Bytes32(nft.info.metadata_updater_puzzle_hash.to_bytes()),
        current_owner: nft.info.current_owner.map(|owner| Bytes32(owner.to_bytes())),
        royalty_puzzle_hash: Bytes32(nft.info.royalty_puzzle_hash.to_bytes()),
        royalty_basis_points: nft.info.royalty_basis_points,
        p2_puzzle_hash: Bytes32(nft.info.p2_puzzle_hash.to_bytes()),
    })
}

/// Writes an NFT in the driver's type, with its metadata allocated in `ctx`.
#[verifier::external_body]
fn outside_nft(ctx: &mut SpendContext, nft: &WalletNft) -> Result<Singleton<NftInfo>, String> {
    let metadata = Program::from(nft.metadata.clone());
    let metadata = ctx.alloc_hashed(&metadata).map_err(|fault| fault.to_string())?;
    let info = NftInfo::new(
        nft.launcher_id.0.into(),
        metadata,
        nft.metadata_updater_puzzle_hash.0.into(),
        nft.current_owner.map(|owner| owner.0.into()),
        nft.royalty_puzzle_hash.0.into(),
        nft.royalty_basis_points,
        nft.p2_puzzle_hash.0.into(),
    );
    Ok(Singleton::new(protocol_coin(&nft.coin), outside_proof(&nft.descent), info))
}

/// Writes a mint in the type of `dig_nft`.
#[verifier::external_body]
fn outside_spec(spec: &MintSpec) -> OutsideSpec {
    OutsideSpec {
        metadata: Program::from(spec.metadata.clone()),
        owner_puzzle_hash: spec.owner_puzzle_hash.0.into(),
        royalty_basis_points: spec.royalty_basis_points,
        owner_did: spec.owner_did.map(|did| OutsideDidRef {
            launcher_id: did.launcher_id.0.into(),
            inner_puzzle_hash: did.inner_puzzle_hash.0.into(),
        }),
    }
}

/// Writes a metadata update in the type of `dig_nft`.
#[verifier::external_body]
fn outside_update(update: &MetadataUpdate) -> OutsideUpdate {
    OutsideUpdate {
        kind: match update.kind {
            UriKind::Data => OutsideUriKind::Data,
            UriKind::Metadata => OutsideUriKind::Metadata,
            UriKind::License => OutsideUriKind::License,
        },
        uri: update.uri.clone(),
    }
}

/// Reads what an operation of `dig_nft` wrote in `ctx`.
#[verifier::external_body]
fn plain_operation(ctx: &mut SpendContext, made: NftSpend) -> Result<NftOperation, String> {
    let children = made.children.iter().map(|nft| plain_nft(ctx, nft)).collect::<Result<Vec<_>, _>>()?;
    let did_conditions = made.did_conditions.into_iter().map(|condition| {
        Ok(ctx.serialize(&condition).map_err(|fault| fault.to_string())?.to_vec())
    }).collect::<Result<Vec<_>, String>>()?;
    Ok(NftOperation { coin_spends: plain_spends(made.coin_spends), children, did_conditions })
}

/// The spends of a DID launch and the DID after it, or what the driver says when it cannot.
pub uninterp spec fn launched_did(
    key: PublicKey,
    funding: WalletCoin,
) -> Result<(Seq<WalletSpendView>, Option<WalletDid>), Seq<char>>;

/// Launches a DID from a funding coin.
///
/// Calls `dig_did::create_simple_did` in a fresh context with the key as a standard owner. It
/// refuses a funding coin of an even amount, and otherwise names the DID that results and spends
/// the funding coin. A key whose bytes are no point on the curve is a failure too.
#[verifier::external_body]
pub(crate) fn launch_spends(key: &PublicKey, funding: &WalletCoin) -> (result: Result<
    (Vec<WalletSpend>, Option<WalletDid>),
    String,
>)
    ensures
        match result {
            Ok((spends, child)) => {
                &&& launched_did(*key, *funding) == Ok::<
                    (Seq<WalletSpendView>, Option<WalletDid>),
                    Seq<char>,
                >((spends_view(spends@), child))
                &&& funding.amount % 2 == 1
                &&& child is Some
                &&& exists|i: int| 0 <= i < spends@.len() && (#[trigger] spends@[i]).coin == *funding
            },
            Err(fault) => launched_did(*key, *funding) == Err::<
                (Seq<WalletSpendView>, Option<WalletDid>),
                Seq<char>,
            >(fault@),
        },
{
    let mut ctx = SpendContext::new();
    let key = bls_key(key)?;
    let owner = dig_did::Owner::Standard(key);
    let made = dig_did::create_simple_did(&mut ctx, protocol_coin(funding), owner);
    let made = made.map_err(|fault| fault.to_string())?;
    Ok((plain_spends(made.coin_spends), made.child.map(|did| plain_did(&did))))
}

/// The spends of a DID spend with conditions and the DID after it, or what the driver says when
/// it cannot.
pub uninterp spec fn spent_did(
    did: WalletDid,
    metadata: Seq<u8>,
    key: PublicKey,
    conditions: Seq<Condition>,
) -> Result<(Seq<WalletSpendView>, WalletDid), Seq<char>>;

/// Spends a DID with conditions.
///
/// Calls `dig_did::spend_did_with_conditions` in a fresh context with the key as a standard owner
/// and takes the spends that it adds. A key whose bytes are no point on the curve, or metadata
/// that is no program, is a failure too.
#[verifier::external_body]
pub(crate) fn spend_did(
    did: &WalletDid,
    metadata: &Vec<u8>,
    key: &PublicKey,
    conditions: &Vec<Condition>,
) -> (result: Result<(Vec<WalletSpend>, WalletDid), String>)
    ensures
        match result {
            Ok((spends, child)) => spent_did(*did, metadata@, *key, conditions@) == Ok::<
                (Seq<WalletSpendView>, WalletDid),
                Seq<char>,
            >((spends_view(spends@), child)),
            Err(fault) => spent_did(*did, metadata@, *key, conditions@) == Err::<
                (Seq<WalletSpendView>, WalletDid),
                Seq<char>,
            >(fault@),
        },
{
    let mut ctx = SpendContext::new();
    let key = bls_key(key)?;
    let did = outside_did(&mut ctx, did, metadata)?;
    let list = driver_conditions(&mut ctx, conditions)?;
    let child = dig_did::spend_did_with_conditions(&mut ctx, did, dig_did::Owner::Standard(key), list);
    let child = child.map_err(|fault| fault.to_string())?;
    Ok((plain_spends(ctx.take()), plain_did(&child)))
}

/// Why a coin is not read as a DID.
#[derive(Debug, PartialEq, Eq)]
pub enum DidFault {
    /// The parent spend is not one of a DID; the text says so.
    NotDid(String),
    /// The parent spend creates no next DID coin; the text says so.
    MissingLineage(String),
    /// The spend could not be read; the text is the fault as it renders itself.
    Other(String),
}

/// What a [`DidFault`] says.
pub enum DidFaultView {
    /// The parent spend is not one of a DID.
    NotDid(Seq<char>),
    /// The parent spend creates no next DID coin.
    MissingLineage(Seq<char>),
    /// The spend could not be read.
    Other(Seq<char>),
}

impl View for DidFault {
    type V = DidFaultView;

    open spec fn view(&self) -> DidFaultView {
        match self {
            DidFault::NotDid(text) => DidFaultView::NotDid(text@),
            DidFault::MissingLineage(text) => DidFaultView::MissingLineage(text@),
            DidFault::Other(text) => DidFaultView::Other(text@),
        }
    }
}

/// Reads a fault of `dig_did`.
#[verifier::external_body]
fn plain_did_fault(error: dig_did::DidError) -> DidFault {
    let text = error.to_string();
    match error {
        DidError::NotDid => DidFault::NotDid(text),
        DidError::MissingLineage => DidFault::MissingLineage(text),
        _ => DidFault::Other(text),
    }
}

/// The DID that a parent spend makes of a child coin, or why it makes none.
pub uninterp spec fn hydrated_did(
    parent: WalletSpendView,
    child: WalletCoin,
) -> Result<WalletDid, DidFaultView>;

/// Reads the DID that a parent spend makes of a child coin.
///
/// Calls `dig_did::hydrate_did_from_parent_spend`.
#[verifier::external_body]
pub(crate) fn read_did(parent: &WalletSpend, child: &WalletCoin) -> (result: Result<
    WalletDid,
    DidFault,
>)
    ensures
        match result {
            Ok(did) => hydrated_did(parent@, *child) == Ok::<WalletDid, DidFaultView>(did),
            Err(fault) => hydrated_did(parent@, *child) == Err::<WalletDid, DidFaultView>(fault@),
        },
{
    let puzzle = Program::from(parent.puzzle_reveal.clone());
    let solution = Program::from(parent.solution.clone());
    let coin = protocol_coin(&parent.coin);
    let did = dig_did::hydrate_did_from_parent_spend(coin, &puzzle, &solution, protocol_coin(child));
    did.map(|did| plain_did(&did)).map_err(plain_did_fault)
}

/// What `dig_nft` writes for a mint.
pub uninterp spec fn minted_nft(
    key: PublicKey,
    funding: WalletCoin,
    spec: MintSpecView,
) -> Result<NftOperationView, Seq<char>>;

/// Mints an NFT from a funding coin.
///
/// Calls `dig_nft::mint` in a fresh context with the key as a standard owner, which makes one NFT.
/// A key whose bytes are no point on the curve is a failure too.
#[verifier::external_body]
pub(crate) fn mint_spends(key: &PublicKey, funding: &WalletCoin, spec: &MintSpec) -> (result: Result<
    NftOperation,
    String,
>)
    ensures
        nft_answer(result) == minted_nft(*key, *funding, spec@),
        result matches Ok(operation) ==> operation.children@.len() == 1,
{
    let mut ctx = SpendContext::new();
    let key = bls_key(key)?;
    let owner = dig_nft::Owner::Standard(key);
    let made = dig_nft::mint(&mut ctx, &owner, protocol_coin(funding), &outside_spec(spec));
    plain_operation(&mut ctx, made.map_err(|fault| fault.to_string())?)
}

/// What `dig_nft` writes for a mint of several NFTs.
pub uninterp spec fn minted_nfts(
    key: PublicKey,
    funding: WalletCoin,
    specs: Seq<MintSpecView>,
) -> Result<NftOperationView, Seq<char>>;

/// What a list of mints says.
pub open spec fn specs_view(specs: Seq<MintSpec>) -> Seq<MintSpecView> {
    specs.map_values(|s: MintSpec| s@)
}

/// Mints several NFTs from one funding coin.
///
/// Calls `dig_nft::bulk_mint` in a fresh context with the key as a standard owner. It refuses an
/// empty list, and otherwise makes one NFT for each entry. A key whose bytes are no point on the
/// curve is a failure too.
#[verifier::external_body]
pub(crate) fn bulk_mint_spends(key: &PublicKey, funding: &WalletCoin, specs: &Vec<MintSpec>) -> (result:
    Result<NftOperation, String>)
    ensures
        nft_answer(result) == minted_nfts(*key, *funding, specs_view(specs@)),
        result matches Ok(operation) ==> specs@.len() > 0 && operation.children@.len()
            == specs@.len(),
{
    let mut ctx = SpendContext::new();
    let key = bls_key(key)?;
    let owner = dig_nft::Owner::Standard(key);
    let specs = specs.iter().map(outside_spec).collect::<Vec<OutsideSpec>>();
    let made = dig_nft::bulk_mint(&mut ctx, &owner, protocol_coin(funding), &specs);
    plain_operation(&mut ctx, made.map_err(|fault| fault.to_string())?)
}

/// What `dig_nft` writes for a transfer.
pub uninterp spec fn transferred_nft(
    nft: NftView,
    key: PublicKey,
    new_owner: Bytes32,
) -> Result<NftOperationView, Seq<char>>;

/// Transfers an NFT.
///
/// Calls `dig_nft::transfer` in a fresh context with the key as a standard owner, which leaves
/// one NFT and asks nothing of a DID. A key whose bytes are no point on the curve, or metadata
/// that is no program, is a failure too.
#[verifier::external_body]
pub(crate) fn transfer_spends(nft: &WalletNft, key: &PublicKey, new_owner: &Bytes32) -> (result: Result<
    NftOperation,
    String,
>)
    ensures
        nft_answer(result) == transferred_nft(nft@, *key, *new_owner),
        result matches Ok(operation) ==> operation.children@.len() == 1
            && operation.did_conditions@.len() == 0,
{
    let mut ctx = SpendContext::new();
    let key = bls_key(key)?;
    let owner = dig_nft::Owner::Standard(key);
    let nft = outside_nft(&mut ctx, nft)?;
    let made = dig_nft::transfer(&mut ctx, &owner, nft, new_owner.0.into());
    plain_operation(&mut ctx, made.map_err(|fault| fault.to_string())?)
}

/// What `dig_nft` writes for a transfer with a metadata update.
pub uninterp spec fn transferred_nft_with_metadata(
    nft: NftView,
    key: PublicKey,
    new_owner: Bytes32,
    kind: UriKind,
    uri: Seq<char>,
) -> Result<NftOperationView, Seq<char>>;

/// Transfers an NFT and updates its metadata.
///
/// Calls `dig_nft::transfer_with_metadata` in a fresh context with the key as a standard owner,
/// which leaves one NFT and asks nothing of a DID. A key whose bytes are no point on the curve, or
/// metadata that is no program, is a failure too.
#[verifier::external_body]
pub(crate) fn transfer_with_metadata_spends(
    nft: &WalletNft,
    key: &PublicKey,
    new_owner: &Bytes32,
    update: &MetadataUpdate,
) -> (result: Result<NftOperation, String>)
    ensures
        nft_answer(result) == transferred_nft_with_metadata(
            nft@,
            *key,
            *new_owner,
            update.kind,
            update.uri@,
        ),
        result matches Ok(operation) ==> operation.children@.len() == 1
            && operation.did_conditions@.len() == 0,
{
    let mut ctx = SpendContext::new();
    let key = bls_key(key)?;
    let owner = dig_nft::Owner::Standard(key);
    let nft = outside_nft(&mut ctx, nft)?;
    let update = outside_update(update);
    let made = dig_nft::transfer_with_metadata(&mut ctx, &owner, nft, new_owner.0.into(), &update);
    plain_operation(&mut ctx, made.map_err(|fault| fault.to_string())?)
}

/// What `dig_nft` writes for a metadata update.
pub uninterp spec fn updated_nft(
    nft: NftView,
    key: PublicKey,
    kind: UriKind,
    uri: Seq<char>,
) -> Result<NftOperationView, Seq<char>>;

/// Updates the metadata of an NFT.
///
/// Calls `dig_nft::update_metadata` in a fresh context with the key as a standard owner, which
/// leaves one NFT and asks nothing of a DID. A key whose bytes are no point on the curve, or
/// metadata that is no program, is a failure too.
#[verifier::external_body]
pub(crate) fn update_spends(nft: &WalletNft, key: &PublicKey, update: &MetadataUpdate) -> (result: Result<
    NftOperation,
    String,
>)
    ensures
        nft_answer(result) == updated_nft(nft@, *key, update.kind, update.uri@),
        result matches Ok(operation) ==> operation.children@.len() == 1
            && operation.did_conditions@.len() == 0,
{
    let mut ctx = SpendContext::new();
    let key = bls_key(key)?;
    let owner = dig_nft::Owner::Standard(key);
    let nft = outside_nft(&mut ctx, nft)?;
    let made = dig_nft::update_metadata(&mut ctx, &owner, nft, &outside_update(update));
    plain_operation(&mut ctx, made.map_err(|fault| fault.to_string())?)
}

/// Decodes a serialized program with `Program::to_clvm`.
#[verifier::external_body]
fn program_in(ctx: &mut SpendContext, bytes: &Vec<u8>) -> Result<clvmr::NodePtr, String> {
    let decoded = Program::from(bytes.clone()).to_clvm(&mut **ctx);
    decoded.map_err(|fault| format!("{fault:?}"))
}

/// What the decoder says of bytes that are no serialized program.
pub uninterp spec fn program_fault(bytes: Seq<u8>) -> Option<Seq<char>>;

/// What is wrong with the bytes of a serialized program, if anything is.
///
/// Calls `Program::to_clvm` with a fresh allocator.
#[verifier::external_body]
pub(crate) fn decode_fault(bytes: &Vec<u8>) -> (fault: Option<String>)
    ensures
        match fault {
            Some(text) => program_fault(bytes@) == Some(text@),
            None => program_fault(bytes@) is None,
        },
{
    program_in(&mut SpendContext::new(), bytes).err()
}

/// The NFT that a spend creates.
#[derive(Debug, PartialEq, Eq)]
pub enum ParsedNft {
    /// An NFT.
    Child {
        /// The launcher id.
        launcher_id: Bytes32,
        /// The data URIs, when the metadata has the standard shape.
        data_uris: Option<Vec<String>>,
    },
    /// The spend is not one of an NFT.
    NotNft,
    /// The spend looked like one of an NFT and could not be read.
    Failed,
}

/// What a [`ParsedNft`] says.
pub enum ParsedNftView {
    /// An NFT.
    Child {
        /// The launcher id.
        launcher_id: Bytes32,
        /// The data URIs.
        data_uris: Option<Seq<Seq<char>>>,
    },
    /// The spend is not one of an NFT.
    NotNft,
    /// The spend could not be read.
    Failed,
}

impl View for ParsedNft {
    type V = ParsedNftView;

    open spec fn view(&self) -> ParsedNftView {
        match self {
            ParsedNft::Child { launcher_id, data_uris } => ParsedNftView::Child {
                launcher_id: *launcher_id,
                data_uris: match data_uris {
                    Some(uris) => Some(texts_view(uris@)),
                    None => None,
                },
            },
            ParsedNft::NotNft => ParsedNftView::NotNft,
            ParsedNft::Failed => ParsedNftView::Failed,
        }
    }
}

/// The NFT that a spend creates.
pub uninterp spec fn nft_child_of(spend: WalletSpendView) -> ParsedNftView;

/// Reads the NFT that a spend creates.
///
/// Calls `Nft::parse_child`, and `NftMetadata::from_clvm` on the metadata of the NFT. A spend that
/// does not decode is one that could not be read.
#[verifier::external_body]
pub(crate) fn read_nft(spend: &WalletSpend) -> (parsed: ParsedNft)
    ensures
        parsed@ == nft_child_of(spend@),
{
    let mut ctx = SpendContext::new();
    let Ok(puzzle) = program_in(&mut ctx, &spend.puzzle_reveal) else { return ParsedNft::Failed };
    let Ok(solution) = program_in(&mut ctx, &spend.solution) else { return ParsedNft::Failed };
    let puzzle = Puzzle::parse(&ctx, puzzle);
    match Nft::parse_child(&mut ctx, protocol_coin(&spend.coin), puzzle, solution) {
        Ok(Some(nft)) => ParsedNft::Child {
            launcher_id: Bytes32(nft.info.launcher_id.to_bytes()),
            data_uris: NftMetadata::from_clvm(&*ctx, nft.info.metadata.ptr()).ok().map(|held| held.data_uris),
        },
        Ok(None) => ParsedNft::NotNft,
        Err(_) => ParsedNft::Failed,
    }
}

/// A coin that a spend asks to create.
#[derive(Debug, Clone, Copy, PartialEq, Eq)]
pub struct CreatedCoin {
    /// The puzzle hash.
    pub puzzle_hash: Bytes32,
    /// The value.
    pub amount: u64,
}

/// Why a spend did not run.
#[derive(Debug, PartialEq, Eq)]
pub enum RunFault {
    /// The puzzle is no program.
    Puzzle(String),
    /// The solution is no program.
    Solution(String),
    /// The puzzle failed on the solution.
    Run(String),
    /// The output is no list of conditions.
    Conditions(String),
}

/// What a [`RunFault`] says.
pub enum RunFaultView {
    /// The puzzle is no program.
    Puzzle(Seq<char>),
    /// The solution is no program.
    Solution(Seq<char>),
    /// The puzzle failed on the solution.
    Run(Seq<char>),
    /// The output is no list of conditions.
    Conditions(Seq<char>),
}

impl View for RunFault {
    type V = RunFaultView;

    open spec fn view(&self) -> RunFaultView {
        match self {
            RunFault::Puzzle(text) => RunFaultView::Puzzle(text@),
            RunFault::Solution(text) => RunFaultView::Solution(text@),
            RunFault::Run(text) => RunFaultView::Run(text@),
            RunFault::Conditions(text) => RunFaultView::Conditions(text@),
        }
    }
}

/// Runs a program with `clvmr::run_program`, in the base dialect and without a cost limit.
#[verifier::external_body]
fn output_in(ctx: &mut SpendContext, puzzle: clvmr::NodePtr, solution: clvmr::NodePtr) -> Result<
    clvmr::NodePtr,
    String,
> {
    let ran = clvmr::run_program(ctx, &ChiaDialect::new(0), puzzle, solution, u64::MAX);
    ran.map(|reduction| reduction.1).map_err(|fault| format!("{fault:?}"))
}

/// The conditions that a spend emits, one entry each: the coin to create, or nothing for another
/// condition.
pub uninterp spec fn conditions_of(spend: WalletSpendView) -> Result<
    Seq<Option<CreatedCoin>>,
    RunFaultView,
>;

/// Runs a spend and reads its conditions.
///
/// Calls `clvmr::run_program` with the base dialect and no cost limit, and reads the output as
/// chia-wallet-sdk conditions, one entry each.
#[verifier::external_body]
pub(crate) fn run_spend(spend: &WalletSpend) -> (result: Result<Vec<Option<CreatedCoin>>, RunFault>)
    ensures
        match result {
            Ok(created) => conditions_of(spend@) == Ok::<Seq<Option<CreatedCoin>>, RunFaultView>(
                created@,
            ),
            Err(fault) => conditions_of(spend@) == Err::<Seq<Option<CreatedCoin>>, RunFaultView>(
                fault@,
            ),
        },
{
    let mut ctx = SpendContext::new();
    let puzzle = program_in(&mut ctx, &spend.puzzle_reveal).map_err(RunFault::Puzzle)?;
    let solution = program_in(&mut ctx, &spend.solution).map_err(RunFault::Solution)?;
    let output = output_in(&mut ctx, puzzle, solution).map_err(RunFault::Run)?;
    let read = Vec::<ChainCondition>::from_clvm(&*ctx, output);
    let read = read.map_err(|fault| RunFault::Conditions(format!("{fault:?}")))?;
    Ok(read.into_iter().map(|condition| condition.into_create_coin().map(|made| {
        CreatedCoin { puzzle_hash: Bytes32(made.puzzle_hash.to_bytes()), amount: made.amount }
    })).collect())
}

/// The CAT coins that a spend creates.
#[derive(Debug, PartialEq, Eq)]
pub enum ParsedCats {
    /// CAT coins: the asset and the amount of each.
    Children(Vec<(Bytes32, u64)>),
    /// The spend is not one of a CAT.
    NotCat,
    /// The spend looked like one of a CAT and could not be read.
    Failed,
}

/// What [`ParsedCats`] says.
pub enum ParsedCatsView {
    /// CAT coins.
    Children(Seq<(Bytes32, u64)>),
    /// The spend is not one of a CAT.
    NotCat,
    /// The spend could not be read.
    Failed,
}

impl View for ParsedCats {
    type V = ParsedCatsView;

    open spec fn view(&self) -> ParsedCatsView {
        match self {
            ParsedCats::Children(children) => ParsedCatsView::Children(children@),
            ParsedCats::NotCat => ParsedCatsView::NotCat,
            ParsedCats::Failed => ParsedCatsView::Failed,
        }
    }
}

/// The CAT coins that a spend creates.
pub uninterp spec fn cat_children_of(spend: WalletSpendView) -> ParsedCatsView;

/// Reads the CAT coins that a spend creates.
///
/// Calls `Cat::parse_children`. A spend that does not decode is one that could not be read.
#[verifier::external_body]
pub(crate) fn read_cats(spend: &WalletSpend) -> (parsed: ParsedCats)
    ensures
        parsed@ == cat_children_of(spend@),
{
    let mut ctx = SpendContext::new();
    let Ok(puzzle) = program_in(&mut ctx, &spend.puzzle_reveal) else { return ParsedCats::Failed };
    let Ok(solution) = program_in(&mut ctx, &spend.solution) else { return ParsedCats::Failed };
    let puzzle = Puzzle::parse(&ctx, puzzle);
    match Cat::parse_children(&mut ctx, protocol_coin(&spend.coin), puzzle, solution) {
        Ok(Some(children)) => ParsedCats::Children(children.iter().map(|cat| {
            (Bytes32(cat.info.asset_id.to_bytes()), cat.coin.amount)
        }).collect()),
        Ok(None) => ParsedCats::NotCat,
        Err(_) => ParsedCats::Failed,
    }
}

} // verus!
