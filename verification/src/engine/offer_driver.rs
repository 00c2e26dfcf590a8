//! The calls into `dig_offers`.
//!
//! Both sides of an offer are plain values here; each call writes them in the crate's own types,
//! in a context of its own. No NFT leg is ever built, so nothing has to outlive such a context.

use std::marker::PhantomData;

use chia_wallet_sdk::driver::SpendContext;
use vstd::prelude::*;

use super::driver::{bls_key, driver_cat, plain_spends, protocol_coin, protocol_spends};
use crate::types::chain::{
    spends_view, total_of_coins, Bytes32, PublicKey, Signature, WalletBundle, WalletBundleView,
    WalletCat, WalletCoin, WalletSpend, WalletSpendView,
};
use crate::types::value::texts_view;

verus! {

/// The error type of `dig_offers`.
#[verifier::external_type_specification]
#[verifier::external_body]
pub struct ExOfferError(dig_offers::Error);

/// The maker's side in the type of `dig_offers`.
#[verifier::external_type_specification]
#[verifier::external_body]
pub struct ExOfferedSide<'a>(dig_offers::OfferedSide<'a>);

/// The requested side in the type of `dig_offers`.
#[verifier::external_type_specification]
#[verifier::external_body]
pub struct ExRequestedSide(dig_offers::RequestedSide);

/// The taker's side in the type of `dig_offers`.
#[verifier::external_type_specification]
#[verifier::external_body]
pub struct ExTakerFunds<'a>(dig_offers::TakerFunds<'a>);

/// A signed bundle in the protocol's own type.
#[verifier::external_type_specification]
#[verifier::external_body]
pub struct ExProtocolBundle(chia_protocol::SpendBundle);

/// Why an offer operation failed: one variant for each of the crate's own, with its text.
#[derive(Debug)]
pub enum OfferFault {
    /// The input cannot make a valid offer.
    InvalidInput(String),
    /// The offer text is malformed.
    Decode(String),
    /// Offers cannot be combined.
    Incompatible(String),
    /// A driver failed.
    Driver(String),
    /// The signature extraction failed.
    Signer(String),
}

/// What an [`OfferFault`] says.
pub enum OfferFaultView {
    /// The input cannot make a valid offer.
    InvalidInput(Seq<char>),
    /// The offer text is malformed.
    Decode(Seq<char>),
    /// Offers cannot be combined.
    Incompatible(Seq<char>),
    /// A driver failed.
    Driver(Seq<char>),
    /// The signature extraction failed.
    Signer(Seq<char>),
}

impl View for OfferFault {
    type V = OfferFaultView;

    open spec fn view(&self) -> OfferFaultView {
        match self {
            OfferFault::InvalidInput(text) => OfferFaultView::InvalidInput(text@),
            OfferFault::Decode(text) => OfferFaultView::Decode(text@),
            OfferFault::Incompatible(text) => OfferFaultView::Incompatible(text@),
            OfferFault::Driver(text) => OfferFaultView::Driver(text@),
            OfferFault::Signer(text) => OfferFaultView::Signer(text@),
        }
    }
}

/// The ordered map of `indexmap`.
#[verifier::external_type_specification]
#[verifier::external_body]
#[verifier::reject_recursive_types(K)]
#[verifier::reject_recursive_types(V)]
#[verifier::reject_recursive_types(S)]
pub struct ExIndexMap<K, V, S>(indexmap::IndexMap<K, V, S>);

/// The keys that a map holds, each with the puzzle hash that it authorizes, in the order of the
/// map.
pub uninterp spec fn keys_in(map: indexmap::IndexMap<[u8; 32], [u8; 48]>) -> Seq<
    (Bytes32, PublicKey),
>;

/// Whether a puzzle hash has a key in the list.
pub open spec fn has_owner(keys: Seq<(Bytes32, PublicKey)>, puzzle_hash: Bytes32) -> bool {
    exists|i: int| 0 <= i < keys.len() && (#[trigger] keys[i]).0 == puzzle_hash
}

/// The list with a key for a puzzle hash: a known puzzle hash keeps its place and takes the new
/// key, an unknown one comes last.
pub open spec fn with_owner(
    keys: Seq<(Bytes32, PublicKey)>,
    puzzle_hash: Bytes32,
    key: PublicKey,
) -> Seq<(Bytes32, PublicKey)> {
    if has_owner(keys, puzzle_hash) {
        keys.map_values(
            |k: (Bytes32, PublicKey)|
                if k.0 == puzzle_hash {
                    (puzzle_hash, key)
                } else {
                    k
                },
        )
    } else {
        keys.push((puzzle_hash, key))
    }
}

/// A map without keys.
///
/// Calls `IndexMap::new`.
#[verifier::external_body]
pub(crate) fn no_owner_keys() -> (map: indexmap::IndexMap<[u8; 32], [u8; 48]>)
    ensures
        keys_in(map) == Seq::<(Bytes32, PublicKey)>::empty(),
{
    indexmap::IndexMap::new()
}

/// Whether the map has a key for a puzzle hash.
///
/// Calls `IndexMap::contains_key`.
#[verifier::external_body]
pub(crate) fn contains_owner(
    map: &indexmap::IndexMap<[u8; 32], [u8; 48]>,
    puzzle_hash: &Bytes32,
) -> (held: bool)
    ensures
        held == has_owner(keys_in(*map), *puzzle_hash),
{
    map.contains_key(&puzzle_hash.0)
}

/// Sets the key of a puzzle hash.
///
/// Calls `IndexMap::insert`: a known puzzle hash keeps its place in the order and takes the new
/// key, an unknown one comes last.
#[verifier::external_body]
pub(crate) fn insert_owner(
    map: &mut indexmap::IndexMap<[u8; 32], [u8; 48]>,
    puzzle_hash: &Bytes32,
    key: &PublicKey,
)
    ensures
        keys_in(*final(map)) == with_owner(keys_in(*old(map)), *puzzle_hash, *key),
{
    map.insert(puzzle_hash.0, key.0);
}

/// Whether the map has no key at all.
///
/// Calls `IndexMap::is_empty`.
#[verifier::external_body]
pub(crate) fn lacks_owners(map: &indexmap::IndexMap<[u8; 32], [u8; 48]>) -> (empty: bool)
    ensures
        empty == (keys_in(*map).len() == 0),
{
    map.is_empty()
}

/// The maker's side of a make: the coins to offer from, the keys that authorize them, the
/// amounts offered and where change goes.
#[derive(Debug)]
pub struct MakerSide {
    /// Where change goes.
    pub change_puzzle_hash: Bytes32,
    /// The key of each funding puzzle hash.
    pub owner_keys: indexmap::IndexMap<[u8; 32], [u8; 48]>,
    /// The XCH coins.
    pub xch_coins: Vec<WalletCoin>,
    /// The CAT coins.
    pub cat_coins: Vec<WalletCat>,
    /// The XCH offered.
    pub offer_xch: u64,
    /// The CATs offered: asset and amount.
    pub offer_cats: Vec<(Bytes32, u64)>,
}

/// What a [`MakerSide`] says.
pub struct MakerSideView {
    /// Where change goes.
    pub change_puzzle_hash: Bytes32,
    /// The keys.
    pub owner_keys: Seq<(Bytes32, PublicKey)>,
    /// The XCH coins.
    pub xch_coins: Seq<WalletCoin>,
    /// The CAT coins.
    pub cat_coins: Seq<WalletCat>,
    /// The XCH offered.
    pub offer_xch: u64,
    /// The CATs offered.
    pub offer_cats: Seq<(Bytes32, u64)>,
}

impl View for MakerSide {
    type V = MakerSideView;

    open spec fn view(&self) -> MakerSideView {
        MakerSideView {
            change_puzzle_hash: self.change_puzzle_hash,
            owner_keys: keys_in(self.owner_keys),
            xch_coins: self.xch_coins@,
            cat_coins: self.cat_coins@,
            offer_xch: self.offer_xch,
            offer_cats: self.offer_cats@,
        }
    }
}

/// What a maker asks for: who is paid, and how much of each asset.
#[derive(Debug)]
pub struct AskedSide {
    /// Who is paid.
    pub payee_puzzle_hash: Bytes32,
    /// The XCH requested.
    pub xch: u64,
    /// The CATs requested: asset and amount.
    pub cats: Vec<(Bytes32, u64)>,
}

/// What an [`AskedSide`] says.
pub struct AskedSideView {
    /// Who is paid.
    pub payee_puzzle_hash: Bytes32,
    /// The XCH requested.
    pub xch: u64,
    /// The CATs requested.
    pub cats: Seq<(Bytes32, u64)>,
}

impl View for AskedSide {
    type V = AskedSideView;

    open spec fn view(&self) -> AskedSideView {
        AskedSideView {
            payee_puzzle_hash: self.payee_puzzle_hash,
            xch: self.xch,
            cats: self.cats@,
        }
    }
}

/// The taker's side of a take: the coins to pay from, the keys that authorize them and where
/// change and the received assets go.
#[derive(Debug)]
pub struct TakerSide {
    /// Where change and the received assets go.
    pub change_puzzle_hash: Bytes32,
    /// The key of each funding puzzle hash.
    pub owner_keys: indexmap::IndexMap<[u8; 32], [u8; 48]>,
    /// The XCH coins.
    pub xch_coins: Vec<WalletCoin>,
    /// The CAT coins.
    pub cat_coins: Vec<WalletCat>,
}

/// What a [`TakerSide`] says.
pub struct TakerSideView {
    /// Where change goes.
    pub change_puzzle_hash: Bytes32,
    /// The keys.
    pub owner_keys: Seq<(Bytes32, PublicKey)>,
    /// The XCH coins.
    pub xch_coins: Seq<WalletCoin>,
    /// The CAT coins.
    pub cat_coins: Seq<WalletCat>,
}

impl View for TakerSide {
    type V = TakerSideView;

    open spec fn view(&self) -> TakerSideView {
        TakerSideView {
            change_puzzle_hash: self.change_puzzle_hash,
            owner_keys: keys_in(self.owner_keys),
            xch_coins: self.xch_coins@,
            cat_coins: self.cat_coins@,
        }
    }
}

/// One payment that an offer asks for.
#[derive(Debug, Clone, Copy, PartialEq, Eq)]
pub struct AskedPayment {
    /// The asset; `None` is native XCH.
    pub asset_id: Option<Bytes32>,
    /// Who is paid.
    pub puzzle_hash: Bytes32,
    /// The amount in base units.
    pub amount: u64,
}

/// The taker's unsigned spends, with the payments that the offer asks for: the XCH payments
/// first, then those of each CAT.
#[derive(Debug)]
pub struct TakePlan {
    /// The taker's coin spends.
    pub coin_spends: Vec<WalletSpend>,
    /// The payments.
    pub payments: Vec<AskedPayment>,
}

/// What a [`TakePlan`] says.
pub struct TakePlanView {
    /// The taker's coin spends.
    pub coin_spends: Seq<WalletSpendView>,
    /// The payments.
    pub payments: Seq<AskedPayment>,
}

impl View for TakePlan {
    type V = TakePlanView;

    open spec fn view(&self) -> TakePlanView {
        TakePlanView { coin_spends: spends_view(self.coin_spends@), payments: self.payments@ }
    }
}

/// One asset leg of an offer.
#[derive(Debug, Clone, Copy, PartialEq, Eq)]
pub enum LegAsset {
    /// Native XCH.
    Xch(u64),
    /// A CAT.
    Cat {
        /// The asset.
        asset_id: Bytes32,
        /// The amount.
        amount: u64,
    },
    /// An NFT.
    Nft {
        /// The launcher id.
        launcher_id: Bytes32,
    },
}

/// What `dig_offers::summarize` reports of an offer.
#[derive(Debug)]
pub struct OfferFacts {
    /// What the offer gives.
    pub offered: Vec<LegAsset>,
    /// What the offer asks for.
    pub requested: Vec<LegAsset>,
    /// The XCH that a taker has to fund.
    pub cost_xch: u64,
    /// The CATs that a taker has to fund.
    pub cost_cats: Vec<(Bytes32, u64)>,
    /// The royalties: NFT launcher id and basis points.
    pub royalties: Vec<(Bytes32, u16)>,
}

/// What [`OfferFacts`] say.
pub struct OfferFactsView {
    /// What the offer gives.
    pub offered: Seq<LegAsset>,
    /// What the offer asks for.
    pub requested: Seq<LegAsset>,
    /// The XCH that a taker has to fund.
    pub cost_xch: u64,
    /// The CATs that a taker has to fund.
    pub cost_cats: Seq<(Bytes32, u64)>,
    /// The royalties.
    pub royalties: Seq<(Bytes32, u16)>,
}

impl View for OfferFacts {
    type V = OfferFactsView;

    open spec fn view(&self) -> OfferFactsView {
        OfferFactsView {
            offered: self.offered@,
            requested: self.requested@,
            cost_xch: self.cost_xch,
            cost_cats: self.cost_cats@,
            royalties: self.royalties@,
        }
    }
}

/// Reads an error of `dig_offers`, variant by variant.
#[verifier::external_body]
fn plain_fault(error: dig_offers::Error) -> OfferFault {
    match error {
        dig_offers::Error::InvalidInput(text) => OfferFault::InvalidInput(text),
        dig_offers::Error::Decode(text) => OfferFault::Decode(text),
        dig_offers::Error::Incompatible(text) => OfferFault::Incompatible(text),
        dig_offers::Error::Driver(fault) => OfferFault::Driver(format!("{fault:?}")),
        dig_offers::Error::Signer(fault) => OfferFault::Signer(format!("{fault:?}")),
    }
}

/// Writes the maker's side in the type of `dig_offers`.
#[verifier::external_body]
fn outside_maker(side: &MakerSide) -> Result<dig_offers::OfferedSide<'static>, OfferFault> {
    Ok(dig_offers::OfferedSide {
        change_puzzle_hash: side.change_puzzle_hash.0.into(),
        owner_keys: side.owner_keys.iter().map(|(hash, key)| {
            Ok(((*hash).into(), bls_key(&PublicKey(*key)).map_err(OfferFault::Driver)?))
        }).collect::<Result<_, OfferFault>>()?,
        xch_coins: side.xch_coins.iter().map(protocol_coin).collect(),
        cat_coins: side.cat_coins.iter().map(driver_cat).collect(),
        nfts: Vec::new(),
        offer_xch: side.offer_xch,
        offer_cats: side.offer_cats.iter().map(|(asset, amount)| (asset.0.into(), *amount)).collect(),
        _pd: PhantomData,
    })
}

/// Writes the requested side in the type of `dig_offers`.
#[verifier::external_body]
fn outside_request(asked: &AskedSide) -> dig_offers::RequestedSide {
    dig_offers::RequestedSide {
        payee_puzzle_hash: asked.payee_puzzle_hash.0.into(),
        xch: asked.xch,
        cats: asked.cats.iter().map(|(asset, amount)| (asset.0.into(), *amount)).collect(),
        nfts: Vec::new(),
    }
}

/// Writes the taker's side in the type of `dig_offers`.
#[verifier::external_body]
fn outside_taker(side: &TakerSide) -> Result<dig_offers::TakerFunds<'static>, OfferFault> {
    Ok(dig_offers::TakerFunds {
        change_puzzle_hash: side.change_puzzle_hash.0.into(),
        owner_keys: side.owner_keys.iter().map(|(hash, key)| {
            Ok(((*hash).into(), bls_key(&PublicKey(*key)).map_err(OfferFault::Driver)?))
        }).collect::<Result<_, OfferFault>>()?,
        xch_coins: side.xch_coins.iter().map(protocol_coin).collect(),
        cat_coins: side.cat_coins.iter().map(driver_cat).collect(),
        nfts: Vec::new(),
        _pd: PhantomData,
    })
}

/// Writes a signed bundle in the protocol's own type.
#[verifier::external_body]
fn outside_bundle(bundle: &WalletBundle) -> Result<chia_protocol::SpendBundle, OfferFault> {
    let signature = chia_bls::Signature::from_bytes(&bundle.aggregated_signature.0);
    let signature = signature.map_err(|fault| OfferFault::Signer(format!("{fault:?}")))?;
    Ok(chia_protocol::SpendBundle::new(protocol_spends(&bundle.coin_spends), signature))
}

/// Whether the amounts of a make stay within a machine word wherever `dig_offers` adds them up.
/// It draws coins from the largest down until they reach what is needed, so what it draws is less
/// than the need and one coin more, and no more than all the coins. The offered XCH with the fee
/// fits unless the coins cannot reach it. For every asset, what each leg of it draws is added up.
pub open spec fn make_fits(side: MakerSideView, fee: u64) -> bool {
    &&& total_of_coins(side.xch_coins) <= u64::MAX || forall|i: int|
        0 <= i < side.xch_coins.len() ==> side.offer_xch + fee + (
        #[trigger] side.xch_coins[i]).amount <= u64::MAX
    &&& side.offer_xch + fee <= u64::MAX || total_of_coins(side.xch_coins) < u64::MAX
    &&& forall|asset: Bytes32|
        {
            ||| #[trigger] legs_of(side.offer_cats, asset) * asset_total(side.cat_coins, asset)
                <= u64::MAX
            ||| legs_sum(side.offer_cats, asset) + legs_of(side.offer_cats, asset) * asset_largest(
                side.cat_coins,
                asset,
            ) <= u64::MAX
        }
}

/// What the legs of an asset offer in total.
pub open spec fn legs_sum(legs: Seq<(Bytes32, u64)>, asset: Bytes32) -> nat
    decreases legs.len(),
{
    if legs.len() == 0 {
        0
    } else {
        legs_sum(legs.drop_last(), asset) + if legs.last().0 == asset {
            legs.last().1 as nat
        } else {
            0nat
        }
    }
}

/// The most that one coin of an asset holds.
pub open spec fn asset_largest(cats: Seq<WalletCat>, asset: Bytes32) -> nat
    decreases cats.len(),
{
    if cats.len() == 0 {
        0
    } else {
        let before = asset_largest(cats.drop_last(), asset);
        if cats.last().asset_id == asset && cats.last().coin.amount > before {
            cats.last().coin.amount as nat
        } else {
            before
        }
    }
}

/// How many legs name an asset.
pub open spec fn legs_of(legs: Seq<(Bytes32, u64)>, asset: Bytes32) -> nat
    decreases legs.len(),
{
    if legs.len() == 0 {
        0
    } else {
        legs_of(legs.drop_last(), asset) + if legs.last().0 == asset {
            1nat
        } else {
            0nat
        }
    }
}

/// What the CAT coins of one asset hold.
pub open spec fn asset_total(cats: Seq<WalletCat>, asset: Bytes32) -> nat
    decreases cats.len(),
{
    if cats.len() == 0 {
        0
    } else {
        asset_total(cats.drop_last(), asset) + if cats.last().asset_id == asset {
            cats.last().coin.amount as nat
        } else {
            0nat
        }
    }
}

/// The maker's spends that `dig_offers` builds for an offer.
pub uninterp spec fn made_spends(side: MakerSideView, asked: AskedSideView, fee: u64) -> Result<
    Seq<WalletSpendView>,
    OfferFaultView,
>;

/// Builds the maker's unsigned spends.
///
/// Calls `dig_offers::make_build` in a fresh context and takes the coin spends.
#[verifier::external_body]
pub(crate) fn make_spends(side: &MakerSide, asked: &AskedSide, fee: u64) -> (result: Result<
    Vec<WalletSpend>,
    OfferFault,
>)
    requires
        make_fits(side@, fee),
    ensures
        match result {
            Ok(spends) => made_spends(side@, asked@, fee) == Ok::<
                Seq<WalletSpendView>,
                OfferFaultView,
            >(spends_view(spends@)),
            Err(fault) => made_spends(side@, asked@, fee) == Err::<
                Seq<WalletSpendView>,
                OfferFaultView,
            >(fault@),
        },
{
    let mut ctx = SpendContext::new();
    let made = dig_offers::make_build(&mut ctx, outside_maker(side)?, outside_request(asked), fee);
    Ok(plain_spends(made.map_err(plain_fault)?.coin_spends))
}

/// The offer text that `dig_offers` assembles from a make and the maker's signed bundle.
pub uninterp spec fn assembled_offer(
    side: MakerSideView,
    asked: AskedSideView,
    fee: u64,
    signed: WalletBundleView,
) -> Result<Seq<char>, OfferFaultView>;

/// Assembles the maker's signed bundle into an offer text.
///
/// Calls `dig_offers::make_assemble` with the requested payments of the make. Those live in a
/// context, so `dig_offers::make_build` writes them again from the same sides and fee; it gives
/// the same payments each time.
#[verifier::external_body]
pub(crate) fn assemble_offer(
    side: &MakerSide,
    asked: &AskedSide,
    fee: u64,
    signed: &WalletBundle,
) -> (result: Result<String, OfferFault>)
    requires
        make_fits(side@, fee),
    ensures
        match result {
            Ok(offer) => assembled_offer(side@, asked@, fee, signed@) == Ok::<
                Seq<char>,
                OfferFaultView,
            >(offer@),
            Err(fault) => assembled_offer(side@, asked@, fee, signed@) == Err::<
                Seq<char>,
                OfferFaultView,
            >(fault@),
        },
{
    let mut ctx = SpendContext::new();
    let made = dig_offers::make_build(&mut ctx, outside_maker(side)?, outside_request(asked), fee);
    let made = made.map_err(plain_fault)?;
    let payments = made.requested_payments;
    dig_offers::make_assemble(&mut ctx, outside_bundle(signed)?, payments, made.requested_asset_info)
        .map_err(plain_fault)
}

/// The single amounts in an offer, each with its asset (`None` is native XCH).
#[derive(Debug)]
pub struct OfferAmounts {
    /// The amounts of the offered coins.
    pub offered: Vec<(Option<Bytes32>, u64)>,
    /// The amounts of the requested payments.
    pub requested: Vec<(Option<Bytes32>, u64)>,
}

/// What [`OfferAmounts`] say.
pub struct OfferAmountsView {
    /// The amounts of the offered coins.
    pub offered: Seq<(Option<Bytes32>, u64)>,
    /// The amounts of the requested payments.
    pub requested: Seq<(Option<Bytes32>, u64)>,
}

impl View for OfferAmounts {
    type V = OfferAmountsView;

    open spec fn view(&self) -> OfferAmountsView {
        OfferAmountsView { offered: self.offered@, requested: self.requested@ }
    }
}

/// The single amounts that an offer text holds.
pub uninterp spec fn amounts_in(offer: Seq<char>) -> Result<OfferAmountsView, OfferFaultView>;

/// Lists the single amounts of an offer.
///
/// Calls `dig_offers::parse` on the decoded offer and reads the offered coins and the requested
/// payments, one by one.
#[verifier::external_body]
pub(crate) fn offer_amounts(offer: &str) -> (result: Result<OfferAmounts, OfferFault>)
    ensures
        match result {
            Ok(amounts) => amounts_in(offer@) == Ok::<OfferAmountsView, OfferFaultView>(amounts@),
            Err(fault) => amounts_in(offer@) == Err::<OfferAmountsView, OfferFaultView>(fault@),
        },
{
    let decoded = dig_offers::decode(offer).map_err(plain_fault)?;
    let parsed = dig_offers::parse(&mut SpendContext::new(), &decoded).map_err(plain_fault)?;
    let coins = parsed.offered_coins();
    let cats = coins.cats.iter().flat_map(|(id, cats)| cats.iter().map(move |cat| {
        (Some(Bytes32(id.to_bytes())), cat.coin.amount)
    }));
    let offered = coins.xch.iter().map(|coin| (None, coin.amount)).chain(cats).collect();
    Ok(OfferAmounts { offered, requested: listed_amounts(parsed.requested_payments()) })
}

/// The requested payments of an offer in the driver's own type.
#[verifier::external_type_specification]
#[verifier::external_body]
pub struct ExRequestedPayments(dig_offers::RequestedPayments);

/// Reads the amounts of all requested payments of an offer; an NFT or option goes by its
/// launcher id.
#[verifier::external_body]
fn listed_amounts(asked: &dig_offers::RequestedPayments) -> Vec<(Option<Bytes32>, u64)> {
    let xch = asked.xch.iter().map(|group| (None, group));
    let named = asked.cats.iter().chain(asked.nfts.iter()).chain(asked.options.iter());
    let named = named.flat_map(|(id, groups)| groups.iter().map(move |group| {
        (Some(Bytes32(id.to_bytes())), group)
    }));
    let all = xch.chain(named);
    all.flat_map(|(id, group)| group.payments.iter().map(move |paid| (id, paid.amount))).collect()
}

/// Reads the requested payments of an offer: the XCH payments, then those of each CAT.
#[verifier::external_body]
fn listed_payments(asked: &dig_offers::RequestedPayments) -> Vec<AskedPayment> {
    let xch = asked.xch.iter().map(|group| (None, group));
    let cats = asked.cats.iter().flat_map(|(id, groups)| groups.iter().map(move |group| (Some(*id), group)));
    xch.chain(cats).flat_map(|(id, group)| group.payments.iter().map(move |paid| AskedPayment {
        asset_id: id.map(|hash| Bytes32(hash.to_bytes())),
        puzzle_hash: Bytes32(paid.puzzle_hash.to_bytes()),
        amount: paid.amount,
    })).collect()
}

/// The sum of the amounts of one asset.
pub open spec fn asset_sum(amounts: Seq<(Option<Bytes32>, u64)>, asset: Option<Bytes32>) -> nat
    decreases amounts.len(),
{
    if amounts.len() == 0 {
        0
    } else {
        asset_sum(amounts.drop_last(), asset) + if amounts.last().0 == asset {
            amounts.last().1 as nat
        } else {
            0nat
        }
    }
}

/// Whether, for every asset, the amounts of each side of an offer add up to a machine word.
pub open spec fn sums_fit(amounts: OfferAmountsView) -> bool {
    forall|asset: Option<Bytes32>|
        #![trigger asset_sum(amounts.offered, asset)]
        #![trigger asset_sum(amounts.requested, asset)]
        asset_sum(amounts.offered, asset) <= u64::MAX && asset_sum(amounts.requested, asset)
            <= u64::MAX
}

/// Whether the amounts of an offer text can be added up in machine words. A text that is no
/// offer holds none.
pub open spec fn offer_fits(offer: Seq<char>) -> bool {
    amounts_in(offer) matches Ok(amounts) ==> sums_fit(amounts)
}

/// The amounts of a taker's coins, each with its asset.
pub open spec fn funds_amounts(funds: TakerSideView) -> Seq<(Option<Bytes32>, u64)> {
    funds.xch_coins.map_values(|c: WalletCoin| (None::<Bytes32>, c.amount))
        + funds.cat_coins.map_values(|c: WalletCat| (Some(c.asset_id), c.coin.amount))
}

/// Whether the amounts of a take can be added up in machine words: for every asset, the offered
/// coins with the taker's own, and the requested payments with the fee.
pub open spec fn take_fits(offer: Seq<char>, funds: TakerSideView, fee: u64) -> bool {
    amounts_in(offer) matches Ok(amounts) ==> sums_fit(
        OfferAmountsView {
            offered: amounts.offered + funds_amounts(funds),
            requested: amounts.requested.push((None, fee)),
        },
    )
}

/// The taker's spends that `dig_offers` builds for taking an offer, and the payments asked for.
pub uninterp spec fn taken_plan(offer: Seq<char>, funds: TakerSideView, fee: u64) -> Result<
    TakePlanView,
    OfferFaultView,
>;

/// Builds the taker's unsigned spends.
///
/// Calls `dig_offers::take_build` in a fresh context; the payments are those of the parsed
/// offer, in its order.
#[verifier::external_body]
pub(crate) fn take_plan(offer: &str, funds: &TakerSide, fee: u64) -> (result: Result<
    TakePlan,
    OfferFault,
>)
    requires
        take_fits(offer@, funds@, fee),
    ensures
        match result {
            Ok(plan) => taken_plan(offer@, funds@, fee) == Ok::<TakePlanView, OfferFaultView>(plan@),
            Err(fault) => taken_plan(offer@, funds@, fee) == Err::<TakePlanView, OfferFaultView>(
                fault@,
            ),
        },
{
    let mut ctx = SpendContext::new();
    let taken = dig_offers::take_build(&mut ctx, offer, outside_taker(funds)?, fee);
    let taken = taken.map_err(plain_fault)?;
    let payments = listed_payments(taken.offer.requested_payments());
    Ok(TakePlan { coin_spends: plain_spends(taken.coin_spends), payments })
}

/// The settlement bundle of an offer and the taker's signed bundle.
pub uninterp spec fn settled_bundle(offer: Seq<char>, signed: WalletBundleView) -> Result<
    WalletBundleView,
    OfferFaultView,
>;

/// Combines an offer with the taker's signed bundle.
///
/// Calls `dig_offers::take_combine` on the offer, which is decoded and parsed from its text.
#[verifier::external_body]
pub(crate) fn settle_offer(offer: &str, signed: &WalletBundle) -> (result: Result<
    WalletBundle,
    OfferFault,
>)
    ensures
        match result {
            Ok(bundle) => settled_bundle(offer@, signed@) == Ok::<WalletBundleView, OfferFaultView>(
                bundle@,
            ),
            Err(fault) => settled_bundle(offer@, signed@) == Err::<
                WalletBundleView,
                OfferFaultView,
            >(fault@),
        },
{
    let decoded = dig_offers::decode(offer).map_err(plain_fault)?;
    let parsed = dig_offers::parse(&mut SpendContext::new(), &decoded).map_err(plain_fault)?;
    let bundle = dig_offers::take_combine(parsed, outside_bundle(signed)?);
    let aggregated_signature = Signature(bundle.aggregated_signature.to_bytes());
    Ok(WalletBundle { coin_spends: plain_spends(bundle.coin_spends), aggregated_signature })
}

/// The spends that `dig_offers` builds to reclaim the coins of an offer.
pub uninterp spec fn cancelled_spends(
    offer: Seq<char>,
    reclaim: Bytes32,
    owner_keys: Seq<(Bytes32, PublicKey)>,
    fee: u64,
) -> Result<Seq<WalletSpendView>, OfferFaultView>;

/// Builds the spends that reclaim the coins of an offer.
///
/// Calls `dig_offers::cancel_build` in a fresh context.
#[verifier::external_body]
pub(crate) fn cancel_spends(
    offer: &str,
    reclaim: &Bytes32,
    owner_keys: &indexmap::IndexMap<[u8; 32], [u8; 48]>,
    fee: u64,
) -> (result: Result<Vec<WalletSpend>, OfferFault>)
    ensures
        match result {
            Ok(spends) => cancelled_spends(offer@, *reclaim, keys_in(*owner_keys), fee) == Ok::<
                Seq<WalletSpendView>,
                OfferFaultView,
            >(spends_view(spends@)),
            Err(fault) => cancelled_spends(offer@, *reclaim, keys_in(*owner_keys), fee) == Err::<
                Seq<WalletSpendView>,
                OfferFaultView,
            >(fault@),
        },
{
    let mut ctx = SpendContext::new();
    let keys = owner_keys.iter().map(|(hash, key)| {
        Ok(((*hash).into(), bls_key(&PublicKey(*key)).map_err(OfferFault::Driver)?))
    }).collect::<Result<_, OfferFault>>()?;
    let cancelled = dig_offers::cancel_build(&mut ctx, offer, reclaim.0.into(), &keys, fee);
    Ok(plain_spends(cancelled.map_err(plain_fault)?.coin_spends))
}

/// The offer that `dig_offers` combines offers into.
pub uninterp spec fn combined_offer(offers: Seq<Seq<char>>) -> Result<Seq<char>, OfferFaultView>;

/// Combines offers into one.
///
/// Calls `dig_offers::combine`.
#[verifier::external_body]
pub(crate) fn combine_offers(offers: &Vec<String>) -> (result: Result<String, OfferFault>)
    ensures
        match result {
            Ok(offer) => combined_offer(texts_view(offers@)) == Ok::<Seq<char>, OfferFaultView>(
                offer@,
            ),
            Err(fault) => combined_offer(texts_view(offers@)) == Err::<Seq<char>, OfferFaultView>(
                fault@,
            ),
        },
{
    let texts: Vec<&str> = offers.iter().map(String::as_str).collect();
    dig_offers::combine(&texts).map_err(plain_fault)
}

/// What `dig_offers` reports of an offer.
pub uninterp spec fn facts_of(offer: Seq<char>) -> Result<OfferFactsView, OfferFaultView>;

/// Reads one asset leg of `dig_offers`, variant by variant.
#[verifier::external_body]
fn plain_leg(asset: &dig_offers::OfferAsset) -> LegAsset {
    match asset {
        dig_offers::OfferAsset::Xch(amount) => LegAsset::Xch(*amount),
        dig_offers::OfferAsset::Cat { asset_id, amount } => {
            LegAsset::Cat { asset_id: Bytes32(asset_id.to_bytes()), amount: *amount }
        },
        dig_offers::OfferAsset::Nft { launcher_id } => {
            LegAsset::Nft { launcher_id: Bytes32(launcher_id.to_bytes()) }
        },
    }
}

/// An asset leg in the type of `dig_offers`.
#[verifier::external_type_specification]
#[verifier::external_body]
pub struct ExOfferAsset(dig_offers::OfferAsset);

/// Summarizes an offer.
///
/// Calls `dig_offers::summarize`.
#[verifier::external_body]
pub(crate) fn summarize_offer(offer: &str) -> (result: Result<OfferFacts, OfferFault>)
    requires
        offer_fits(offer@),
    ensures
        match result {
            Ok(facts) => facts_of(offer@) == Ok::<OfferFactsView, OfferFaultView>(facts@),
            Err(fault) => facts_of(offer@) == Err::<OfferFactsView, OfferFaultView>(fault@),
        },
{
    let summary = dig_offers::summarize(offer).map_err(plain_fault)?;
    let cats = summary.arbitrage.cats.iter();
    let royalties = summary.royalties.iter();
    Ok(OfferFacts {
        offered: summary.offered.iter().map(plain_leg).collect(),
        requested: summary.requested.iter().map(plain_leg).collect(),
        cost_xch: summary.arbitrage.xch,
        cost_cats: cats.map(|(id, amount)| (Bytes32(id.to_bytes()), *amount)).collect(),
        royalties: royalties.map(|(id, points)| (Bytes32(id.to_bytes()), *points)).collect(),
    })
}

/// The id that `dig_offers` gives an offer.
pub uninterp spec fn id_of_offer(offer: Seq<char>) -> Result<Bytes32, OfferFaultView>;

/// Computes the id of an offer.
///
/// Calls `dig_offers::offer_id`, a hash over the decoded offer.
#[verifier::external_body]
pub(crate) fn offer_id(offer: &str) -> (result: Result<Bytes32, OfferFault>)
    ensures
        match result {
            Ok(id) => id_of_offer(offer@) == Ok::<Bytes32, OfferFaultView>(id),
            Err(fault) => id_of_offer(offer@) == Err::<Bytes32, OfferFaultView>(fault@),
        },
{
    let id = dig_offers::offer_id(offer).map_err(plain_fault)?;
    Ok(Bytes32(id.to_bytes()))
}

/// The coin spends that an offer text decodes to.
pub uninterp spec fn decoded_spends(offer: Seq<char>) -> Result<
    Seq<WalletSpendView>,
    OfferFaultView,
>;

/// Decodes an offer text to its coin spends.
///
/// Calls `dig_offers::decode` and takes the coin spends of the bundle. Every refusal is a
/// decoding fault.
#[verifier::external_body]
pub(crate) fn decode_offer(offer: &str) -> (result: Result<Vec<WalletSpend>, OfferFault>)
    ensures
        match result {
            Ok(spends) => decoded_spends(offer@) == Ok::<Seq<WalletSpendView>, OfferFaultView>(
                spends_view(spends@),
            ),
            Err(fault) => decoded_spends(offer@) == Err::<Seq<WalletSpendView>, OfferFaultView>(
                fault@,
            ) && fault is Decode,
        },
{
    let bundle = dig_offers::decode(offer).map_err(plain_fault)?;
    Ok(plain_spends(bundle.coin_spends))
}

} // verus!
