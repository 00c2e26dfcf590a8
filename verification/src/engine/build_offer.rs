//! Offers: make, take, cancel, combine and summarize.
//!
//! Making and taking split into a build, a signature outside the engine, and an assembly or
//! finalization. The maker only ever spends what it offers: what it asks for is asserted, never
//! funded.

use vstd::prelude::*;
use vstd::string::*;

use super::builder::{
    cat_fits, cats_of_asset, chosen_coins, decode_address, destination_of, lemma_filtered_total,
    of_asset, sealed, select_or_fail, spend_failed, underlying_coins, unsigned_view, xch_fits,
    SdkSpendBuilder, SpendInputs,
};
use super::driver::{encode_bech32, puzzle_hash_address};
use super::offer_driver::{
    asset_sum, assemble_offer, assembled_offer, cancel_spends, cancelled_spends,
    combine_offers, combined_offer, contains_owner, decode_offer, decoded_spends, facts_of,
    funds_amounts, has_owner, id_of_offer, insert_owner, keys_in, lacks_owners, made_spends,
    make_fits, make_spends, no_owner_keys, offer_amounts, offer_fits, offer_id, settle_offer,
    settled_bundle, summarize_offer, sums_fit, take_fits, take_plan, taken_plan, with_owner,
    AskedPayment, AskedSide, AskedSideView, LegAsset, MakerSide, MakerSideView, OfferAmountsView,
    OfferFault, OfferFaultView, TakerSide, TakerSideView,
};
use super::offer_laws::{
    a_make_asks_what_was_requested, asks_what_was_requested, offers_what_was_offered,
};
use super::offer_state::{
    build_id_text, waiting, MakeIntermediate, PendingKind, PendingOffer, PendingOffers,
    TakeIntermediate,
};
use super::parse::{hex32_of, parse_asset_id};
use crate::text::{
    contains_text, hex_encode, hex_text, holds_text, joined, joined3, lower_text,
};
use crate::types::chain::{
    cat_coins, id_of, same_optional, spends_view, total_of_coins, Bytes32, PublicKey,
    WalletBundleView, WalletCat, WalletCoin, WalletSpendView,
};
use crate::types::error::{
    invalid, short_of_funds, spend_fault, WalletError, WalletErrorCode, WalletErrorView,
    WalletResult,
};
use crate::types::identity::{IdentityRef, IdentityView};
use crate::types::offer::{
    assets_view, AssembleOfferRequest, CancelOfferRequest, CombineOffersRequest,
    FinalizeTakeRequest, MakeOfferRequest, OfferString, OfferSummary, OfferSummaryView,
    OfferedAssets, PendingOfferBuild, RequestedAssets, SummarizeOfferRequest, SummaryAsset,
    SummaryAssetView, TakeOfferRequest,
};
use crate::types::spend::{SignedBundle, UnsignedSpend, UnsignedSpendView};
use crate::types::value::{
    outputs_view, plain_summary, texts_view, Address, Amount, AssetId, Network, SpendOutput,
    SpendOutputView, SummaryView, TransactionSummary,
};

verus! {

/// The wallet error that an offer fault becomes. A refusal that speaks of insufficient funds is
/// one of funds.
pub open spec fn offer_error(fault: OfferFaultView) -> WalletErrorView {
    match fault {
        OfferFaultView::InvalidInput(message) => if holds_text(
            lower_text(message),
            "insufficient"@,
        ) {
            short_of_funds(message)
        } else {
            invalid(message)
        },
        OfferFaultView::Decode(message) => invalid("malformed offer: "@ + message),
        OfferFaultView::Incompatible(message) => invalid(message),
        OfferFaultView::Driver(message) => spend_fault("offer driver: "@ + message),
        OfferFaultView::Signer(message) => spend_fault("offer signature extraction: "@ + message),
    }
}

/// Translates an offer fault into the wallet's error catalogue.
pub fn map_offer_error(fault: OfferFault) -> (error: WalletError)
    ensures
        error@ == offer_error(fault@),
{
    match fault {
        OfferFault::InvalidInput(message) => {
            let lowered = message.as_str().to_ascii_lowercase();
            if contains_text(lowered.as_str(), "insufficient") {
                WalletError::new(WalletErrorCode::InsufficientFunds, message)
            } else {
                WalletError::invalid_input(message)
            }
        },
        OfferFault::Decode(message) => WalletError::invalid_input(
            joined("malformed offer: ", message.as_str()),
        ),
        OfferFault::Incompatible(message) => WalletError::invalid_input(message),
        OfferFault::Driver(message) => spend_failed(joined("offer driver: ", message.as_str())),
        OfferFault::Signer(message) => spend_failed(
            joined("offer signature extraction: ", message.as_str()),
        ),
    }
}

/// Whether the wallet's XCH coins, and its coins of every CAT, add up to a machine word.
pub open spec fn wallet_fits<I: SpendInputs>(inputs: &I, identity: IdentityView) -> bool {
    &&& xch_fits(inputs, identity)
    &&& forall|asset_id: Seq<char>| #[trigger] cat_fits(inputs, identity, asset_id)
}

/// The puzzle hashes that the keys of an offer's coins are looked up by.
pub open spec fn owner_hashes(xch: Seq<WalletCoin>, cats: Seq<WalletCat>) -> Seq<Bytes32> {
    xch.map_values(|c: WalletCoin| c.puzzle_hash) + cats.map_values(
        |c: WalletCat| c.p2_puzzle_hash,
    )
}

/// The keys of the first `n` puzzle hashes, each once; one that the wallet has no key for
/// decides.
pub open spec fn keys_for<I: SpendInputs>(inputs: &I, hashes: Seq<Bytes32>, n: nat) -> Result<
    Seq<(Bytes32, PublicKey)>,
    WalletErrorView,
>
    decreases n,
{
    if n == 0 {
        Ok(Seq::empty())
    } else {
        match keys_for(inputs, hashes, (n - 1) as nat) {
            Err(error) => Err(error),
            Ok(keys) => if has_owner(keys, hashes[n - 1]) {
                Ok(keys)
            } else {
                match inputs.key_of(hashes[n - 1]) {
                    None => Err(
                        spend_fault("no public key for an offered coin's puzzle hash"@),
                    ),
                    Some(key) => Ok(with_owner(keys, hashes[n - 1], key)),
                }
            },
        }
    }
}

/// The keys of an offer's coins.
pub open spec fn owner_keys_of<I: SpendInputs>(
    inputs: &I,
    xch: Seq<WalletCoin>,
    cats: Seq<WalletCat>,
) -> Result<Seq<(Bytes32, PublicKey)>, WalletErrorView> {
    keys_for(inputs, owner_hashes(xch, cats), owner_hashes(xch, cats).len())
}

/// The coins and legs of the first `n` offered CATs; the first refusal decides.
pub open spec fn offered_cats<I: SpendInputs>(
    inputs: &I,
    identity: IdentityView,
    cats: Seq<(AssetId, Amount)>,
    n: nat,
) -> Result<(Seq<WalletCat>, Seq<(Bytes32, u64)>), WalletErrorView>
    decreases n,
{
    if n == 0 {
        Ok((Seq::empty(), Seq::empty()))
    } else {
        match offered_cats(inputs, identity, cats, (n - 1) as nat) {
            Err(error) => Err(error),
            Ok((coins, legs)) => {
                let (asset_id, amount) = cats[n - 1];
                if amount.0 == 0 {
                    Err(invalid("an offered CAT amount must be non-zero"@))
                } else {
                    match hex32_of(asset_id@, "asset id"@) {
                        Err(error) => Err(error),
                        Ok(asset) => match inputs.cats_of(identity, asset_id@) {
                            Err(error) => Err(error),
                            Ok(more) => Ok((coins + more, legs.push((asset, amount.0)))),
                        },
                    }
                }
            },
        }
    }
}

/// The maker's side of an offer.
pub open spec fn maker_side_of<I: SpendInputs>(
    inputs: &I,
    identity: IdentityView,
    offered: OfferedAssets,
    fee: u64,
) -> Result<MakerSideView, WalletErrorView> {
    let offer_xch = offered.xch.0;
    let fetched = if offer_xch > 0 || fee > 0 {
        inputs.xch_coins(identity)
    } else {
        Ok(Seq::empty())
    };
    if offer_xch == 0 && offered.cats@.len() == 0 {
        Err(invalid("an offer must offer at least one asset"@))
    } else {
        match fetched {
            Err(error) => Err(error),
            Ok(xch_coins) => match offered_cats(
                inputs,
                identity,
                offered.cats@,
                offered.cats@.len(),
            ) {
                Err(error) => Err(error),
                Ok((cat_coins, offer_cats)) => match owner_keys_of(inputs, xch_coins, cat_coins) {
                    Err(error) => Err(error),
                    Ok(owner_keys) => match inputs.change_of(identity) {
                        Err(error) => Err(error),
                        Ok(change_puzzle_hash) => Ok(
                            MakerSideView {
                                change_puzzle_hash,
                                owner_keys,
                                xch_coins,
                                cat_coins,
                                offer_xch,
                                offer_cats,
                            },
                        ),
                    },
                },
            },
        }
    }
}

/// The legs of the first `n` requested CATs; the first refusal decides.
pub open spec fn asked_cats(cats: Seq<(AssetId, Amount)>, n: nat) -> Result<
    Seq<(Bytes32, u64)>,
    WalletErrorView,
>
    decreases n,
{
    if n == 0 {
        Ok(Seq::empty())
    } else {
        match asked_cats(cats, (n - 1) as nat) {
            Err(error) => Err(error),
            Ok(legs) => {
                let (asset_id, amount) = cats[n - 1];
                if amount.0 == 0 {
                    Err(invalid("a requested CAT amount must be non-zero"@))
                } else {
                    match hex32_of(asset_id@, "asset id"@) {
                        Err(error) => Err(error),
                        Ok(asset) => Ok(legs.push((asset, amount.0))),
                    }
                }
            },
        }
    }
}

/// The requested side of an offer.
pub open spec fn asked_side_of(requested: RequestedAssets) -> Result<
    AskedSideView,
    WalletErrorView,
> {
    match asked_cats(requested.cats@, requested.cats@.len()) {
        Err(error) => Err(error),
        Ok(cats) => if requested.xch.0 == 0 && cats.len() == 0 {
            Err(invalid("an offer must request at least one asset"@))
        } else {
            match destination_of(requested.payee@) {
                Err(error) => Err(error),
                Ok(payee_puzzle_hash) => Ok(
                    AskedSideView { payee_puzzle_hash, xch: requested.xch.0, cats },
                ),
            }
        },
    }
}

/// One line for the XCH, if any, and one for each CAT, all to one address.
pub open spec fn trade_lines(xch: u64, cats: Seq<(AssetId, Amount)>, address: Seq<char>) -> Seq<
    SpendOutputView,
> {
    (if xch > 0 {
        seq![SpendOutputView { address, amount: xch, asset_id: None }]
    } else {
        Seq::empty()
    }) + cats.map_values(
        |c: (AssetId, Amount)|
            SpendOutputView { address, amount: c.1.0, asset_id: Some(c.0@) },
    )
}

/// The review summary of a make: what leaves goes to the settlement puzzle, which has no
/// address; what comes in goes to the payee.
pub open spec fn make_summary_of(offered: OfferedAssets, requested: RequestedAssets, fee: u64) -> SummaryView {
    SummaryView {
        outputs: trade_lines(offered.xch.0, offered.cats@, Seq::empty()),
        received: trade_lines(requested.xch.0, requested.cats@, requested.payee@),
        fee,
        melted_singletons: Seq::empty(),
        nft_operations: Seq::empty(),
    }
}

/// Both sides of a make and what the maker has to sign.
pub open spec fn make_outcome<I: SpendInputs>(
    builder: &SdkSpendBuilder<I>,
    request: MakeOfferRequest,
) -> Result<(MakerSideView, AskedSideView, UnsignedSpendView), WalletErrorView> {
    let fee = request.fee.0;
    match maker_side_of(&builder.inputs, request.identity@, request.offered, fee) {
        Err(error) => Err(error),
        Ok(side) => match asked_side_of(request.requested) {
            Err(error) => Err(error),
            Ok(asked) => match made_spends(side, asked, fee) {
                Err(fault) => Err(offer_error(fault)),
                Ok(spends) => match sealed(
                    spends,
                    builder.network,
                    make_summary_of(request.offered, request.requested, fee),
                ) {
                    Err(error) => Err(error),
                    Ok(unsigned) => Ok((side, asked, unsigned)),
                },
            },
        },
    }
}

/// An offer text with its id in hex.
pub open spec fn with_id(offer: Seq<char>) -> Result<(Seq<char>, Seq<char>), WalletErrorView> {
    match id_of_offer(offer) {
        Err(fault) => Err(offer_error(fault)),
        Ok(id) => Ok((offer, hex_text(id@))),
    }
}

/// What a call that ends in an offer text returned, over views.
pub open spec fn offer_string_view(result: WalletResult<OfferString>) -> Result<
    (Seq<char>, Seq<char>),
    WalletErrorView,
> {
    match result {
        Ok(offer) => Ok((offer.offer@, offer.offer_id@)),
        Err(error) => Err(error@),
    }
}

/// The error for a build id that is unknown, expired or of the other flow.
pub open spec fn no_such_build() -> WalletErrorView {
    invalid("unknown or expired offer build id (the build may have timed out — rebuild it)"@)
}

/// Whether a coin with this id is among the chosen ones.
pub open spec fn is_chosen(chosen: Seq<WalletCoin>, id: Bytes32) -> bool {
    exists|i: int| 0 <= i < chosen.len() && id_of(#[trigger] chosen[i]) == id
}

/// The CAT coins that pay a leg of a take: those of the asset whose coins a capped
/// high-value-first selection draws.
pub open spec fn chosen_cats(cats: Seq<WalletCat>, asset: Bytes32, need: nat, cap: nat) -> Result<
    Seq<WalletCat>,
    WalletErrorView,
> {
    let mine = of_asset(cats, asset);
    match chosen_coins(
        cat_coins(mine),
        need,
        cap,
        "CAT "@ + hex_text(asset@) + " (take)"@,
    ) {
        Err(error) => Err(error),
        Ok(chosen) => Ok(mine.filter(|c: WalletCat| is_chosen(chosen, id_of(c.coin)))),
    }
}

/// The CAT coins that pay the first `n` CAT legs of a take; the first failure decides.
pub open spec fn funded_cats<I: SpendInputs>(
    inputs: &I,
    identity: IdentityView,
    cost: Seq<(Bytes32, u64)>,
    cap: nat,
    n: nat,
) -> Result<Seq<WalletCat>, WalletErrorView>
    decreases n,
{
    if n == 0 {
        Ok(Seq::empty())
    } else {
        match funded_cats(inputs, identity, cost, cap, (n - 1) as nat) {
            Err(error) => Err(error),
            Ok(cats) => match inputs.cats_of(identity, hex_text(cost[n - 1].0@)) {
                Err(error) => Err(error),
                Ok(available) => match chosen_cats(
                    available,
                    cost[n - 1].0,
                    cost[n - 1].1 as nat,
                    cap,
                ) {
                    Err(error) => Err(error),
                    Ok(more) => Ok(cats + more),
                },
            },
        }
    }
}

/// The sum of two amounts, or the largest amount when it is larger.
pub open spec fn saturating(a: u64, b: u64) -> nat {
    if a + b > u64::MAX {
        u64::MAX as nat
    } else {
        (a + b) as nat
    }
}

/// The taker's side of a take: coins for the XCH cost and the fee, coins for each CAT cost, the
/// keys of all of them and the change address.
pub open spec fn taker_side_of<I: SpendInputs>(
    builder: &SdkSpendBuilder<I>,
    identity: IdentityView,
    cost_xch: u64,
    cost_cats: Seq<(Bytes32, u64)>,
    fee: u64,
) -> Result<TakerSideView, WalletErrorView> {
    let inputs = &builder.inputs;
    let cap = builder.coin_cap as nat;
    let target = saturating(cost_xch, fee);
    let picked = if target > 0 {
        match inputs.xch_coins(identity) {
            Err(error) => Err(error),
            Ok(coins) => chosen_coins(coins, target, cap, "XCH (take)"@),
        }
    } else {
        Ok(Seq::empty())
    };
    match picked {
        Err(error) => Err(error),
        Ok(xch_coins) => match funded_cats(inputs, identity, cost_cats, cap, cost_cats.len()) {
            Err(error) => Err(error),
            Ok(cat_coins) => match owner_keys_of(inputs, xch_coins, cat_coins) {
                Err(error) => Err(error),
                Ok(owner_keys) => match inputs.change_of(identity) {
                    Err(error) => Err(error),
                    Ok(change_puzzle_hash) => Ok(
                        TakerSideView { change_puzzle_hash, owner_keys, xch_coins, cat_coins },
                    ),
                },
            },
        },
    }
}

/// The taker's side of taking an offer text.
pub open spec fn taker_funds_of<I: SpendInputs>(
    builder: &SdkSpendBuilder<I>,
    request: TakeOfferRequest,
) -> Result<TakerSideView, WalletErrorView> {
    match facts_of(request.offer@) {
        Err(fault) => Err(offer_error(fault)),
        Ok(facts) => taker_side_of(
            builder,
            request.identity@,
            facts.cost_xch,
            facts.cost_cats,
            request.fee.0,
        ),
    }
}

/// The output line of a requested payment: the payee as an `xch1…` address.
pub open spec fn payment_line(payment: AskedPayment) -> Result<SpendOutputView, WalletErrorView> {
    match puzzle_hash_address(payment.puzzle_hash, "xch"@) {
        Err(fault) => Err(spend_fault("cannot encode payee address: "@ + fault)),
        Ok(address) => Ok(
            SpendOutputView {
                address,
                amount: payment.amount,
                asset_id: match payment.asset_id {
                    Some(asset) => Some(hex_text(asset@)),
                    None => None,
                },
            },
        ),
    }
}

/// The output lines of the first `n` requested payments; the first failure decides.
pub open spec fn payment_lines(payments: Seq<AskedPayment>, n: nat) -> Result<
    Seq<SpendOutputView>,
    WalletErrorView,
>
    decreases n,
{
    if n == 0 {
        Ok(Seq::empty())
    } else {
        match payment_lines(payments, (n - 1) as nat) {
            Err(error) => Err(error),
            Ok(lines) => match payment_line(payments[n - 1]) {
                Err(error) => Err(error),
                Ok(line) => Ok(lines.push(line)),
            },
        }
    }
}

/// What the taker has to sign to take an offer.
pub open spec fn take_outcome<I: SpendInputs>(
    builder: &SdkSpendBuilder<I>,
    request: TakeOfferRequest,
) -> Result<UnsignedSpendView, WalletErrorView> {
    let fee = request.fee.0;
    match taker_funds_of(builder, request) {
        Err(error) => Err(error),
        Ok(funds) => match taken_plan(request.offer@, funds, fee) {
            Err(fault) => Err(offer_error(fault)),
            Ok(plan) => match payment_lines(plan.payments, plan.payments.len()) {
                Err(error) => Err(error),
                Ok(lines) => sealed(plan.coin_spends, builder.network, plain_summary(lines, fee)),
            },
        },
    }
}

/// The keys that the wallet holds for the coins of the first `n` spends of an offer.
pub open spec fn known_keys<I: SpendInputs>(
    inputs: &I,
    spends: Seq<WalletSpendView>,
    n: nat,
) -> Seq<(Bytes32, PublicKey)>
    decreases n,
{
    if n == 0 {
        Seq::empty()
    } else {
        let keys = known_keys(inputs, spends, (n - 1) as nat);
        let puzzle_hash = spends[n - 1].coin.puzzle_hash;
        match inputs.key_of(puzzle_hash) {
            Some(key) => with_owner(keys, puzzle_hash, key),
            None => keys,
        }
    }
}

/// The keys for the coins of an offer, of which the wallet must hold at least one.
pub open spec fn offer_keys<I: SpendInputs>(inputs: &I, offer: Seq<char>) -> Result<
    Seq<(Bytes32, PublicKey)>,
    WalletErrorView,
> {
    match decoded_spends(offer) {
        Err(fault) => Err(offer_error(fault)),
        Ok(spends) => {
            let keys = known_keys(inputs, spends, spends.len());
            if keys.len() == 0 {
                Err(spend_fault(not_the_maker()))
            } else {
                Ok(keys)
            }
        },
    }
}

/// Why an offer of someone else cannot be cancelled.
pub open spec fn not_the_maker() -> Seq<char> {
    "cannot cancel this offer: the wallet holds no standard-layer key for any of its offered coins (not the offer's maker, or a CAT/NFT offer whose coins must be reclaimed through their native layer)"@
}

/// What the maker has to sign to cancel an offer.
pub open spec fn cancel_outcome<I: SpendInputs>(
    builder: &SdkSpendBuilder<I>,
    request: CancelOfferRequest,
) -> Result<UnsignedSpendView, WalletErrorView> {
    let fee = request.fee.0;
    match builder.inputs.change_of(request.identity@) {
        Err(error) => Err(error),
        Ok(reclaim) => match offer_keys(&builder.inputs, request.offer@) {
            Err(error) => Err(error),
            Ok(keys) => match cancelled_spends(request.offer@, reclaim, keys, fee) {
                Err(fault) => Err(offer_error(fault)),
                Ok(spends) => sealed(spends, builder.network, plain_summary(Seq::empty(), fee)),
            },
        },
    }
}

/// One asset leg for review.
pub open spec fn leg_view(leg: LegAsset) -> SummaryAssetView {
    match leg {
        LegAsset::Xch(amount) => SummaryAssetView::Xch { amount },
        LegAsset::Cat { asset_id, amount } => SummaryAssetView::Cat {
            asset_id: hex_text(asset_id@),
            amount,
        },
        LegAsset::Nft { launcher_id } => SummaryAssetView::Nft { launcher_id: hex_text(launcher_id@) },
    }
}

/// Asset legs for review.
pub open spec fn legs_view(legs: Seq<LegAsset>) -> Seq<SummaryAssetView> {
    legs.map_values(|l: LegAsset| leg_view(l))
}

/// What a taker has to fund, for review: the XCH, if any, then each CAT.
pub open spec fn cost_view(xch: u64, cats: Seq<(Bytes32, u64)>) -> Seq<SummaryAssetView> {
    (if xch > 0 {
        seq![SummaryAssetView::Xch { amount: xch }]
    } else {
        Seq::empty()
    }) + cats.map_values(
        |c: (Bytes32, u64)| SummaryAssetView::Cat { asset_id: hex_text(c.0@), amount: c.1 },
    )
}

/// The review summary of an offer.
pub open spec fn summary_outcome(offer: Seq<char>) -> Result<OfferSummaryView, WalletErrorView> {
    match facts_of(offer) {
        Err(fault) => Err(offer_error(fault)),
        Ok(facts) => match id_of_offer(offer) {
            Err(fault) => Err(offer_error(fault)),
            Ok(id) => Ok(
                OfferSummaryView {
                    offer_id: hex_text(id@),
                    offered: legs_view(facts.offered),
                    requested: legs_view(facts.requested),
                    arbitrage: cost_view(facts.cost_xch, facts.cost_cats),
                    royalties: facts.royalties.map_values(
                        |r: (Bytes32, u16)| (hex_text(r.0@), r.1),
                    ),
                },
            ),
        },
    }
}

/// What a summary call returned, over views.
pub open spec fn offer_summary_view(result: WalletResult<OfferSummary>) -> Result<
    OfferSummaryView,
    WalletErrorView,
> {
    match result {
        Ok(summary) => Ok(summary@),
        Err(error) => Err(error@),
    }
}

/// Builds offers and keeps the builds that wait for their second call.
pub struct OfferBuilder<I: SpendInputs> {
    builder: SdkSpendBuilder<I>,
    pending: PendingOffers,
}

/// Whether every waiting make can be assembled.
pub open spec fn makes_fit(builds: Map<Seq<char>, PendingOffer>) -> bool {
    forall|id: Seq<char>| #[trigger]
        builds.contains_key(id) ==> (builds[id].kind matches PendingKind::Make(make) ==> make_fits(
            make.side@,
            make.fee,
        ))
}

/// Whether a build is a make of these sides and fee.
pub open spec fn parked_make(
    build: PendingOffer,
    side: MakerSideView,
    asked: AskedSideView,
    fee: u64,
    now: u64,
) -> bool {
    &&& build.created_at == now
    &&& build.kind matches PendingKind::Make(make) && make.side@ == side && make.asked@ == asked
        && make.fee == fee
}

/// Whether a build is a take of this offer.
pub open spec fn parked_take(build: PendingOffer, offer: Seq<char>, now: u64) -> bool {
    &&& build.created_at == now
    &&& build.kind matches PendingKind::Take(take) && take.offer@ == offer
}

impl<I: SpendInputs> OfferBuilder<I> {
    /// The waiting builds are in order, and every waiting make can be assembled.
    pub closed spec fn wf(self) -> bool {
        self.pending.wf() && makes_fit(self.pending@)
    }

    /// The builder that the coin spends go through.
    pub closed spec fn spends(self) -> SdkSpendBuilder<I> {
        self.builder
    }

    /// The waiting builds.
    pub closed spec fn builds(self) -> Map<Seq<char>, PendingOffer> {
        self.pending@
    }

    /// The number of the next build.
    pub closed spec fn next_number(self) -> u64 {
        self.pending.next_number()
    }

    /// An offer builder over a provider, for a network, with a coin cap.
    pub fn new(inputs: I, network: Network, coin_cap: usize) -> (offers: Self)
        ensures
            offers.wf(),
            offers.spends() == (SdkSpendBuilder { inputs, network, coin_cap }),
            offers.builds() == Map::<Seq<char>, PendingOffer>::empty(),
            offers.next_number() == 0,
    {
        OfferBuilder {
            builder: SdkSpendBuilder::new(inputs, network, coin_cap),
            pending: PendingOffers::new(),
        }
    }

    /// The number of builds that still wait.
    pub fn pending_len(&mut self, now: u64) -> (n: usize)
        requires
            old(self).wf(),
        ensures
            final(self).wf(),
            final(self).spends() == old(self).spends(),
            final(self).next_number() == old(self).next_number(),
            final(self).builds() == waiting(old(self).builds(), now),
            n == waiting(old(self).builds(), now).dom().len(),
    {
        self.pending.len(now)
    }

    /// The waiting builds, for diagnostics.
    pub fn pending(&self) -> (pending: &PendingOffers)
        requires
            self.wf(),
        ensures
            pending.wf(),
            pending@ == self.builds(),
            pending.next_number() == self.next_number(),
    {
        &self.pending
    }

    /// Builds the maker's side of an offer and parks it for assembly.
    pub fn build_make(&mut self, request: MakeOfferRequest, now: u64) -> (result: WalletResult<
        PendingOfferBuild,
    >)
        requires
            old(self).wf(),
            maker_side_of(
                &old(self).spends().inputs,
                request.identity@,
                request.offered,
                request.fee.0,
            ) matches Ok(side) ==> make_fits(side, request.fee.0),
        ensures
            final(self).wf(),
            final(self).spends() == old(self).spends(),
            match result {
                Ok(build) => {
                    &&& make_outcome(&old(self).spends(), request) matches Ok((side, asked, unsigned))
                    &&& build.unsigned@ == unsigned
                    &&& build.build_id@ == build_id_text(old(self).next_number() as nat)
                    &&& final(self).builds().contains_key(build.build_id@)
                    &&& final(self).builds().remove(build.build_id@) == waiting(
                        old(self).builds(),
                        now,
                    ).remove(build.build_id@)
                    &&& parked_make(
                        final(self).builds()[build.build_id@],
                        side,
                        asked,
                        request.fee.0,
                        now,
                    )
                    &&& old(self).next_number() < u64::MAX ==> final(self).next_number()
                        == old(self).next_number() + 1
                },
                Err(error) => {
                    &&& make_outcome(&old(self).spends(), request) matches Err(expected)
                    &&& error@ == expected
                    &&& final(self).builds() == old(self).builds()
                    &&& final(self).next_number() == old(self).next_number()
                },
            },
            result matches Ok(build) ==> (final(self).builds()[build.build_id@].kind matches PendingKind::Make(make)
                && make.fee == request.fee.0 && asks_what_was_requested(
                make.asked@,
                request.requested,
            ) && offers_what_was_offered(
                &old(self).spends().inputs,
                request.identity@,
                make.side@,
                request.offered,
                request.fee.0,
            ) && made_spends(make.side@, make.asked@, request.fee.0) == Ok::<
                Seq<WalletSpendView>,
                OfferFaultView,
            >(build.unsigned@.coin_spends)),
    {
        let fee: u64 = request.fee.mojos();
        let side = match self.resolve_offered_side(&request.identity, &request.offered, fee) {
            Ok(side) => side,
            Err(error) => return Err(error),
        };
        let asked = match resolve_requested_side(&request.requested) {
            Ok(asked) => asked,
            Err(error) => return Err(error),
        };
        let coin_spends = match make_spends(&side, &asked, fee) {
            Ok(coin_spends) => coin_spends,
            Err(fault) => return Err(map_offer_error(fault)),
        };
        let summary = make_summary(&request.offered, &request.requested, fee);
        let unsigned = match self.builder.finish_unsigned(coin_spends, summary) {
            Ok(unsigned) => unsigned,
            Err(error) => return Err(error),
        };
        proof {
            a_make_asks_what_was_requested(&self.builder, request);
        }
        let make = MakeIntermediate { side, asked, fee };
        let ghost before = self.pending@;
        let build_id = self.pending.insert_make(make, now);
        proof {
            assert(self.pending@.remove(build_id@) =~= waiting(before, now).remove(build_id@));
            lemma_makes_fit_waiting(before, now);
        }
        Ok(PendingOfferBuild { build_id, unsigned })
    }

    /// Assembles the maker's signed bundle into an offer text, which uses up the waiting build.
    pub fn assemble_make(&mut self, request: AssembleOfferRequest, now: u64) -> (result:
        WalletResult<OfferString>)
        requires
            old(self).wf(),
        ensures
            final(self).wf(),
            final(self).spends() == old(self).spends(),
            final(self).next_number() == old(self).next_number(),
            final(self).builds() == waiting(old(self).builds(), now).remove(request.build_id@),
            offer_string_view(result) == ({
                let builds = waiting(old(self).builds(), now);
                if !builds.contains_key(request.build_id@) {
                    Err(no_such_build())
                } else {
                    match builds[request.build_id@].kind {
                        PendingKind::Take(_) => Err(no_such_build()),
                        PendingKind::Make(make) => match assembled_offer(
                            make.side@,
                            make.asked@,
                            make.fee,
                            request.signed.bundle@,
                        ) {
                            Err(fault) => Err(offer_error(fault)),
                            Ok(offer) => with_id(offer),
                        },
                    }
                }
            }),
            result matches Ok(offer) ==> {
                &&& waiting(old(self).builds(), now).contains_key(request.build_id@)
                &&& old(self).builds()[request.build_id@].kind matches PendingKind::Make(make)
                &&& assembled_offer(make.side@, make.asked@, make.fee, request.signed.bundle@)
                    == Ok::<Seq<char>, OfferFaultView>(offer.offer@)
                &&& id_of_offer(offer.offer@) matches Ok(id)
                &&& offer.offer_id@ == hex_text(id@)
            },
    {
        let ghost before = self.pending@;
        proof {
            lemma_makes_fit_waiting(before, now);
        }
        match self.pending.take_make(&request.build_id, now) {
            None => Err(unknown_build()),
            Some(make) => {
                match assemble_offer(&make.side, &make.asked, make.fee, &request.signed.bundle) {
                    Err(fault) => Err(map_offer_error(fault)),
                    Ok(offer) => finish_offer_string(offer),
                }
            },
        }
    }

    /// Resolves the coins and keys that pay for taking an offer.
    fn taker_funds(&self, request: &TakeOfferRequest) -> (result: WalletResult<TakerSide>)
        requires
            wallet_fits(&self.builder.inputs, request.identity@),
            offer_fits(request.offer@),
        ensures
            match result {
                Ok(funds) => taker_funds_of(&self.builder, *request) == Ok::<
                    TakerSideView,
                    WalletErrorView,
                >(funds@),
                Err(error) => taker_funds_of(&self.builder, *request) == Err::<
                    TakerSideView,
                    WalletErrorView,
                >(error@),
            },
    {
        let facts = match summarize_offer(request.offer.as_str()) {
            Ok(facts) => facts,
            Err(fault) => return Err(map_offer_error(fault)),
        };
        self.resolve_taker_funds(
            &request.identity,
            facts.cost_xch,
            &facts.cost_cats,
            request.fee.mojos(),
        )
    }

    /// Builds the taker's side of an offer and parks it for finalization.
    pub fn build_take(&mut self, request: TakeOfferRequest, now: u64) -> (result: WalletResult<
        PendingOfferBuild,
    >)
        requires
            old(self).wf(),
            wallet_fits(&old(self).spends().inputs, request.identity@),
            offer_fits(request.offer@),
            taker_funds_of(&old(self).spends(), request) matches Ok(funds) ==> take_fits(
                request.offer@,
                funds,
                request.fee.0,
            ),
        ensures
            final(self).wf(),
            final(self).spends() == old(self).spends(),
            match result {
                Ok(build) => {
                    &&& take_outcome(&old(self).spends(), request) == Ok::<
                        UnsignedSpendView,
                        WalletErrorView,
                    >(build.unsigned@)
                    &&& build.build_id@ == build_id_text(old(self).next_number() as nat)
                    &&& final(self).builds().contains_key(build.build_id@)
                    &&& final(self).builds().remove(build.build_id@) == waiting(
                        old(self).builds(),
                        now,
                    ).remove(build.build_id@)
                    &&& parked_take(final(self).builds()[build.build_id@], request.offer@, now)
                    &&& old(self).next_number() < u64::MAX ==> final(self).next_number()
                        == old(self).next_number() + 1
                },
                Err(error) => {
                    &&& take_outcome(&old(self).spends(), request) == Err::<
                        UnsignedSpendView,
                        WalletErrorView,
                    >(error@)
                    &&& final(self).builds() == old(self).builds()
                    &&& final(self).next_number() == old(self).next_number()
                },
            },
            result matches Ok(build) ==> (final(self).builds()[build.build_id@].kind matches PendingKind::Take(take)
                && take.offer@ == request.offer@),
    {
        let fee: u64 = request.fee.mojos();
        let funds = match self.taker_funds(&request) {
            Ok(funds) => funds,
            Err(error) => return Err(error),
        };
        let plan = match take_plan(request.offer.as_str(), &funds, fee) {
            Ok(plan) => plan,
            Err(fault) => return Err(map_offer_error(fault)),
        };
        let summary = match taker_summary(&plan.payments, fee) {
            Ok(summary) => summary,
            Err(error) => return Err(error),
        };
        let unsigned = match self.builder.finish_unsigned(plan.coin_spends, summary) {
            Ok(unsigned) => unsigned,
            Err(error) => return Err(error),
        };
        let take = TakeIntermediate { offer: request.offer };
        let ghost before = self.pending@;
        let build_id = self.pending.insert_take(take, now);
        proof {
            assert(self.pending@.remove(build_id@) =~= waiting(before, now).remove(build_id@));
            lemma_makes_fit_waiting(before, now);
        }
        Ok(PendingOfferBuild { build_id, unsigned })
    }

    /// Builds the taker's side of an offer whose amounts can be added up in machine words, and
    /// does nothing with any other.
    pub fn build_take_checked(&mut self, request: TakeOfferRequest, now: u64) -> (result: Option<
        WalletResult<PendingOfferBuild>,
    >)
        requires
            old(self).wf(),
            wallet_fits(&old(self).spends().inputs, request.identity@),
        ensures
            final(self).wf(),
            final(self).spends() == old(self).spends(),
            (result is None) == !(offer_fits(request.offer@) && (taker_funds_of(
                &old(self).spends(),
                request,
            ) matches Ok(funds) ==> take_fits(request.offer@, funds, request.fee.0))),
            match result {
                None => final(self).builds() == old(self).builds() && final(self).next_number()
                    == old(self).next_number(),
                Some(Ok(build)) => {
                    &&& take_outcome(&old(self).spends(), request) == Ok::<
                        UnsignedSpendView,
                        WalletErrorView,
                    >(build.unsigned@)
                    &&& build.build_id@ == build_id_text(old(self).next_number() as nat)
                    &&& final(self).builds().contains_key(build.build_id@)
                    &&& final(self).builds().remove(build.build_id@) == waiting(
                        old(self).builds(),
                        now,
                    ).remove(build.build_id@)
                    &&& parked_take(final(self).builds()[build.build_id@], request.offer@, now)
                },
                Some(Err(error)) => {
                    &&& take_outcome(&old(self).spends(), request) == Err::<
                        UnsignedSpendView,
                        WalletErrorView,
                    >(error@)
                    &&& final(self).builds() == old(self).builds()
                    &&& final(self).next_number() == old(self).next_number()
                },
            },
    {
        if !is_offer_fitting(request.offer.as_str()) {
            return None;
        }
        match self.taker_funds(&request) {
            Ok(funds) => if !is_take_fitting(request.offer.as_str(), &funds, request.fee.mojos()) {
                return None;
            },
            Err(_) => {},
        }
        Some(self.build_take(request, now))
    }

    /// Combines an offer with the taker's signed bundle, which uses up the waiting build. The
    /// result can be broadcast; nothing here does so.
    pub fn finalize_take(&mut self, request: FinalizeTakeRequest, now: u64) -> (result:
        WalletResult<SignedBundle>)
        requires
            old(self).wf(),
        ensures
            final(self).wf(),
            final(self).spends() == old(self).spends(),
            final(self).next_number() == old(self).next_number(),
            final(self).builds() == waiting(old(self).builds(), now).remove(request.build_id@),
            signed_view(result) == ({
                let builds = waiting(old(self).builds(), now);
                if !builds.contains_key(request.build_id@) {
                    Err(no_such_build())
                } else {
                    match builds[request.build_id@].kind {
                        PendingKind::Make(_) => Err(no_such_build()),
                        PendingKind::Take(take) => match settled_bundle(
                            take.offer@,
                            request.signed.bundle@,
                        ) {
                            Err(fault) => Err(offer_error(fault)),
                            Ok(bundle) => Ok(bundle),
                        },
                    }
                }
            }),
            result matches Ok(signed) ==> {
                &&& waiting(old(self).builds(), now).contains_key(request.build_id@)
                &&& old(self).builds()[request.build_id@].kind matches PendingKind::Take(take)
                &&& settled_bundle(take.offer@, request.signed.bundle@) == Ok::<
                    WalletBundleView,
                    OfferFaultView,
                >(signed.bundle@)
            },
    {
        proof {
            lemma_makes_fit_waiting(self.pending@, now);
        }
        match self.pending.take_take(&request.build_id, now) {
            None => Err(unknown_build()),
            Some(take) => match settle_offer(take.offer.as_str(), &request.signed.bundle) {
                Err(fault) => Err(map_offer_error(fault)),
                Ok(bundle) => Ok(SignedBundle { bundle }),
            },
        }
    }

    /// Builds the spend that reclaims the coins of an outstanding offer.
    pub fn build_cancel(&self, request: CancelOfferRequest) -> (result: WalletResult<UnsignedSpend>)
        ensures
            unsigned_view(result) == cancel_outcome(&self.spends(), request),
    {
        let fee: u64 = request.fee.mojos();
        let reclaim = match self.builder.inputs.change_puzzle_hash(&request.identity) {
            Ok(reclaim) => reclaim,
            Err(error) => return Err(error),
        };
        let owner_keys = match self.owner_keys_for_offer(&request.offer) {
            Ok(owner_keys) => owner_keys,
            Err(error) => return Err(error),
        };
        match cancel_spends(request.offer.as_str(), &reclaim, &owner_keys, fee) {
            Err(fault) => Err(map_offer_error(fault)),
            Ok(coin_spends) => {
                let outputs: Vec<SpendOutput> = Vec::new();
                assert(outputs_view(outputs@) =~= Seq::empty());
                self.builder.finish_unsigned(
                    coin_spends,
                    TransactionSummary::new(outputs, request.fee),
                )
            },
        }
    }

    /// Combines offers into one.
    pub fn combine(&self, request: CombineOffersRequest) -> (result: WalletResult<OfferString>)
        ensures
            offer_string_view(result) == (match combined_offer(texts_view(request.offers@)) {
                Err(fault) => Err(offer_error(fault)),
                Ok(offer) => with_id(offer),
            }),
            result matches Ok(offer) ==> {
                &&& combined_offer(texts_view(request.offers@)) == Ok::<Seq<char>, OfferFaultView>(
                    offer.offer@,
                )
                &&& id_of_offer(offer.offer@) matches Ok(id)
                &&& offer.offer_id@ == hex_text(id@)
            },
    {
        match combine_offers(&request.offers) {
            Err(fault) => Err(map_offer_error(fault)),
            Ok(offer) => finish_offer_string(offer),
        }
    }

    /// Summarizes both sides of an offer and its economics.
    pub fn summarize(&self, request: SummarizeOfferRequest) -> (result: WalletResult<OfferSummary>)
        requires
            offer_fits(request.offer@),
        ensures
            offer_summary_view(result) == summary_outcome(request.offer@),
    {
        let facts = match summarize_offer(request.offer.as_str()) {
            Ok(facts) => facts,
            Err(fault) => return Err(map_offer_error(fault)),
        };
        let offer_id = match compute_offer_id(&request.offer) {
            Ok(offer_id) => offer_id,
            Err(error) => return Err(error),
        };
        let mut royalties: Vec<(String, u16)> = Vec::new();
        let mut i: usize = 0;
        while i < facts.royalties.len()
            invariant
                i <= facts.royalties@.len(),
                royalties@.len() == i,
                forall|k: int|
                    0 <= k < i ==> (#[trigger] royalties@[k]).0@ == hex_text(
                        facts.royalties@[k].0@,
                    ) && royalties@[k].1 == facts.royalties@[k].1,
            decreases facts.royalties@.len() - i,
        {
            let (launcher_id, basis_points) = facts.royalties[i];
            royalties.push((hex_encode(launcher_id.0.as_slice()), basis_points));
            i = i + 1;
        }
        let summary = OfferSummary {
            offer_id,
            offered: map_offer_assets(&facts.offered),
            requested: map_offer_assets(&facts.requested),
            arbitrage: cost_to_assets(facts.cost_xch, &facts.cost_cats),
            royalties,
        };
        assert(summary@.royalties =~= facts.royalties@.map_values(
            |r: (Bytes32, u16)| (hex_text(r.0@), r.1),
        ));
        Ok(summary)
    }

    /// Summarizes an offer whose amounts can be added up in machine words.
    pub fn summarize_checked(&self, request: SummarizeOfferRequest) -> (result: Option<
        WalletResult<OfferSummary>,
    >)
        ensures
            match result {
                None => !offer_fits(request.offer@),
                Some(summary) => offer_fits(request.offer@) && offer_summary_view(summary)
                    == summary_outcome(request.offer@),
            },
    {
        if is_offer_fitting(request.offer.as_str()) {
            Some(self.summarize(request))
        } else {
            None
        }
    }

    /// Resolves the maker's side: the XCH coins when XCH is offered or a fee is paid, the coins
    /// of every offered CAT, the keys of all of them and the change address.
    fn resolve_offered_side(
        &self,
        identity: &IdentityRef,
        offered: &OfferedAssets,
        fee: u64,
    ) -> (result: WalletResult<MakerSide>)
        ensures
            match result {
                Ok(side) => maker_side_of(&self.builder.inputs, identity@, *offered, fee) == Ok::<
                    MakerSideView,
                    WalletErrorView,
                >(side@),
                Err(error) => maker_side_of(&self.builder.inputs, identity@, *offered, fee)
                    == Err::<MakerSideView, WalletErrorView>(error@),
            },
    {
        let offer_xch: u64 = offered.xch.mojos();
        if offer_xch == 0 && offered.cats.len() == 0 {
            return Err(
                WalletError::invalid_input("an offer must offer at least one asset".to_owned()),
            );
        }
        let xch_coins: Vec<WalletCoin> = if offer_xch > 0 || fee > 0 {
            match self.builder.inputs.spendable_xch(identity) {
                Ok(coins) => coins,
                Err(error) => return Err(error),
            }
        } else {
            Vec::new()
        };
        let mut cat_coins: Vec<WalletCat> = Vec::new();
        let mut offer_cats: Vec<(Bytes32, u64)> = Vec::new();
        let ghost inputs = &self.builder.inputs;
        let ghost legs = offered.cats@;
        let ghost xch_view = xch_coins@;
        let mut i: usize = 0;
        while i < offered.cats.len()
            invariant
                i <= offered.cats@.len(),
                legs == offered.cats@,
                inputs == &self.builder.inputs,
                offer_xch == offered.xch.0,
                !(offer_xch == 0 && legs.len() == 0),
                xch_coins@ == xch_view,
                (if offer_xch > 0 || fee > 0 {
                    inputs.xch_coins(identity@)
                } else {
                    Ok(Seq::empty())
                }) == Ok::<Seq<WalletCoin>, WalletErrorView>(xch_view),
                offered_cats(inputs, identity@, legs, i as nat) == Ok::<
                    (Seq<WalletCat>, Seq<(Bytes32, u64)>),
                    WalletErrorView,
                >((cat_coins@, offer_cats@)),
            decreases offered.cats@.len() - i,
        {
            let amount: u64 = offered.cats[i].1.mojos();
            proof {
                if offered_cats(inputs, identity@, legs, i as nat + 1) is Err {
                    lemma_offered_failure(inputs, identity@, legs, i as nat + 1, legs.len());
                }
            }
            if amount == 0 {
                return Err(
                    WalletError::invalid_input("an offered CAT amount must be non-zero".to_owned()),
                );
            }
            let asset = match parse_asset_id(&offered.cats[i].0) {
                Ok(asset) => asset,
                Err(error) => return Err(error),
            };
            match self.builder.inputs.spendable_cat(identity, &offered.cats[i].0) {
                Ok(coins) => {
                    let mut more = coins;
                    cat_coins.append(&mut more);
                },
                Err(error) => return Err(error),
            }
            offer_cats.push((asset, amount));
            i = i + 1;
        }
        let owner_keys = match self.owner_keys_for(&xch_coins, &cat_coins) {
            Ok(owner_keys) => owner_keys,
            Err(error) => return Err(error),
        };
        match self.builder.inputs.change_puzzle_hash(identity) {
            Err(error) => Err(error),
            Ok(change_puzzle_hash) => Ok(
                MakerSide {
                    change_puzzle_hash,
                    owner_keys,
                    xch_coins,
                    cat_coins,
                    offer_xch,
                    offer_cats,
                },
            ),
        }
    }

    /// Resolves the taker's side. Selection is the one that sends use, so a wallet with too many
    /// small coins is told to consolidate here too.
    fn resolve_taker_funds(
        &self,
        identity: &IdentityRef,
        cost_xch: u64,
        cost_cats: &Vec<(Bytes32, u64)>,
        fee: u64,
    ) -> (result: WalletResult<TakerSide>)
        requires
            wallet_fits(&self.builder.inputs, identity@),
        ensures
            match result {
                Ok(side) => taker_side_of(
                    &self.builder,
                    identity@,
                    cost_xch,
                    cost_cats@,
                    fee,
                ) == Ok::<TakerSideView, WalletErrorView>(side@),
                Err(error) => taker_side_of(
                    &self.builder,
                    identity@,
                    cost_xch,
                    cost_cats@,
                    fee,
                ) == Err::<TakerSideView, WalletErrorView>(error@),
            },
    {
        let cap: usize = self.builder.coin_cap;
        let target: u64 = cost_xch.saturating_add(fee);
        let xch_coins: Vec<WalletCoin> = if target > 0 {
            let coins = match self.builder.inputs.spendable_xch(identity) {
                Ok(coins) => coins,
                Err(error) => return Err(error),
            };
            match select_or_fail(coins.as_slice(), target, cap, "XCH (take)") {
                Ok(chosen) => chosen,
                Err(error) => return Err(error),
            }
        } else {
            Vec::new()
        };
        let mut cat_coins: Vec<WalletCat> = Vec::new();
        let ghost inputs = &self.builder.inputs;
        let ghost xch_view = xch_coins@;
        let mut i: usize = 0;
        while i < cost_cats.len()
            invariant
                i <= cost_cats@.len(),
                inputs == &self.builder.inputs,
                cap == self.builder.coin_cap,
                wallet_fits(inputs, identity@),
                xch_coins@ == xch_view,
                target == saturating(cost_xch, fee),
                (if target > 0 {
                    match inputs.xch_coins(identity@) {
                        Err(error) => Err(error),
                        Ok(coins) => chosen_coins(
                            coins,
                            target as nat,
                            cap as nat,
                            "XCH (take)"@,
                        ),
                    }
                } else {
                    Ok(Seq::empty())
                }) == Ok::<Seq<WalletCoin>, WalletErrorView>(xch_view),
                funded_cats(inputs, identity@, cost_cats@, cap as nat, i as nat) == Ok::<
                    Seq<WalletCat>,
                    WalletErrorView,
                >(cat_coins@),
            decreases cost_cats@.len() - i,
        {
            let (asset, need) = cost_cats[i];
            proof {
                if funded_cats(inputs, identity@, cost_cats@, cap as nat, i as nat + 1) is Err {
                    lemma_funded_failure(
                        inputs,
                        identity@,
                        cost_cats@,
                        cap as nat,
                        i as nat + 1,
                        cost_cats@.len(),
                    );
                }
                assert(cat_fits(inputs, identity@, hex_text(asset@)));
            }
            let asset_id = AssetId(hex_encode(asset.0.as_slice()));
            let available = match self.builder.inputs.spendable_cat(identity, &asset_id) {
                Ok(available) => available,
                Err(error) => return Err(error),
            };
            match select_cats(&available, &asset, need, cap) {
                Ok(chosen) => {
                    let mut more = chosen;
                    cat_coins.append(&mut more);
                },
                Err(error) => return Err(error),
            }
            i = i + 1;
        }
        let owner_keys = match self.owner_keys_for(&xch_coins, &cat_coins) {
            Ok(owner_keys) => owner_keys,
            Err(error) => return Err(error),
        };
        match self.builder.inputs.change_puzzle_hash(identity) {
            Err(error) => Err(error),
            Ok(change_puzzle_hash) => Ok(
                TakerSide { change_puzzle_hash, owner_keys, xch_coins, cat_coins },
            ),
        }
    }

    /// The keys that authorize coins: each XCH coin by its puzzle hash, each CAT coin by its
    /// inner puzzle hash. A coin without a key fails.
    fn owner_keys_for(&self, xch_coins: &Vec<WalletCoin>, cats: &Vec<WalletCat>) -> (result:
        WalletResult<indexmap::IndexMap<[u8; 32], [u8; 48]>>)
        ensures
            match result {
                Ok(keys) => owner_keys_of(&self.builder.inputs, xch_coins@, cats@) == Ok::<
                    Seq<(Bytes32, PublicKey)>,
                    WalletErrorView,
                >(keys_in(keys)),
                Err(error) => owner_keys_of(&self.builder.inputs, xch_coins@, cats@) == Err::<
                    Seq<(Bytes32, PublicKey)>,
                    WalletErrorView,
                >(error@),
            },
    {
        let mut keys = no_owner_keys();
        let ghost hashes = owner_hashes(xch_coins@, cats@);
        let ghost inputs = &self.builder.inputs;
        let mut i: usize = 0;
        while i < xch_coins.len()
            invariant
                i <= xch_coins@.len(),
                hashes == owner_hashes(xch_coins@, cats@),
                inputs == &self.builder.inputs,
                keys_for(inputs, hashes, i as nat) == Ok::<
                    Seq<(Bytes32, PublicKey)>,
                    WalletErrorView,
                >(keys_in(keys)),
            decreases xch_coins@.len() - i,
        {
            assert(hashes[i as int] == xch_coins@[i as int].puzzle_hash);
            match self.insert_key(&mut keys, &xch_coins[i].puzzle_hash) {
                Ok(()) => {},
                Err(error) => {
                    proof {
                        lemma_keys_failure(inputs, hashes, i as nat + 1, hashes.len());
                    }
                    return Err(error);
                },
            }
            i = i + 1;
        }
        let mut j: usize = 0;
        while j < cats.len()
            invariant
                j <= cats@.len(),
                hashes == owner_hashes(xch_coins@, cats@),
                inputs == &self.builder.inputs,
                keys_for(inputs, hashes, (xch_coins@.len() + j) as nat) == Ok::<
                    Seq<(Bytes32, PublicKey)>,
                    WalletErrorView,
                >(keys_in(keys)),
            decreases cats@.len() - j,
        {
            assert(hashes[xch_coins@.len() + j] == cats@[j as int].p2_puzzle_hash);
            match self.insert_key(&mut keys, &cats[j].p2_puzzle_hash) {
                Ok(()) => {},
                Err(error) => {
                    proof {
                        lemma_keys_failure(
                            inputs,
                            hashes,
                            (xch_coins@.len() + j + 1) as nat,
                            hashes.len(),
                        );
                    }
                    return Err(error);
                },
            }
            j = j + 1;
        }
        Ok(keys)
    }

    /// Adds the wallet's key for a puzzle hash, unless it is there already.
    fn insert_key(
        &self,
        keys: &mut indexmap::IndexMap<[u8; 32], [u8; 48]>,
        puzzle_hash: &Bytes32,
    ) -> (result: WalletResult<()>)
        ensures
            match result {
                Ok(()) => keys_in(*final(keys)) == if has_owner(keys_in(*old(keys)), *puzzle_hash) {
                    keys_in(*old(keys))
                } else {
                    with_owner(
                        keys_in(*old(keys)),
                        *puzzle_hash,
                        self.builder.inputs.key_of(*puzzle_hash)->0,
                    )
                } && (has_owner(keys_in(*old(keys)), *puzzle_hash)
                    || self.builder.inputs.key_of(*puzzle_hash) is Some),
                Err(error) => !has_owner(keys_in(*old(keys)), *puzzle_hash)
                    && self.builder.inputs.key_of(*puzzle_hash) is None && error@ == spend_fault(
                    "no public key for an offered coin's puzzle hash"@,
                ),
            },
    {
        if contains_owner(keys, puzzle_hash) {
            return Ok(());
        }
        match self.builder.inputs.synthetic_key(puzzle_hash) {
            None => Err(spend_failed("no public key for an offered coin's puzzle hash".to_owned())),
            Some(key) => {
                insert_owner(keys, puzzle_hash, &key);
                Ok(())
            },
        }
    }

    /// The keys that the wallet holds for the coins of an existing offer. Without any the wallet
    /// is not the maker, and the cancel is refused.
    fn owner_keys_for_offer(&self, offer: &String) -> (result: WalletResult<
        indexmap::IndexMap<[u8; 32], [u8; 48]>,
    >)
        ensures
            match result {
                Ok(keys) => offer_keys(&self.builder.inputs, offer@) == Ok::<
                    Seq<(Bytes32, PublicKey)>,
                    WalletErrorView,
                >(keys_in(keys)),
                Err(error) => offer_keys(&self.builder.inputs, offer@) == Err::<
                    Seq<(Bytes32, PublicKey)>,
                    WalletErrorView,
                >(error@),
            },
    {
        let spends = match decode_offer(offer.as_str()) {
            Ok(spends) => spends,
            Err(fault) => return Err(map_offer_error(fault)),
        };
        let mut keys = no_owner_keys();
        let ghost views = spends_view(spends@);
        let ghost inputs = &self.builder.inputs;
        let mut i: usize = 0;
        while i < spends.len()
            invariant
                i <= spends@.len(),
                views == spends_view(spends@),
                inputs == &self.builder.inputs,
                keys_in(keys) == known_keys(inputs, views, i as nat),
            decreases spends@.len() - i,
        {
            assert(views[i as int].coin == spends@[i as int].coin);
            match self.builder.inputs.synthetic_key(&spends[i].coin.puzzle_hash) {
                Some(key) => insert_owner(&mut keys, &spends[i].coin.puzzle_hash, &key),
                None => {},
            }
            i = i + 1;
        }
        if lacks_owners(&keys) {
            return Err(
                spend_failed(
                    "cannot cancel this offer: the wallet holds no standard-layer key for any of its offered coins (not the offer's maker, or a CAT/NFT offer whose coins must be reclaimed through their native layer)".to_owned(),
                ),
            );
        }
        Ok(keys)
    }
}

/// What a call that ends in a signed bundle returned, over views.
pub open spec fn signed_view(result: WalletResult<SignedBundle>) -> Result<
    WalletBundleView,
    WalletErrorView,
> {
    match result {
        Ok(signed) => Ok(signed.bundle@),
        Err(error) => Err(error@),
    }
}

proof fn lemma_makes_fit_waiting(builds: Map<Seq<char>, PendingOffer>, now: u64)
    requires
        makes_fit(builds),
    ensures
        makes_fit(waiting(builds, now)),
        forall|id: Seq<char>| makes_fit(#[trigger] waiting(builds, now).remove(id)),
{
    assert forall|id: Seq<char>| #[trigger]
        waiting(builds, now).contains_key(id) implies (waiting(
        builds,
        now,
    )[id].kind matches PendingKind::Make(make) ==> make_fits(make.side@, make.fee)) by {
        assert(builds.contains_key(id));
    }
}

proof fn lemma_keys_failure<I: SpendInputs>(inputs: &I, hashes: Seq<Bytes32>, i: nat, n: nat)
    requires
        i <= n,
        keys_for(inputs, hashes, i) is Err,
    ensures
        keys_for(inputs, hashes, n) == keys_for(inputs, hashes, i),
    decreases n - i,
{
    if i < n {
        lemma_keys_failure(inputs, hashes, i, (n - 1) as nat);
    }
}

proof fn lemma_offered_failure<I: SpendInputs>(
    inputs: &I,
    identity: IdentityView,
    cats: Seq<(AssetId, Amount)>,
    i: nat,
    n: nat,
)
    requires
        i <= n,
        offered_cats(inputs, identity, cats, i) is Err,
    ensures
        offered_cats(inputs, identity, cats, n) == offered_cats(inputs, identity, cats, i),
    decreases n - i,
{
    if i < n {
        lemma_offered_failure(inputs, identity, cats, i, (n - 1) as nat);
    }
}

proof fn lemma_asked_failure(cats: Seq<(AssetId, Amount)>, i: nat, n: nat)
    requires
        i <= n,
        asked_cats(cats, i) is Err,
    ensures
        asked_cats(cats, n) == asked_cats(cats, i),
    decreases n - i,
{
    if i < n {
        lemma_asked_failure(cats, i, (n - 1) as nat);
    }
}

proof fn lemma_funded_failure<I: SpendInputs>(
    inputs: &I,
    identity: IdentityView,
    cost: Seq<(Bytes32, u64)>,
    cap: nat,
    i: nat,
    n: nat,
)
    requires
        i <= n,
        funded_cats(inputs, identity, cost, cap, i) is Err,
    ensures
        funded_cats(inputs, identity, cost, cap, n) == funded_cats(inputs, identity, cost, cap, i),
    decreases n - i,
{
    if i < n {
        lemma_funded_failure(inputs, identity, cost, cap, i, (n - 1) as nat);
    }
}

proof fn lemma_lines_failure(payments: Seq<AskedPayment>, i: nat, n: nat)
    requires
        i <= n,
        payment_lines(payments, i) is Err,
    ensures
        payment_lines(payments, n) == payment_lines(payments, i),
    decreases n - i,
{
    if i < n {
        lemma_lines_failure(payments, i, (n - 1) as nat);
    }
}

/// Every offered line of a make is a protocol sink, and every received line pays the payee: the
/// two directions of the trade are never mixed.
pub proof fn a_make_shows_both_directions(
    offered: OfferedAssets,
    requested: RequestedAssets,
    fee: u64,
)
    ensures
        forall|i: int|
            0 <= i < make_summary_of(offered, requested, fee).outputs.len() ==> (
            #[trigger] make_summary_of(offered, requested, fee).outputs[i]).address.len() == 0,
        forall|i: int|
            0 <= i < make_summary_of(offered, requested, fee).received.len() ==> (
            #[trigger] make_summary_of(offered, requested, fee).received[i]).address
                == requested.payee@,
{
}

/// A maker never funds what it asks for: a make draws XCH only where it offers XCH or pays a fee,
/// and CATs only where it offers CATs.
pub proof fn a_make_draws_only_what_it_offers<I: SpendInputs>(
    builder: &SdkSpendBuilder<I>,
    request: MakeOfferRequest,
)
    ensures
        make_outcome(builder, request) matches Ok((side, _, _)) ==> {
            &&& request.offered.xch.0 == 0 && request.fee.0 == 0 ==> side.xch_coins.len() == 0
            &&& request.offered.cats@.len() == 0 ==> side.cat_coins.len() == 0
            &&& side.offer_xch == request.offered.xch.0
            &&& side.offer_cats.len() == request.offered.cats@.len()
        },
{
    lemma_offered_positive(
        &builder.inputs,
        request.identity@,
        request.offered.cats@,
        request.offered.cats@.len(),
    );
}

/// An empty or zero side never becomes an offer.
pub proof fn an_offer_has_two_sides<I: SpendInputs>(
    builder: &SdkSpendBuilder<I>,
    request: MakeOfferRequest,
)
    ensures
        make_outcome(builder, request) matches Ok((side, asked, _)) ==> {
            &&& side.offer_xch > 0 || side.offer_cats.len() > 0
            &&& asked.xch > 0 || asked.cats.len() > 0
            &&& forall|i: int| 0 <= i < asked.cats.len() ==> (#[trigger] asked.cats[i]).1 > 0
            &&& forall|i: int|
                0 <= i < side.offer_cats.len() ==> (#[trigger] side.offer_cats[i]).1 > 0
        },
{
    lemma_asked_positive(request.requested.cats@, request.requested.cats@.len());
    lemma_offered_positive(
        &builder.inputs,
        request.identity@,
        request.offered.cats@,
        request.offered.cats@.len(),
    );
}

proof fn lemma_asked_positive(cats: Seq<(AssetId, Amount)>, n: nat)
    ensures
        asked_cats(cats, n) matches Ok(legs) ==> legs.len() == n && forall|i: int|
            0 <= i < n ==> (#[trigger] legs[i]).1 > 0,
    decreases n,
{
    if n > 0 {
        lemma_asked_positive(cats, (n - 1) as nat);
        if let Ok(legs) = asked_cats(cats, n) {
            let front = asked_cats(cats, (n - 1) as nat)->Ok_0;
            assert forall|i: int| 0 <= i < n implies (#[trigger] legs[i]).1 > 0 by {
                if i < n - 1 {
                    assert(legs[i] == front[i]);
                }
            }
        }
    }
}

proof fn lemma_offered_positive<I: SpendInputs>(
    inputs: &I,
    identity: IdentityView,
    cats: Seq<(AssetId, Amount)>,
    n: nat,
)
    ensures
        offered_cats(inputs, identity, cats, n) matches Ok((_, legs)) ==> legs.len() == n
            && forall|i: int| 0 <= i < n ==> (#[trigger] legs[i]).1 > 0,
    decreases n,
{
    if n > 0 {
        lemma_offered_positive(inputs, identity, cats, (n - 1) as nat);
        if let Ok((_, legs)) = offered_cats(inputs, identity, cats, n) {
            let front = offered_cats(inputs, identity, cats, (n - 1) as nat)->Ok_0.1;
            assert forall|i: int| 0 <= i < n implies (#[trigger] legs[i]).1 > 0 by {
                if i < n - 1 {
                    assert(legs[i] == front[i]);
                }
            }
        }
    }
}

/// The sum of the amounts of one asset, if it fits a machine word.
fn sum_for(amounts: &Vec<(Option<Bytes32>, u64)>, asset: &Option<Bytes32>) -> (sum: Option<u64>)
    ensures
        match sum {
            Some(s) => s == asset_sum(amounts@, *asset),
            None => asset_sum(amounts@, *asset) > u64::MAX,
        },
{
    let mut sum: u64 = 0;
    let mut i: usize = 0;
    while i < amounts.len()
        invariant
            i <= amounts@.len(),
            sum == asset_sum(amounts@.take(i as int), *asset),
        decreases amounts@.len() - i,
    {
        assert(amounts@.take(i as int + 1).drop_last() =~= amounts@.take(i as int));
        if same_optional(&amounts[i].0, asset) {
            match sum.checked_add(amounts[i].1) {
                Some(more) => sum = more,
                None => {
                    proof {
                        lemma_asset_sum_of_prefix(
                            amounts@,
                            *asset,
                            i as int + 1,
                            amounts@.len() as int,
                        );
                        assert(amounts@.take(amounts@.len() as int) =~= amounts@);
                    }
                    return None;
                },
            }
        }
        i = i + 1;
    }
    assert(amounts@.take(i as int) =~= amounts@);
    Some(sum)
}

proof fn lemma_asset_sum_of_prefix(
    amounts: Seq<(Option<Bytes32>, u64)>,
    asset: Option<Bytes32>,
    i: int,
    j: int,
)
    requires
        0 <= i <= j <= amounts.len(),
    ensures
        asset_sum(amounts.take(i), asset) <= asset_sum(amounts.take(j), asset),
    decreases j - i,
{
    if i < j {
        lemma_asset_sum_of_prefix(amounts, asset, i, j - 1);
        assert(amounts.take(j).drop_last() =~= amounts.take(j - 1));
    }
}

proof fn lemma_absent_asset(amounts: Seq<(Option<Bytes32>, u64)>, asset: Option<Bytes32>)
    requires
        forall|i: int| 0 <= i < amounts.len() ==> (#[trigger] amounts[i]).0 != asset,
    ensures
        asset_sum(amounts, asset) == 0,
    decreases amounts.len(),
{
    if amounts.len() > 0 {
        let front = amounts.drop_last();
        assert forall|i: int| 0 <= i < front.len() implies (#[trigger] front[i]).0 != asset by {
            assert(front[i] == amounts[i]);
        }
        lemma_absent_asset(front, asset);
        assert(amounts[amounts.len() - 1] == amounts.last());
    }
}

/// Whether, for every asset, the amounts add up to a machine word.
fn is_sums_fitting(amounts: &Vec<(Option<Bytes32>, u64)>) -> (fits: bool)
    ensures
        fits == (forall|asset: Option<Bytes32>| #[trigger]
            asset_sum(amounts@, asset) <= u64::MAX),
{
    let mut i: usize = 0;
    while i < amounts.len()
        invariant
            i <= amounts@.len(),
            forall|k: int|
                0 <= k < i ==> asset_sum(amounts@, (#[trigger] amounts@[k]).0) <= u64::MAX,
        decreases amounts@.len() - i,
    {
        match sum_for(amounts, &amounts[i].0) {
            Some(_) => {},
            None => return false,
        }
        i = i + 1;
    }
    proof {
        assert forall|asset: Option<Bytes32>| #[trigger]
            asset_sum(amounts@, asset) <= u64::MAX by {
            if exists|k: int| 0 <= k < amounts@.len() && (#[trigger] amounts@[k]).0 == asset {
                let k = choose|k: int| 0 <= k < amounts@.len() && (#[trigger] amounts@[k]).0
                    == asset;
                assert(asset_sum(amounts@, amounts@[k].0) <= u64::MAX);
            } else {
                lemma_absent_asset(amounts@, asset);
            }
        }
    }
    true
}

/// Whether the amounts of an offer text can be added up in machine words.
pub fn is_offer_fitting(offer: &str) -> (fits: bool)
    ensures
        fits == offer_fits(offer@),
{
    match offer_amounts(offer) {
        Err(_) => true,
        Ok(amounts) => {
            let offered: bool = is_sums_fitting(&amounts.offered);
            let requested: bool = is_sums_fitting(&amounts.requested);
            proof {
                let view = amounts@;
                if offered && requested {
                    assert(sums_fit(view));
                }
                if !offered {
                    let asset = choose|asset: Option<Bytes32>|
                        #[trigger] asset_sum(view.offered, asset) > u64::MAX;
                    assert(asset_sum(view.offered, asset) > u64::MAX);
                }
                if !requested {
                    let asset = choose|asset: Option<Bytes32>|
                        #[trigger] asset_sum(view.requested, asset) > u64::MAX;
                    assert(asset_sum(view.requested, asset) > u64::MAX);
                }
            }
            offered && requested
        },
    }
}

/// Whether the amounts of a take can be added up in machine words.
fn is_take_fitting(offer: &str, funds: &TakerSide, fee: u64) -> (fits: bool)
    ensures
        fits == take_fits(offer@, funds@, fee),
{
    match offer_amounts(offer) {
        Err(_) => true,
        Ok(amounts) => {
            let ghost before = amounts@;
            let mut offered = amounts.offered;
            let mut requested = amounts.requested;
            requested.push((None, fee));
            let ghost xch = funds.xch_coins@.map_values(
                |c: WalletCoin| (None::<Bytes32>, c.amount),
            );
            let ghost cats = funds.cat_coins@.map_values(
                |c: WalletCat| (Some(c.asset_id), c.coin.amount),
            );
            let mut i: usize = 0;
            assert(offered@ =~= before.offered + xch.take(0));
            while i < funds.xch_coins.len()
                invariant
                    i <= funds.xch_coins@.len(),
                    xch == funds.xch_coins@.map_values(
                        |c: WalletCoin| (None::<Bytes32>, c.amount),
                    ),
                    offered@ == before.offered + xch.take(i as int),
                decreases funds.xch_coins@.len() - i,
            {
                offered.push((None, funds.xch_coins[i].amount));
                i = i + 1;
                assert(offered@ =~= before.offered + xch.take(i as int));
            }
            assert(xch.take(i as int) =~= xch);
            let mut j: usize = 0;
            assert(offered@ =~= before.offered + (xch + cats.take(0)));
            while j < funds.cat_coins.len()
                invariant
                    j <= funds.cat_coins@.len(),
                    cats == funds.cat_coins@.map_values(
                        |c: WalletCat| (Some(c.asset_id), c.coin.amount),
                    ),
                    offered@ == before.offered + (xch + cats.take(j as int)),
                decreases funds.cat_coins@.len() - j,
            {
                offered.push((Some(funds.cat_coins[j].asset_id), funds.cat_coins[j].coin.amount));
                j = j + 1;
                assert(offered@ =~= before.offered + (xch + cats.take(j as int)));
            }
            assert(cats.take(j as int) =~= cats);
            assert(offered@ =~= before.offered + funds_amounts(funds@));
            let first: bool = is_sums_fitting(&offered);
            let second: bool = is_sums_fitting(&requested);
            proof {
                let view = OfferAmountsView { offered: offered@, requested: requested@ };
                assert(view.requested =~= before.requested.push((None, fee)));
                if first && second {
                    assert(sums_fit(view));
                }
                if !first {
                    let asset = choose|asset: Option<Bytes32>|
                        #[trigger] asset_sum(view.offered, asset) > u64::MAX;
                    assert(asset_sum(view.offered, asset) > u64::MAX);
                }
                if !second {
                    let asset = choose|asset: Option<Bytes32>|
                        #[trigger] asset_sum(view.requested, asset) > u64::MAX;
                    assert(asset_sum(view.requested, asset) > u64::MAX);
                }
            }
            first && second
        },
    }
}

/// Adds the id to a finished offer text.
pub fn finish_offer_string(offer: String) -> (result: WalletResult<OfferString>)
    ensures
        offer_string_view(result) == with_id(offer@),
{
    match compute_offer_id(&offer) {
        Err(error) => Err(error),
        Ok(offer_id) => Ok(OfferString { offer, offer_id }),
    }
}

/// The offer's id in lowercase hex.
pub fn compute_offer_id(offer: &String) -> (result: WalletResult<String>)
    ensures
        match result {
            Ok(id) => id_of_offer(offer@) matches Ok(bytes) && id@ == hex_text(bytes@),
            Err(error) => id_of_offer(offer@) matches Err(fault) && error@ == offer_error(fault),
        },
{
    match offer_id(offer.as_str()) {
        Ok(id) => Ok(hex_encode(id.0.as_slice())),
        Err(fault) => Err(map_offer_error(fault)),
    }
}

/// Resolves what a maker asks for.
pub fn resolve_requested_side(requested: &RequestedAssets) -> (result: WalletResult<AskedSide>)
    ensures
        match result {
            Ok(asked) => asked_side_of(*requested) == Ok::<AskedSideView, WalletErrorView>(asked@),
            Err(error) => asked_side_of(*requested) == Err::<AskedSideView, WalletErrorView>(error@),
        },
{
    let xch: u64 = requested.xch.mojos();
    let mut cats: Vec<(Bytes32, u64)> = Vec::new();
    let ghost legs = requested.cats@;
    let mut i: usize = 0;
    while i < requested.cats.len()
        invariant
            i <= requested.cats@.len(),
            legs == requested.cats@,
            asked_cats(legs, i as nat) == Ok::<Seq<(Bytes32, u64)>, WalletErrorView>(cats@),
        decreases requested.cats@.len() - i,
    {
        let amount: u64 = requested.cats[i].1.mojos();
        proof {
            if asked_cats(legs, i as nat + 1) is Err {
                lemma_asked_failure(legs, i as nat + 1, legs.len());
            }
        }
        if amount == 0 {
            return Err(
                WalletError::invalid_input("a requested CAT amount must be non-zero".to_owned()),
            );
        }
        match parse_asset_id(&requested.cats[i].0) {
            Ok(asset) => cats.push((asset, amount)),
            Err(error) => return Err(error),
        }
        i = i + 1;
    }
    if xch == 0 && cats.len() == 0 {
        return Err(
            WalletError::invalid_input("an offer must request at least one asset".to_owned()),
        );
    }
    match decode_address(&requested.payee) {
        Err(error) => Err(error),
        Ok(payee_puzzle_hash) => Ok(AskedSide { payee_puzzle_hash, xch, cats }),
    }
}

/// One line for the XCH, if any, and one for each CAT, all to one address.
fn lines_for(xch: Amount, cats: &Vec<(AssetId, Amount)>, address: &Address) -> (lines: Vec<
    SpendOutput,
>)
    ensures
        outputs_view(lines@) == trade_lines(xch.0, cats@, address@),
{
    let mut lines: Vec<SpendOutput> = Vec::new();
    if xch.mojos() > 0 {
        lines.push(SpendOutput { address: address.clone(), amount: xch, asset_id: None });
    }
    let ghost want = trade_lines(xch.0, cats@, address@);
    let ghost start = lines@.len() as int;
    let mut i: usize = 0;
    while i < cats.len()
        invariant
            i <= cats@.len(),
            want == trade_lines(xch.0, cats@, address@),
            start == if xch.0 > 0 { 1int } else { 0int },
            lines@.len() == start + i,
            forall|k: int| 0 <= k < start + i ==> (#[trigger] lines@[k])@ == want[k],
        decreases cats@.len() - i,
    {
        lines.push(
            SpendOutput {
                address: address.clone(),
                amount: cats[i].1,
                asset_id: Some(cats[i].0.clone()),
            },
        );
        i = i + 1;
    }
    assert(outputs_view(lines@) =~= want);
    lines
}

/// The review summary of a make: what leaves, what comes in, and the fee.
pub fn make_summary(offered: &OfferedAssets, requested: &RequestedAssets, fee: u64) -> (summary:
    TransactionSummary)
    ensures
        summary@ == make_summary_of(*offered, *requested, fee),
{
    let sink = Address(String::new());
    let summary = TransactionSummary {
        outputs: lines_for(offered.xch, &offered.cats, &sink),
        received: lines_for(requested.xch, &requested.cats, &requested.payee),
        fee: Amount(fee),
        melted_singletons: Vec::new(),
        nft_operations: Vec::new(),
    };
    assert(summary@.melted_singletons =~= Seq::empty());
    assert(summary@.nft_operations =~= Seq::empty());
    summary
}

/// The review summary of a take: every payment that the offer asks for, to its real payee.
pub fn taker_summary(payments: &Vec<AskedPayment>, fee: u64) -> (result: WalletResult<
    TransactionSummary,
>)
    ensures
        match result {
            Ok(summary) => payment_lines(payments@, payments@.len()) matches Ok(lines)
                && summary@ == plain_summary(lines, fee),
            Err(error) => payment_lines(payments@, payments@.len()) == Err::<
                Seq<SpendOutputView>,
                WalletErrorView,
            >(error@),
        },
{
    let mut outputs: Vec<SpendOutput> = Vec::new();
    let mut i: usize = 0;
    assert(outputs_view(outputs@) =~= Seq::empty());
    while i < payments.len()
        invariant
            i <= payments@.len(),
            payment_lines(payments@, i as nat) == Ok::<Seq<SpendOutputView>, WalletErrorView>(
                outputs_view(outputs@),
            ),
        decreases payments@.len() - i,
    {
        match requested_payment_output(&payments[i]) {
            Ok(line) => {
                let ghost before = outputs@;
                outputs.push(line);
                assert(outputs_view(outputs@) =~= outputs_view(before).push(line@));
            },
            Err(error) => {
                proof {
                    lemma_lines_failure(payments@, i as nat + 1, payments@.len());
                }
                return Err(error);
            },
        }
        i = i + 1;
    }
    Ok(TransactionSummary::new(outputs, Amount(fee)))
}

/// The output line of a requested payment.
fn requested_payment_output(payment: &AskedPayment) -> (result: WalletResult<SpendOutput>)
    ensures
        match result {
            Ok(line) => payment_line(*payment) == Ok::<SpendOutputView, WalletErrorView>(line@),
            Err(error) => payment_line(*payment) == Err::<SpendOutputView, WalletErrorView>(error@),
        },
{
    match encode_bech32(&payment.puzzle_hash, "xch") {
        Err(fault) => Err(
            spend_failed(joined("cannot encode payee address: ", fault.as_str())),
        ),
        Ok(address) => Ok(
            SpendOutput {
                address: Address(address),
                amount: Amount(payment.amount),
                asset_id: match payment.asset_id {
                    Some(asset) => Some(AssetId(hex_encode(asset.0.as_slice()))),
                    None => None,
                },
            },
        ),
    }
}

/// Translates an asset leg for review.
pub fn map_offer_asset(leg: &LegAsset) -> (asset: SummaryAsset)
    ensures
        asset@ == leg_view(*leg),
{
    match leg {
        LegAsset::Xch(amount) => SummaryAsset::Xch { amount: Amount(*amount) },
        LegAsset::Cat { asset_id, amount } => SummaryAsset::Cat {
            asset_id: AssetId(hex_encode(asset_id.0.as_slice())),
            amount: Amount(*amount),
        },
        LegAsset::Nft { launcher_id } => SummaryAsset::Nft {
            launcher_id: hex_encode(launcher_id.0.as_slice()),
        },
    }
}

/// Translates asset legs for review.
fn map_offer_assets(legs: &Vec<LegAsset>) -> (assets: Vec<SummaryAsset>)
    ensures
        assets_view(assets@) == legs_view(legs@),
{
    let mut assets: Vec<SummaryAsset> = Vec::new();
    let mut i: usize = 0;
    while i < legs.len()
        invariant
            i <= legs@.len(),
            assets@.len() == i,
            forall|k: int| 0 <= k < i ==> (#[trigger] assets@[k])@ == leg_view(legs@[k]),
        decreases legs@.len() - i,
    {
        assets.push(map_offer_asset(&legs[i]));
        i = i + 1;
    }
    assert(assets_view(assets@) =~= legs_view(legs@));
    assets
}

/// Translates what a taker has to fund for review.
pub fn cost_to_assets(xch: u64, cats: &Vec<(Bytes32, u64)>) -> (assets: Vec<SummaryAsset>)
    ensures
        assets_view(assets@) == cost_view(xch, cats@),
{
    let mut assets: Vec<SummaryAsset> = Vec::new();
    if xch > 0 {
        assets.push(SummaryAsset::Xch { amount: Amount(xch) });
    }
    let ghost want = cost_view(xch, cats@);
    let ghost start = assets@.len() as int;
    let mut i: usize = 0;
    while i < cats.len()
        invariant
            i <= cats@.len(),
            want == cost_view(xch, cats@),
            start == if xch > 0 { 1int } else { 0int },
            assets@.len() == start + i,
            forall|k: int| 0 <= k < start + i ==> (#[trigger] assets@[k])@ == want[k],
        decreases cats@.len() - i,
    {
        let (asset, amount) = cats[i];
        assets.push(
            SummaryAsset::Cat {
                asset_id: AssetId(hex_encode(asset.0.as_slice())),
                amount: Amount(amount),
            },
        );
        i = i + 1;
    }
    assert(assets_view(assets@) =~= want);
    assets
}

/// Selects the CAT coins of an asset that cover a need, by the selection that sends use.
pub fn select_cats(coins: &Vec<WalletCat>, asset: &Bytes32, need: u64, cap: usize) -> (result:
    WalletResult<Vec<WalletCat>>)
    requires
        total_of_coins(cat_coins(coins@)) <= u64::MAX,
    ensures
        match result {
            Ok(chosen) => chosen_cats(coins@, *asset, need as nat, cap as nat) == Ok::<
                Seq<WalletCat>,
                WalletErrorView,
            >(chosen@),
            Err(error) => chosen_cats(coins@, *asset, need as nat, cap as nat) == Err::<
                Seq<WalletCat>,
                WalletErrorView,
            >(error@),
        },
{
    let mine = cats_of_asset(coins, asset);
    proof {
        lemma_filtered_total(coins@, |c: WalletCat| c.asset_id == *asset);
    }
    let underlying = underlying_coins(&mine);
    let label = joined3("CAT ", hex_encode(asset.0.as_slice()).as_str(), " (take)");
    let chosen = match select_or_fail(underlying.as_slice(), need, cap, label.as_str()) {
        Ok(chosen) => chosen,
        Err(error) => return Err(error),
    };
    let ghost keep = |c: WalletCat| is_chosen(chosen@, id_of(c.coin));
    let mut kept: Vec<WalletCat> = Vec::new();
    let mut j: usize = 0;
    assert(mine@.take(0).filter(keep) =~= Seq::empty()) by {
        reveal(Seq::filter);
    }
    while j < mine.len()
        invariant
            j <= mine@.len(),
            keep == (|c: WalletCat| is_chosen(chosen@, id_of(c.coin))),
            kept@ == mine@.take(j as int).filter(keep),
        decreases mine@.len() - j,
    {
        proof {
            reveal(Seq::filter);
            assert(mine@.take(j as int + 1).drop_last() =~= mine@.take(j as int));
        }
        if is_id_chosen(&chosen, &mine[j].coin.coin_id()) {
            kept.push(mine[j]);
        }
        j = j + 1;
    }
    assert(mine@.take(j as int) =~= mine@);
    Ok(kept)
}

/// Whether a coin with this id is among the chosen ones.
fn is_id_chosen(chosen: &Vec<WalletCoin>, id: &Bytes32) -> (found: bool)
    ensures
        found == is_chosen(chosen@, *id),
{
    let mut i: usize = 0;
    while i < chosen.len()
        invariant
            i <= chosen@.len(),
            forall|k: int| 0 <= k < i ==> id_of(#[trigger] chosen@[k]) != *id,
        decreases chosen@.len() - i,
    {
        if chosen[i].coin_id().same(id) {
            return true;
        }
        i = i + 1;
    }
    false
}

/// The error for a build id that is unknown, expired or of the other flow.
pub fn unknown_build() -> (error: WalletError)
    ensures
        error@ == no_such_build(),
{
    WalletError::new(
        WalletErrorCode::InvalidInput,
        "unknown or expired offer build id (the build may have timed out — rebuild it)".to_owned(),
    )
}

} // verus!
