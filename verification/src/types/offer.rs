//! Offers: requests, answers and the review summary.

use vstd::prelude::*;

use super::identity::IdentityRef;
use super::spend::{SignedBundle, UnsignedSpend};
use super::value::{Address, Amount, AssetId};

verus! {

/// The id under which a half-built offer waits for its second call.
#[derive(Debug, PartialEq, Eq, Hash)]
pub struct OfferBuildId(pub String);

impl View for OfferBuildId {
    type V = Seq<char>;

    open spec fn view(&self) -> Seq<char> {
        self.0@
    }
}

impl Clone for OfferBuildId {
    fn clone(&self) -> (copy: Self)
        ensures
            copy == *self,
    {
        OfferBuildId(self.0.clone())
    }
}

/// What a maker gives.
#[derive(Debug, Clone, PartialEq, Eq)]
pub struct OfferedAssets {
    /// The XCH offered.
    pub xch: Amount,
    /// The CATs offered.
    pub cats: Vec<(AssetId, Amount)>,
}

/// What a maker asks for.
#[derive(Debug, Clone, PartialEq, Eq)]
pub struct RequestedAssets {
    /// The XCH requested.
    pub xch: Amount,
    /// The CATs requested.
    pub cats: Vec<(AssetId, Amount)>,
    /// The address that is to be paid.
    pub payee: Address,
}

/// A request to build the maker's side of an offer.
#[derive(Debug, Clone, PartialEq, Eq)]
pub struct MakeOfferRequest {
    /// The maker.
    pub identity: IdentityRef,
    /// What the maker gives.
    pub offered: OfferedAssets,
    /// What the maker asks for.
    pub requested: RequestedAssets,
    /// The fee to pay the farmer.
    pub fee: Amount,
}

/// A request to assemble a signed make into an offer text.
#[derive(Debug, Clone, PartialEq, Eq)]
pub struct AssembleOfferRequest {
    /// The build to finish.
    pub build_id: OfferBuildId,
    /// The maker's signed bundle.
    pub signed: SignedBundle,
}

/// A request to build the taker's side of an offer.
#[derive(Debug, Clone, PartialEq, Eq)]
pub struct TakeOfferRequest {
    /// The taker.
    pub identity: IdentityRef,
    /// The offer text (`offer1…`).
    pub offer: String,
    /// The fee to pay the farmer.
    pub fee: Amount,
}

/// A request to finish a signed take.
#[derive(Debug, Clone, PartialEq, Eq)]
pub struct FinalizeTakeRequest {
    /// The build to finish.
    pub build_id: OfferBuildId,
    /// The taker's signed bundle.
    pub signed: SignedBundle,
}

/// A request to reclaim the coins of an outstanding offer.
#[derive(Debug, Clone, PartialEq, Eq)]
pub struct CancelOfferRequest {
    /// The maker.
    pub identity: IdentityRef,
    /// The offer text (`offer1…`).
    pub offer: String,
    /// The fee to pay the farmer.
    pub fee: Amount,
}

/// A request to combine offers into one.
#[derive(Debug, Clone, PartialEq, Eq)]
pub struct CombineOffersRequest {
    /// The offer texts.
    pub offers: Vec<String>,
}

/// A request to summarize an offer.
#[derive(Debug, Clone, PartialEq, Eq)]
pub struct SummarizeOfferRequest {
    /// The offer text (`offer1…`).
    pub offer: String,
}

/// The first half of a make or a take: what to sign, and the id of the waiting build.
#[derive(Debug, Clone, PartialEq, Eq)]
pub struct PendingOfferBuild {
    /// The id to hand back with the signed bundle.
    pub build_id: OfferBuildId,
    /// What to review and sign.
    pub unsigned: UnsignedSpend,
}

/// A finished offer.
#[derive(Debug, Clone, PartialEq, Eq)]
pub struct OfferString {
    /// The offer text (`offer1…`).
    pub offer: String,
    /// The offer's id, in lowercase hex.
    pub offer_id: String,
}

/// One asset leg of an [`OfferSummary`].
#[derive(Debug, Clone, PartialEq, Eq)]
pub enum SummaryAsset {
    /// Native XCH.
    Xch {
        /// The amount in mojos.
        amount: Amount,
    },
    /// A CAT.
    Cat {
        /// The asset id.
        asset_id: AssetId,
        /// The amount in base units.
        amount: Amount,
    },
    /// An NFT.
    Nft {
        /// The launcher id (hex).
        launcher_id: String,
    },
}

/// What a [`SummaryAsset`] says.
pub enum SummaryAssetView {
    /// Native XCH.
    Xch {
        /// The amount.
        amount: u64,
    },
    /// A CAT.
    Cat {
        /// The asset id.
        asset_id: Seq<char>,
        /// The amount.
        amount: u64,
    },
    /// An NFT.
    Nft {
        /// The launcher id.
        launcher_id: Seq<char>,
    },
}

impl View for SummaryAsset {
    type V = SummaryAssetView;

    open spec fn view(&self) -> SummaryAssetView {
        match self {
            SummaryAsset::Xch { amount } => SummaryAssetView::Xch { amount: amount.0 },
            SummaryAsset::Cat { asset_id, amount } =>
                SummaryAssetView::Cat { asset_id: asset_id@, amount: amount.0 },
            SummaryAsset::Nft { launcher_id } => SummaryAssetView::Nft { launcher_id: launcher_id@ },
        }
    }
}

/// What a list of asset legs says.
pub open spec fn assets_view(assets: Seq<SummaryAsset>) -> Seq<SummaryAssetView> {
    assets.map_values(|a: SummaryAsset| a@)
}

/// Both sides of an offer and its economics.
#[derive(Debug, Clone, PartialEq, Eq)]
pub struct OfferSummary {
    /// The offer's id, in lowercase hex.
    pub offer_id: String,
    /// What the offer gives.
    pub offered: Vec<SummaryAsset>,
    /// What the offer asks for.
    pub requested: Vec<SummaryAsset>,
    /// What a taker has to fund.
    pub arbitrage: Vec<SummaryAsset>,
    /// The royalties: NFT launcher id (hex) and basis points.
    pub royalties: Vec<(String, u16)>,
}

/// What an [`OfferSummary`] says.
pub struct OfferSummaryView {
    /// The offer's id.
    pub offer_id: Seq<char>,
    /// What the offer gives.
    pub offered: Seq<SummaryAssetView>,
    /// What the offer asks for.
    pub requested: Seq<SummaryAssetView>,
    /// What a taker has to fund.
    pub arbitrage: Seq<SummaryAssetView>,
    /// The royalties.
    pub royalties: Seq<(Seq<char>, u16)>,
}

impl View for OfferSummary {
    type V = OfferSummaryView;

    open spec fn view(&self) -> OfferSummaryView {
        OfferSummaryView {
            offer_id: self.offer_id@,
            offered: assets_view(self.offered@),
            requested: assets_view(self.requested@),
            arbitrage: assets_view(self.arbitrage@),
            royalties: self.royalties@.map_values(|r: (String, u16)| (r.0@, r.1)),
        }
    }
}

} // verus!
