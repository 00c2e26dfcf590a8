//! Leg-based offer requests.

use vstd::prelude::*;

use super::identity::IdentityRef;
use super::value::{Amount, AssetId, Puzzlehash};

verus! {

/// One asset leg of an offer request.
#[derive(Debug, Clone, PartialEq, Eq)]
pub enum OfferLeg {
    /// Native XCH.
    Xch {
        /// The amount in mojos.
        amount: Amount,
    },
    /// A CAT.
    Cat {
        /// The asset id.
        asset_id: AssetId,
        /// The amount in base units.
        amount: Amount,
    },
}

/// A request to make an offer.
#[derive(Debug, Clone, PartialEq, Eq)]
pub struct MakeOfferRequest {
    /// The maker.
    pub identity: IdentityRef,
    /// What the maker gives.
    pub offered: Vec<OfferLeg>,
    /// What the maker asks for.
    pub requested: Vec<OfferLeg>,
    /// The puzzle hash that is to be paid.
    pub payee_puzzle_hash: Puzzlehash,
    /// The fee to pay the farmer.
    pub fee: Amount,
}

/// A request to take an offer.
#[derive(Debug, Clone, PartialEq, Eq)]
pub struct TakeOfferRequest {
    /// The taker.
    pub identity: IdentityRef,
    /// The offer text (`offer1…`).
    pub offer: String,
    /// The fee to pay the farmer.
    pub fee: Amount,
}

/// A request to cancel an offer.
#[derive(Debug, Clone, PartialEq, Eq)]
pub struct CancelOfferRequest {
    /// The maker.
    pub identity: IdentityRef,
    /// The offer text (`offer1…`).
    pub offer: String,
    /// Where the offered coins go.
    pub reclaim_puzzle_hash: Puzzlehash,
    /// The fee to pay the farmer.
    pub fee: Amount,
}

} // verus!
