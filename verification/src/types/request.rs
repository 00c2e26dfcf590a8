//! Spend requests: the inputs of a build.

use vstd::prelude::*;

use super::identity::IdentityRef;
use super::value::{Address, Amount, AssetId};

verus! {

/// A request to send native XCH.
#[derive(Debug, Clone, PartialEq, Eq)]
pub struct SendXchRequest {
    /// The paying identity.
    pub identity: IdentityRef,
    /// The destination address.
    pub to: Address,
    /// The amount to send.
    pub amount: Amount,
    /// The fee to pay the farmer.
    pub fee: Amount,
}

/// A request to send a CAT.
#[derive(Debug, Clone, PartialEq, Eq)]
pub struct SendCatRequest {
    /// The paying identity.
    pub identity: IdentityRef,
    /// The CAT asset id.
    pub asset_id: AssetId,
    /// The destination address.
    pub to: Address,
    /// The amount to send.
    pub amount: Amount,
    /// The fee to pay the farmer.
    pub fee: Amount,
}

/// One leg of a multi-output send.
#[derive(Debug, Clone, PartialEq, Eq)]
pub struct SendLeg {
    /// The destination address.
    pub to: Address,
    /// The amount that the destination receives.
    pub amount: Amount,
}

/// A request to pay a set of XCH destinations in one spend.
#[derive(Debug, Clone, PartialEq, Eq)]
pub struct MultiSendXchRequest {
    /// The paying identity.
    pub identity: IdentityRef,
    /// The destinations and what each receives.
    pub legs: Vec<SendLeg>,
    /// The fee to pay the farmer.
    pub fee: Amount,
}

/// A request to pay a set of destinations of one CAT asset in one spend.
#[derive(Debug, Clone, PartialEq, Eq)]
pub struct MultiSendCatRequest {
    /// The paying identity.
    pub identity: IdentityRef,
    /// The CAT asset id.
    pub asset_id: AssetId,
    /// The destinations and what each receives.
    pub legs: Vec<SendLeg>,
    /// The fee to pay the farmer, in XCH.
    pub fee: Amount,
}

/// A request to merge the wallet's own XCH coins into one.
#[derive(Debug, Clone, PartialEq, Eq)]
pub struct CombineXchRequest {
    /// The paying identity.
    pub identity: IdentityRef,
    /// The fee to pay the farmer.
    pub fee: Amount,
}

/// A request to split the wallet's largest XCH coin.
#[derive(Debug, Clone, PartialEq, Eq)]
pub struct SplitXchRequest {
    /// The paying identity.
    pub identity: IdentityRef,
    /// How many coins the split produces.
    pub parts: u32,
    /// The fee to pay the farmer.
    pub fee: Amount,
}

} // verus!
