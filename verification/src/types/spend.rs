//! Unsigned and signed spends.

use vstd::prelude::*;

use super::chain::{spends_view, WalletSpend, WalletSpendView, PublicKey, WalletBundle};
use super::value::{SummaryView, TransactionSummary};

verus! {

/// One signature that a spend needs.
#[derive(Debug, Clone, PartialEq, Eq)]
pub struct RequiredSignature {
    /// The key that must sign.
    pub public_key: PublicKey,
    /// The message to sign.
    pub message: Vec<u8>,
}

/// What a [`RequiredSignature`] says.
pub struct RequiredSignatureView {
    /// The key.
    pub public_key: PublicKey,
    /// The message.
    pub message: Seq<u8>,
}

impl View for RequiredSignature {
    type V = RequiredSignatureView;

    open spec fn view(&self) -> RequiredSignatureView {
        RequiredSignatureView { public_key: self.public_key, message: self.message@ }
    }
}

/// What a list of required signatures says.
pub open spec fn signatures_view(required: Seq<RequiredSignature>) -> Seq<RequiredSignatureView> {
    required.map_values(|r: RequiredSignature| r@)
}

/// A spend for review and signing: the coin spends, the signatures they need and a summary.
#[derive(Debug, Clone, PartialEq, Eq)]
pub struct UnsignedSpend {
    /// The coin spends.
    pub coin_spends: Vec<WalletSpend>,
    /// The signatures that they need.
    pub required_signatures: Vec<RequiredSignature>,
    /// The effect, for review.
    pub summary: TransactionSummary,
}

/// What an [`UnsignedSpend`] says.
pub struct UnsignedSpendView {
    /// The coin spends.
    pub coin_spends: Seq<WalletSpendView>,
    /// The signatures that they need.
    pub required_signatures: Seq<RequiredSignatureView>,
    /// The effect.
    pub summary: SummaryView,
}

impl View for UnsignedSpend {
    type V = UnsignedSpendView;

    open spec fn view(&self) -> UnsignedSpendView {
        UnsignedSpendView {
            coin_spends: spends_view(self.coin_spends@),
            required_signatures: signatures_view(self.required_signatures@),
            summary: self.summary@,
        }
    }
}

/// A signed bundle, ready for broadcast.
#[derive(Debug, Clone, PartialEq, Eq)]
pub struct SignedBundle {
    /// The coin spends with their aggregated signature.
    pub bundle: WalletBundle,
}

} // verus!
