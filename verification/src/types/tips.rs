//! Tips: requests, the auto-tip policy and its decisions.

use vstd::prelude::*;

use super::identity::IdentityRef;
use super::spend::{UnsignedSpend, UnsignedSpendView};
use super::value::{Amount, AssetId, Puzzlehash};

verus! {

/// A request to tip a CAT.
#[derive(Debug, Clone, PartialEq, Eq)]
pub struct TipRequest {
    /// The tipping identity.
    pub identity: IdentityRef,
    /// The CAT asset id.
    pub asset_id: AssetId,
    /// The recipient.
    pub recipient: Puzzlehash,
    /// The amount in base units.
    pub amount: Amount,
}

/// Whether a tip goes out by itself.
#[derive(Debug, Clone, Copy, PartialEq, Eq, Hash, Structural)]
pub enum TipMode {
    /// Tips are sent without asking.
    Auto,
    /// Every tip needs approval.
    Manual,
}

/// The user's auto-tip policy.
#[derive(Debug, Clone, PartialEq, Eq)]
pub struct AutoTipPolicy {
    /// Whether tipping is switched on.
    pub enabled: bool,
    /// Whether a tip goes out by itself.
    pub mode: TipMode,
    /// The CAT to tip.
    pub asset_id: AssetId,
    /// The recipient.
    pub recipient: Puzzlehash,
    /// The amount of one tip.
    pub tip_amount: Amount,
    /// The least primary send that is tipped on.
    pub threshold: Amount,
    /// The most tips in a day.
    pub max_tips_per_day: u32,
    /// The most base units in a day.
    pub max_amount_per_day: Amount,
}

/// What has been tipped today.
#[derive(Debug, Clone, Copy, PartialEq, Eq, Structural)]
pub struct TipLedger {
    /// The number of tips.
    pub tips_today: u32,
    /// The base units tipped.
    pub amount_today: Amount,
}

impl Default for TipLedger {
    /// Nothing tipped yet.
    fn default() -> (ledger: Self)
        ensures
            ledger == (TipLedger { tips_today: 0, amount_today: Amount(0) }),
    {
        TipLedger { tips_today: 0, amount_today: Amount(0) }
    }
}

/// A request to decide on, and if due build, an automatic tip.
#[derive(Debug, Clone, PartialEq, Eq)]
pub struct AutoTipRequest {
    /// The tipping identity.
    pub identity: IdentityRef,
    /// The policy.
    pub policy: AutoTipPolicy,
    /// The amount of the send that prompts the tip.
    pub primary_send_amount: Amount,
    /// What has been tipped today.
    pub ledger: TipLedger,
}

/// Which daily cap stopped a tip.
#[derive(Debug, Clone, Copy, PartialEq, Eq, Hash, Structural)]
pub enum CapReason {
    /// The number of tips.
    Frequency,
    /// The amount tipped.
    Amount,
}

/// Whether a tip is due.
#[derive(Debug, Clone, Copy, PartialEq, Eq, Structural)]
pub enum TipDecision {
    /// A tip is due.
    Tip {
        /// Its amount.
        amount: Amount,
    },
    /// Tipping is switched off.
    SkipDisabled,
    /// The primary send is below the threshold.
    SkipBelowThreshold,
    /// The tip needs an approval that it does not have.
    SkipManualNotApproved,
    /// A daily cap is reached.
    SkipCapReached {
        /// Which one.
        reason: CapReason,
    },
}

/// The decision on an automatic tip, with the spend when one was built.
#[derive(Debug, Clone, PartialEq, Eq)]
pub struct AutoTipOutcome {
    /// The decision.
    pub decision: TipDecision,
    /// The spend to review and sign, exactly when a tip is due.
    pub unsigned: Option<UnsignedSpend>,
}

/// What an [`AutoTipOutcome`] says.
pub struct AutoTipView {
    /// The decision.
    pub decision: TipDecision,
    /// The spend to review and sign.
    pub unsigned: Option<UnsignedSpendView>,
}

impl View for AutoTipOutcome {
    type V = AutoTipView;

    open spec fn view(&self) -> AutoTipView {
        AutoTipView {
            decision: self.decision,
            unsigned: match self.unsigned {
                Some(unsigned) => Some(unsigned@),
                None => None,
            },
        }
    }
}

} // verus!
