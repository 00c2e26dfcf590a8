//! The calls into `dig_tips`, which decides on automatic tips and writes the spends of tips.

use chia_wallet_sdk::driver::Cat;
use dig_cat::CatError;
use dig_tips::{AutoTipPolicy as OutsidePolicy, LedgerSnapshot, TipDecision as OutsideDecision};
use vstd::prelude::*;

use super::driver::{bls_key, driver_cat, plain_spends};
use crate::types::chain::{
    cat_coins, spends_view, total_of_coins, Bytes32, PublicKey, WalletCat, WalletSpend,
    WalletSpendView,
};
use crate::types::tips::{CapReason, TipDecision, TipLedger, TipMode};
use crate::types::value::Amount;

verus! {

/// A fault of `dig_tips` in its own type.
#[verifier::external_type_specification]
#[verifier::external_body]
pub struct ExTipError(dig_tips::Error);

/// A policy in the type of `dig_tips`.
#[verifier::external_type_specification]
#[verifier::external_body]
pub struct ExTipPolicy(OutsidePolicy);

/// A decision in the type of `dig_tips`.
#[verifier::external_type_specification]
#[verifier::external_body]
pub struct ExTipDecision(OutsideDecision);

/// The most CAT coins that a tip draws.
pub const MAX_TIP_INPUTS: usize = 50;

/// What a tip is drawn from: CAT coins of one key, the key, and where change returns.
#[derive(Debug, PartialEq, Eq)]
pub struct TipInputs {
    /// The coins, all of one inner puzzle.
    pub cats: Vec<WalletCat>,
    /// The key that authorizes every coin.
    pub owner_key: PublicKey,
    /// The asset.
    pub asset_id: Bytes32,
    /// Where change returns.
    pub change_puzzle_hash: Bytes32,
}

/// What [`TipInputs`] says.
pub struct TipInputsView {
    /// The coins.
    pub cats: Seq<WalletCat>,
    /// The key.
    pub owner_key: PublicKey,
    /// The asset.
    pub asset_id: Bytes32,
    /// Where change returns.
    pub change_puzzle_hash: Bytes32,
}

impl View for TipInputs {
    type V = TipInputsView;

    open spec fn view(&self) -> TipInputsView {
        TipInputsView {
            cats: self.cats@,
            owner_key: self.owner_key,
            asset_id: self.asset_id,
            change_puzzle_hash: self.change_puzzle_hash,
        }
    }
}

/// An auto-tip policy with its recipient and asset resolved.
#[derive(Debug, Clone, Copy, PartialEq, Eq)]
pub struct ResolvedPolicy {
    /// Whether tipping is switched on.
    pub enabled: bool,
    /// Whether a tip goes out by itself.
    pub mode: TipMode,
    /// The asset.
    pub asset_id: Bytes32,
    /// The recipient.
    pub recipient: Bytes32,
    /// The amount of one tip.
    pub tip_amount: u64,
    /// The least primary send that is tipped on.
    pub threshold: u64,
    /// The most tips in a day.
    pub max_tips_per_day: u32,
    /// The most base units in a day.
    pub max_amount_per_day: u64,
}

/// What `dig_tips` can refuse a tip with.
#[derive(Debug, PartialEq, Eq)]
pub enum TipFault {
    /// The amount is zero.
    ZeroAmount,
    /// The coins do not cover the amount.
    InsufficientFunds {
        /// The amount.
        need: u64,
        /// What the coins hold.
        have: u64,
    },
    /// The amount takes too many coins.
    TooManyInputs {
        /// The coins that it takes.
        needed: usize,
        /// The most that are allowed.
        cap: usize,
    },
    /// The spend could not be written; the text is the fault as it renders itself.
    Other(String),
    /// The bytes of the key are no point on the curve.
    Key(String),
}

/// What a [`TipFault`] says.
pub enum TipFaultView {
    /// The amount is zero.
    ZeroAmount,
    /// The coins do not cover the amount.
    InsufficientFunds {
        /// The amount.
        need: u64,
        /// What the coins hold.
        have: u64,
    },
    /// The amount takes too many coins.
    TooManyInputs {
        /// The coins that it takes.
        needed: usize,
        /// The most that are allowed.
        cap: usize,
    },
    /// The spend could not be written.
    Other(Seq<char>),
    /// The bytes of the key are no point on the curve.
    Key(Seq<char>),
}

impl View for TipFault {
    type V = TipFaultView;

    open spec fn view(&self) -> TipFaultView {
        match self {
            TipFault::ZeroAmount => TipFaultView::ZeroAmount,
            TipFault::InsufficientFunds { need, have } => TipFaultView::InsufficientFunds {
                need: *need,
                have: *have,
            },
            TipFault::TooManyInputs { needed, cap } => TipFaultView::TooManyInputs {
                needed: *needed,
                cap: *cap,
            },
            TipFault::Other(text) => TipFaultView::Other(text@),
            TipFault::Key(text) => TipFaultView::Key(text@),
        }
    }
}

/// The coins that a tip can draw: those of the asset whose lineage is known.
pub open spec fn tippable(cats: Seq<WalletCat>, asset: Bytes32) -> Seq<WalletCat> {
    cats.filter(|c: WalletCat| c.asset_id == asset && c.lineage_proof is Some)
}

/// What a tip can draw at most.
pub open spec fn tippable_total(inputs: TipInputsView) -> nat {
    total_of_coins(cat_coins(tippable(inputs.cats, inputs.asset_id)))
}

/// The decision on an automatic tip: the switch, the mode and the threshold come first, then the
/// cap on the number of tips, then the cap on the amount.
pub open spec fn tip_decision(policy: ResolvedPolicy, primary: u64, ledger: TipLedger) -> TipDecision {
    if !policy.enabled {
        TipDecision::SkipDisabled
    } else if policy.mode != TipMode::Auto {
        TipDecision::SkipManualNotApproved
    } else if primary < policy.threshold {
        TipDecision::SkipBelowThreshold
    } else if ledger.tips_today + 1 > policy.max_tips_per_day {
        TipDecision::SkipCapReached { reason: CapReason::Frequency }
    } else if ledger.amount_today.0 + policy.tip_amount > policy.max_amount_per_day {
        TipDecision::SkipCapReached { reason: CapReason::Amount }
    } else {
        TipDecision::Tip { amount: Amount(policy.tip_amount) }
    }
}

/// Whether what a tip call answered is in keeping with its inputs: a tip is not zero, is covered
/// by the coins and spends a limited number of them, and a refusal says by how much it fell short.
pub open spec fn tip_facts(
    inputs: TipInputsView,
    amount: u64,
    answer: Result<Seq<WalletSpendView>, TipFaultView>,
) -> bool {
    match answer {
        Ok(spends) => {
            &&& 0 < amount <= tippable_total(inputs)
            &&& spends.len() <= MAX_TIP_INPUTS
            &&& forall|i: int|
                0 <= i < spends.len() ==> cat_coins(inputs.cats).contains(
                    (#[trigger] spends[i]).coin,
                )
        },
        Err(TipFaultView::ZeroAmount) => amount == 0,
        Err(TipFaultView::InsufficientFunds { need, have }) => need == amount && have
            == tippable_total(inputs) && have < need,
        Err(TipFaultView::TooManyInputs { needed, cap }) => needed > cap && cap == MAX_TIP_INPUTS,
        Err(_) => true,
    }
}

/// Reads a fault of `dig_tips`.
#[verifier::external_body]
fn plain_fault(error: dig_tips::Error) -> TipFault {
    let dig_tips::Error::Cat(fault) = error;
    match fault {
        CatError::ZeroAmount => TipFault::ZeroAmount,
        CatError::InsufficientFunds { need, have } => TipFault::InsufficientFunds { need, have },
        CatError::TooManyInputs { needed, cap } => TipFault::TooManyInputs { needed, cap },
        other => TipFault::Other(format!("{other}")),
    }
}

/// Writes a policy in the type of `dig_tips`.
#[verifier::external_body]
fn outside_policy(policy: &ResolvedPolicy) -> OutsidePolicy {
    OutsidePolicy {
        enabled: policy.enabled,
        mode: match policy.mode {
            TipMode::Auto => dig_tips::TipMode::Auto,
            TipMode::Manual => dig_tips::TipMode::Manual,
        },
        asset_id: policy.asset_id.0.into(),
        recipient: policy.recipient.0.into(),
        tip_amount: policy.tip_amount,
        threshold: policy.threshold,
        max_tips_per_day: policy.max_tips_per_day,
        max_amount_per_day: policy.max_amount_per_day,
    }
}

/// Reads a decision of `dig_tips`.
#[verifier::external_body]
fn plain_decision(decision: OutsideDecision) -> TipDecision {
    match decision {
        OutsideDecision::Tip { amount } => TipDecision::Tip { amount: Amount(amount) },
        OutsideDecision::SkipDisabled => TipDecision::SkipDisabled,
        OutsideDecision::SkipBelowThreshold => TipDecision::SkipBelowThreshold,
        OutsideDecision::SkipManualNotApproved => TipDecision::SkipManualNotApproved,
        OutsideDecision::SkipCapReached { reason: dig_tips::CapReason::FrequencyCap } =>
            TipDecision::SkipCapReached { reason: CapReason::Frequency },
        OutsideDecision::SkipCapReached { reason: dig_tips::CapReason::AmountCap } =>
            TipDecision::SkipCapReached { reason: CapReason::Amount },
    }
}

/// Decides on an automatic tip.
///
/// Calls `dig_tips::decide_auto_tip`. It reads the policy, the primary send and the day's tips, and
/// nothing else: no coin is needed to decide.
#[verifier::external_body]
pub(crate) fn decide_tip(policy: &ResolvedPolicy, primary: u64, ledger: &TipLedger) -> (decision:
    TipDecision)
    ensures
        decision == tip_decision(*policy, primary, *ledger),
{
    let spent = LedgerSnapshot {
        tips_today: ledger.tips_today,
        amount_today: ledger.amount_today.0,
    };
    plain_decision(dig_tips::decide_auto_tip(&outside_policy(policy), primary, &spent))
}

/// The spends of a tip, or why it is refused.
pub uninterp spec fn tip_of(
    inputs: TipInputsView,
    recipient: Bytes32,
    amount: u64,
) -> Result<Seq<WalletSpendView>, TipFaultView>;

/// Writes the spends of a tip.
///
/// Calls `dig_tips::build_tip`, which pays the recipient from the largest coins of the asset
/// first and refuses a zero amount, an amount that the coins do not cover and one that takes more
/// than [`MAX_TIP_INPUTS`] coins. Each spend is of one of the given coins. A key whose bytes are
/// no point on the curve is a failure too.
#[verifier::external_body]
pub(crate) fn tip_spends(inputs: &TipInputs, recipient: &Bytes32, amount: u64) -> (result: Result<
    Vec<WalletSpend>,
    TipFault,
>)
    requires
        total_of_coins(cat_coins(inputs.cats@)) <= u64::MAX,
    ensures
        match result {
            Ok(spends) => {
                &&& tip_of(inputs@, *recipient, amount) == Ok::<Seq<WalletSpendView>, TipFaultView>(
                    spends_view(spends@),
                )
                &&& tip_facts(inputs@, amount, Ok(spends_view(spends@)))
            },
            Err(fault) => {
                &&& tip_of(inputs@, *recipient, amount) == Err::<Seq<WalletSpendView>, TipFaultView>(
                    fault@,
                )
                &&& tip_facts(inputs@, amount, Err(fault@))
            },
        },
{
    let key = bls_key(&inputs.owner_key).map_err(TipFault::Key)?;
    let request = dig_tips::TipRequest {
        cats: inputs.cats.iter().map(driver_cat).collect::<Vec<Cat>>(),
        owner_pk: key,
        asset_id: inputs.asset_id.0.into(),
        recipient: recipient.0.into(),
        amount,
        change_p2_puzzle_hash: inputs.change_puzzle_hash.0.into(),
    };
    Ok(plain_spends(dig_tips::build_tip(request).map_err(plain_fault)?.coin_spends))
}

/// The decision on an automatic tip with the spends of a tip that is due, or why a due tip is
/// refused. A key that is no point on the curve is refused whatever the decision.
pub open spec fn guarded_tip_of(
    policy: ResolvedPolicy,
    primary: u64,
    ledger: TipLedger,
    inputs: TipInputsView,
) -> Result<(TipDecision, Option<Seq<WalletSpendView>>), TipFaultView> {
    let decision = tip_decision(policy, primary, ledger);
    match tip_of(inputs, policy.recipient, policy.tip_amount) {
        Err(TipFaultView::Key(text)) => Err(TipFaultView::Key(text)),
        Err(fault) => if decision is Tip {
            Err(fault)
        } else {
            Ok((decision, None))
        },
        Ok(spends) => if decision is Tip {
            Ok((decision, Some(spends)))
        } else {
            Ok((decision, None))
        },
    }
}

/// Decides on an automatic tip and writes its spends when it is due.
///
/// Calls `dig_tips::build_tip_if_allowed`. It decides first, and only when a tip is due does it
/// write one, as `dig_tips::build_tip` writes a tip of the policy's amount to the policy's
/// recipient. A key whose bytes are no point on the curve is a failure before it decides.
#[verifier::external_body]
pub(crate) fn guarded_tip(
    policy: &ResolvedPolicy,
    primary: u64,
    ledger: &TipLedger,
    inputs: &TipInputs,
) -> (result: Result<(TipDecision, Option<Vec<WalletSpend>>), TipFault>)
    requires
        total_of_coins(cat_coins(inputs.cats@)) <= u64::MAX,
        policy.asset_id == inputs.asset_id,
    ensures
        guarded_view(result) == guarded_tip_of(*policy, primary, *ledger, inputs@),
        guarded_view(result) matches Ok((_, Some(spends))) ==> tip_facts(
            inputs@,
            policy.tip_amount,
            Ok(spends),
        ),
        guarded_view(result) matches Err(fault) ==> tip_facts(
            inputs@,
            policy.tip_amount,
            Err(fault),
        ),
{
    let key = bls_key(&inputs.owner_key).map_err(TipFault::Key)?;
    let (decision, spend) = dig_tips::build_tip_if_allowed(
        &outside_policy(policy),
        primary,
        &LedgerSnapshot { tips_today: ledger.tips_today, amount_today: ledger.amount_today.0 },
        inputs.cats.iter().map(driver_cat).collect::<Vec<Cat>>(),
        key,
        inputs.change_puzzle_hash.0.into(),
    ).map_err(plain_fault)?;
    Ok((plain_decision(decision), spend.map(|made| plain_spends(made.coin_spends))))
}

/// What a guarded tip answered, over views.
pub open spec fn guarded_view(
    result: Result<(TipDecision, Option<Vec<WalletSpend>>), TipFault>,
) -> Result<(TipDecision, Option<Seq<WalletSpendView>>), TipFaultView> {
    match result {
        Ok((decision, Some(spends))) => Ok((decision, Some(spends_view(spends@)))),
        Ok((decision, None)) => Ok((decision, None)),
        Err(fault) => Err(fault@),
    }
}

} // verus!
