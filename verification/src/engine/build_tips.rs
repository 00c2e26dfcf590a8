//! Tips: one CAT payment, on request or by an auto-tip policy.
//!
//! The policy decides before anything is written, so a tip that a cap or the user forbids is
//! never built.

use vstd::prelude::*;
use vstd::string::*;

use super::builder::{
    cat_fits, cats_of_asset, lemma_filtered_total, of_asset, sealed_payment, spend_failed,
    sum_of_cats, unsigned_view, SdkSpendBuilder, SpendInputs,
};
use super::parse::{hex32_of, parse_asset_id, parse_puzzle_hash};
use super::tip_driver::{
    decide_tip, guarded_tip, guarded_tip_of, guarded_view, tip_decision, tip_facts, tip_of,
    tip_spends, ResolvedPolicy, TipFault, TipFaultView, TipInputs, TipInputsView,
};
use crate::text::{decimal, decimal_text, joined, joined3};
use crate::types::chain::{
    cat_coins, spends_view, total_of_coins, Bytes32, PublicKey, WalletCat, WalletSpend,
    WalletSpendView,
};
use crate::types::error::{
    invalid, short_of_funds, spend_fault, WalletError, WalletErrorCode, WalletErrorView,
    WalletResult,
};
use crate::types::identity::{IdentityRef, IdentityView};
use crate::types::spend::{UnsignedSpend, UnsignedSpendView};
use crate::types::tips::{
    AutoTipOutcome, AutoTipPolicy, AutoTipRequest, AutoTipView, TipDecision, TipMode, TipRequest,
};
use crate::types::value::{Amount, AssetId, Network};

verus! {

/// The CAT coins of one inner puzzle.
pub open spec fn group_at(cats: Seq<WalletCat>, p2_puzzle_hash: Bytes32) -> Seq<WalletCat> {
    cats.filter(|c: WalletCat| c.p2_puzzle_hash == p2_puzzle_hash)
}

/// What the coins of one inner puzzle hold.
pub open spec fn group_total(cats: Seq<WalletCat>, p2_puzzle_hash: Bytes32) -> nat {
    total_of_coins(cat_coins(group_at(cats, p2_puzzle_hash)))
}

/// Among the first `n` coins' inner puzzles, the one that the wallet has a key for whose coins
/// hold the most; of equal ones the first.
pub open spec fn best_group<I: SpendInputs>(inputs: &I, cats: Seq<WalletCat>, n: nat) -> Option<
    Bytes32,
>
    decreases n,
{
    if n == 0 {
        None
    } else {
        let p2 = cats[n - 1].p2_puzzle_hash;
        let before = best_group(inputs, cats, (n - 1) as nat);
        if inputs.key_of(p2) is None {
            before
        } else {
            match before {
                None => Some(p2),
                Some(best) => if group_total(cats, p2) > group_total(cats, best) {
                    Some(p2)
                } else {
                    Some(best)
                },
            }
        }
    }
}

/// What a tip of an asset is drawn from.
pub open spec fn tip_inputs_of<I: SpendInputs>(
    inputs: &I,
    identity: IdentityView,
    asset_id: Seq<char>,
) -> Result<TipInputsView, WalletErrorView> {
    match hex32_of(asset_id, "asset id"@) {
        Err(error) => Err(error),
        Ok(asset) => match inputs.cats_of(identity, asset_id) {
            Err(error) => Err(error),
            Ok(available) => {
                let cats = of_asset(available, asset);
                match best_group(inputs, cats, cats.len()) {
                    None => Err(
                        short_of_funds(
                            "no spendable, key-controlled "@ + asset_id + " coins to tip with"@,
                        ),
                    ),
                    Some(p2) => match inputs.change_of(identity) {
                        Err(error) => Err(error),
                        Ok(change_puzzle_hash) => Ok(
                            TipInputsView {
                                cats: group_at(cats, p2),
                                owner_key: inputs.key_of(p2)->0,
                                asset_id: asset,
                                change_puzzle_hash,
                            },
                        ),
                    },
                }
            },
        },
    }
}

/// Whether spends are what a tip may draw: an amount that the tip's coins cover, from a limited
/// number of them and no others.
pub open spec fn draws_tip<I: SpendInputs>(
    inputs: &I,
    identity: IdentityView,
    asset_id: Seq<char>,
    amount: u64,
    spends: Seq<WalletSpendView>,
) -> bool {
    tip_inputs_of(inputs, identity, asset_id) matches Ok(drawn) && tip_facts(
        drawn,
        amount,
        Ok(spends),
    )
}

/// The error that a tip fault becomes.
pub open spec fn tip_error(fault: TipFaultView) -> WalletErrorView {
    match fault {
        TipFaultView::ZeroAmount => invalid("a tip must move a non-zero amount"@),
        TipFaultView::InsufficientFunds { need, have } => short_of_funds(
            "insufficient CAT to tip: need "@ + decimal(need as nat) + ", have "@ + decimal(
                have as nat,
            ),
        ),
        TipFaultView::TooManyInputs { needed, cap } => short_of_funds(
            "tip needs "@ + decimal(needed as nat) + " CAT inputs, over the "@ + decimal(
                cap as nat,
            ) + "-coin cap; consolidate first"@,
        ),
        TipFaultView::Other(text) => spend_fault("dig-tips: "@ + text),
        TipFaultView::Key(text) => spend_fault("dig-tips: "@ + text),
    }
}

/// The outcome of [`SdkSpendBuilder::build_tip`].
pub open spec fn tip_outcome<I: SpendInputs>(
    builder: &SdkSpendBuilder<I>,
    request: TipRequest,
) -> Result<UnsignedSpendView, WalletErrorView> {
    match tip_inputs_of(&builder.inputs, request.identity@, request.asset_id@) {
        Err(error) => Err(error),
        Ok(inputs) => match hex32_of(request.recipient@, "puzzle hash"@) {
            Err(error) => Err(error),
            Ok(recipient) => match tip_of(inputs, recipient, request.amount.0) {
                Err(fault) => Err(tip_error(fault)),
                Ok(spends) => finished_tip(
                    spends,
                    builder.network,
                    recipient,
                    request.amount.0,
                    request.asset_id@,
                ),
            },
        },
    }
}

/// A written tip made ready for review. A tip pays no separate fee.
pub open spec fn finished_tip(
    spends: Seq<WalletSpendView>,
    network: Network,
    recipient: Bytes32,
    amount: u64,
    asset_id: Seq<char>,
) -> Result<UnsignedSpendView, WalletErrorView> {
    sealed_payment(spends, network, recipient, amount, Some(asset_id), 0)
}

/// A policy with its recipient and asset resolved.
pub open spec fn resolved(
    policy: AutoTipPolicy,
    recipient: Bytes32,
    asset_id: Bytes32,
) -> ResolvedPolicy {
    ResolvedPolicy {
        enabled: policy.enabled,
        mode: policy.mode,
        asset_id,
        recipient,
        tip_amount: policy.tip_amount.0,
        threshold: policy.threshold.0,
        max_tips_per_day: policy.max_tips_per_day,
        max_amount_per_day: policy.max_amount_per_day.0,
    }
}

/// An automatic tip made ready for review from what the tip driver answered.
pub open spec fn finished_auto_tip(
    answer: Result<(TipDecision, Option<Seq<WalletSpendView>>), TipFaultView>,
    network: Network,
    policy: ResolvedPolicy,
    asset_id: Seq<char>,
) -> Result<AutoTipView, WalletErrorView> {
    match answer {
        Err(fault) => Err(tip_error(fault)),
        Ok((decision, None)) => Ok(AutoTipView { decision, unsigned: None }),
        Ok((decision, Some(spends))) => match finished_tip(
            spends,
            network,
            policy.recipient,
            policy.tip_amount,
            asset_id,
        ) {
            Err(error) => Err(error),
            Ok(unsigned) => Ok(AutoTipView { decision, unsigned: Some(unsigned) }),
        },
    }
}

/// Whether an automatic tip is due: it is switched on and automatic, the send reaches the
/// threshold, and one more tip of the amount stays within both daily caps.
pub open spec fn tip_is_due(request: AutoTipRequest) -> bool {
    &&& request.policy.enabled
    &&& request.policy.mode == TipMode::Auto
    &&& request.primary_send_amount.0 >= request.policy.threshold.0
    &&& request.ledger.tips_today < request.policy.max_tips_per_day
    &&& request.ledger.amount_today.0 + request.policy.tip_amount.0
        <= request.policy.max_amount_per_day.0
}

/// The outcome of [`SdkSpendBuilder::build_auto_tip`]: the decision comes first, and only where a
/// tip is due is anything drawn or written.
pub open spec fn auto_tip_outcome<I: SpendInputs>(
    builder: &SdkSpendBuilder<I>,
    request: AutoTipRequest,
) -> Result<AutoTipView, WalletErrorView> {
    match hex32_of(request.policy.recipient@, "puzzle hash"@) {
        Err(error) => Err(error),
        Ok(recipient) => match hex32_of(request.policy.asset_id@, "asset id"@) {
            Err(error) => Err(error),
            Ok(asset) => {
                let policy = resolved(request.policy, recipient, asset);
                let decision = tip_decision(
                    policy,
                    request.primary_send_amount.0,
                    request.ledger,
                );
                if decision is Tip {
                    due_tip_outcome(builder, request, policy)
                } else {
                    Ok(AutoTipView { decision, unsigned: None })
                }
            },
        },
    }
}

/// The outcome of an automatic tip that is due.
pub open spec fn due_tip_outcome<I: SpendInputs>(
    builder: &SdkSpendBuilder<I>,
    request: AutoTipRequest,
    policy: ResolvedPolicy,
) -> Result<AutoTipView, WalletErrorView> {
    match tip_inputs_of(&builder.inputs, request.identity@, request.policy.asset_id@) {
        Err(error) => Err(error),
        Ok(inputs) => finished_auto_tip(
            guarded_tip_of(policy, request.primary_send_amount.0, request.ledger, inputs),
            builder.network,
            policy,
            request.policy.asset_id@,
        ),
    }
}

/// What an automatic tip returned, over views.
pub open spec fn auto_tip_view(result: WalletResult<AutoTipOutcome>) -> Result<
    AutoTipView,
    WalletErrorView,
> {
    match result {
        Ok(outcome) => Ok(outcome@),
        Err(error) => Err(error@),
    }
}

impl<I: SpendInputs> SdkSpendBuilder<I> {
    /// Builds a tip: one CAT payment to the recipient.
    pub fn build_tip(&self, request: TipRequest) -> (result: WalletResult<UnsignedSpend>)
        requires
            cat_fits(&self.inputs, request.identity@, request.asset_id@),
        ensures
            unsigned_view(result) == tip_outcome(self, request),
            result matches Ok(unsigned) ==> draws_tip(
                &self.inputs,
                request.identity@,
                request.asset_id@,
                request.amount.0,
                unsigned@.coin_spends,
            ),
    {
        let inputs = match self.resolve_tip_inputs(&request.identity, &request.asset_id) {
            Ok(inputs) => inputs,
            Err(error) => return Err(error),
        };
        let recipient = match parse_puzzle_hash(&request.recipient) {
            Ok(recipient) => recipient,
            Err(error) => return Err(error),
        };
        match tip_spends(&inputs, &recipient, request.amount.mojos()) {
            Err(fault) => Err(map_tip_error(fault)),
            Ok(coin_spends) => self.finish_tip(
                coin_spends,
                &recipient,
                request.amount,
                request.asset_id,
            ),
        }
    }

    /// Decides on an automatic tip and draws coins for it only when it is due. A skip needs no
    /// coin at all.
    pub fn build_auto_tip(&self, request: AutoTipRequest) -> (result: WalletResult<AutoTipOutcome>)
        requires
            tip_is_due(request) ==> cat_fits(
                &self.inputs,
                request.identity@,
                request.policy.asset_id@,
            ),
        ensures
            auto_tip_view(result) == auto_tip_outcome(self, request),
            result matches Ok(outcome) ==> outcome.unsigned matches Some(unsigned) ==> draws_tip(
                &self.inputs,
                request.identity@,
                request.policy.asset_id@,
                request.policy.tip_amount.0,
                unsigned@.coin_spends,
            ),
    {
        let recipient = match parse_puzzle_hash(&request.policy.recipient) {
            Ok(recipient) => recipient,
            Err(error) => return Err(error),
        };
        let asset = match parse_asset_id(&request.policy.asset_id) {
            Ok(asset) => asset,
            Err(error) => return Err(error),
        };
        let policy = to_dig_policy(&request.policy, &recipient, &asset);
        let primary: u64 = request.primary_send_amount.mojos();
        let decision = decide_tip(&policy, primary, &request.ledger);
        match decision {
            TipDecision::Tip { .. } => {},
            skip => return Ok(AutoTipOutcome { decision: skip, unsigned: None }),
        }
        let inputs = match self.resolve_tip_inputs(&request.identity, &request.policy.asset_id) {
            Ok(inputs) => inputs,
            Err(error) => return Err(error),
        };
        let answer = guarded_tip(&policy, primary, &request.ledger, &inputs);
        self.finish_auto_tip(answer, &policy, request.policy.asset_id)
    }

    /// Makes what the tip driver answered ready for review: a skip as it is, a tip with its
    /// spend.
    pub fn finish_auto_tip(
        &self,
        answer: Result<(TipDecision, Option<Vec<WalletSpend>>), TipFault>,
        policy: &ResolvedPolicy,
        asset_id: AssetId,
    ) -> (result: WalletResult<AutoTipOutcome>)
        ensures
            auto_tip_view(result) == finished_auto_tip(
                guarded_view(answer),
                self.network,
                *policy,
                asset_id@,
            ),
    {
        match answer {
            Err(fault) => Err(map_tip_error(fault)),
            Ok((decision, None)) => Ok(AutoTipOutcome { decision, unsigned: None }),
            Ok((decision, Some(coin_spends))) => match self.finish_tip(
                coin_spends,
                &policy.recipient,
                Amount(policy.tip_amount),
                asset_id,
            ) {
                Err(error) => Err(error),
                Ok(unsigned) => Ok(AutoTipOutcome { decision, unsigned: Some(unsigned) }),
            },
        }
    }

    /// Resolves what a tip is drawn from: the wallet's coins of the asset at the one inner puzzle
    /// that holds the most among those it has a key for.
    fn resolve_tip_inputs(&self, identity: &IdentityRef, asset_id: &AssetId) -> (result:
        WalletResult<TipInputs>)
        requires
            cat_fits(&self.inputs, identity@, asset_id@),
        ensures
            match result {
                Ok(inputs) => tip_inputs_of(&self.inputs, identity@, asset_id@) == Ok::<
                    TipInputsView,
                    WalletErrorView,
                >(inputs@) && total_of_coins(cat_coins(inputs.cats@)) <= u64::MAX,
                Err(error) => tip_inputs_of(&self.inputs, identity@, asset_id@) == Err::<
                    TipInputsView,
                    WalletErrorView,
                >(error@),
            },
    {
        let asset = match parse_asset_id(asset_id) {
            Ok(asset) => asset,
            Err(error) => return Err(error),
        };
        let available = match self.inputs.spendable_cat(identity, asset_id) {
            Ok(available) => available,
            Err(error) => return Err(error),
        };
        let cats = cats_of_asset(&available, &asset);
        proof {
            lemma_filtered_total(available@, |c: WalletCat| c.asset_id == asset);
        }
        match self.largest_single_key_group(&cats) {
            None => Err(
                WalletError::new(
                    WalletErrorCode::InsufficientFunds,
                    joined3(
                        "no spendable, key-controlled ",
                        asset_id.0.as_str(),
                        " coins to tip with",
                    ),
                ),
            ),
            Some((owner_key, group)) => match self.inputs.change_puzzle_hash(identity) {
                Err(error) => Err(error),
                Ok(change_puzzle_hash) => Ok(
                    TipInputs { cats: group, owner_key, asset_id: asset, change_puzzle_hash },
                ),
            },
        }
    }

    /// The coins of the inner puzzle that holds the most among those that the wallet has a key
    /// for, with that key.
    fn largest_single_key_group(&self, cats: &Vec<WalletCat>) -> (found: Option<
        (PublicKey, Vec<WalletCat>),
    >)
        requires
            total_of_coins(cat_coins(cats@)) <= u64::MAX,
        ensures
            match found {
                Some((key, group)) => {
                    &&& best_group(&self.inputs, cats@, cats@.len()) matches Some(p2)
                    &&& self.inputs.key_of(p2) == Some(key)
                    &&& group@ == group_at(cats@, p2)
                    &&& total_of_coins(cat_coins(group@)) <= u64::MAX
                },
                None => best_group(&self.inputs, cats@, cats@.len()) is None,
            },
    {
        let mut best: Option<(PublicKey, Vec<WalletCat>, u64)> = None;
        let ghost inputs = &self.inputs;
        let mut i: usize = 0;
        while i < cats.len()
            invariant
                i <= cats@.len(),
                inputs == &self.inputs,
                total_of_coins(cat_coins(cats@)) <= u64::MAX,
                match best {
                    Some((key, group, total)) => {
                        &&& best_group(inputs, cats@, i as nat) matches Some(p2)
                        &&& inputs.key_of(p2) == Some(key)
                        &&& group@ == group_at(cats@, p2)
                        &&& total == total_of_coins(cat_coins(group@))
                    },
                    None => best_group(inputs, cats@, i as nat) is None,
                },
            decreases cats@.len() - i,
        {
            let p2 = cats[i].p2_puzzle_hash;
            match self.inputs.synthetic_key(&p2) {
                None => {},
                Some(key) => {
                    let group = cats_at(cats, &p2);
                    proof {
                        lemma_filtered_total(cats@, |c: WalletCat| c.p2_puzzle_hash == p2);
                    }
                    let total: u64 = sum_of_cats(&group);
                    let better: bool = match &best {
                        None => true,
                        Some((_, _, held)) => total > *held,
                    };
                    if better {
                        best = Some((key, group, total));
                    }
                },
            }
            i = i + 1;
        }
        match best {
            Some((key, group, _)) => Some((key, group)),
            None => None,
        }
    }

    /// Makes a written tip ready for review.
    pub fn finish_tip(
        &self,
        coin_spends: Vec<WalletSpend>,
        recipient: &Bytes32,
        amount: Amount,
        asset_id: AssetId,
    ) -> (result: WalletResult<UnsignedSpend>)
        ensures
            unsigned_view(result) == finished_tip(
                spends_view(coin_spends@),
                self.network,
                *recipient,
                amount.0,
                asset_id@,
            ),
    {
        self.finish_paying(coin_spends, recipient, amount, Some(asset_id), Amount(0))
    }
}

/// Picks the CAT coins of one inner puzzle, in their order.
fn cats_at(cats: &Vec<WalletCat>, p2_puzzle_hash: &Bytes32) -> (group: Vec<WalletCat>)
    ensures
        group@ == group_at(cats@, *p2_puzzle_hash),
{
    let mut group: Vec<WalletCat> = Vec::new();
    let mut i: usize = 0;
    assert(group_at(cats@.take(0), *p2_puzzle_hash) =~= Seq::empty()) by {
        reveal(Seq::filter);
    }
    while i < cats.len()
        invariant
            i <= cats@.len(),
            group@ == group_at(cats@.take(i as int), *p2_puzzle_hash),
        decreases cats@.len() - i,
    {
        proof {
            reveal(Seq::filter);
            assert(cats@.take(i as int + 1).drop_last() =~= cats@.take(i as int));
        }
        if cats[i].p2_puzzle_hash.same(p2_puzzle_hash) {
            group.push(cats[i]);
        }
        i = i + 1;
    }
    assert(cats@.take(i as int) =~= cats@);
    group
}

/// Resolves the recipient and the asset of a policy.
pub fn to_dig_policy(policy: &AutoTipPolicy, recipient: &Bytes32, asset_id: &Bytes32) -> (out:
    ResolvedPolicy)
    ensures
        out == resolved(*policy, *recipient, *asset_id),
{
    ResolvedPolicy {
        enabled: policy.enabled,
        mode: policy.mode,
        asset_id: *asset_id,
        recipient: *recipient,
        tip_amount: policy.tip_amount.mojos(),
        threshold: policy.threshold.mojos(),
        max_tips_per_day: policy.max_tips_per_day,
        max_amount_per_day: policy.max_amount_per_day.mojos(),
    }
}

/// Translates a tip fault into the wallet's error catalogue.
pub fn map_tip_error(fault: TipFault) -> (error: WalletError)
    ensures
        error@ == tip_error(fault@),
{
    match fault {
        TipFault::ZeroAmount => WalletError::invalid_input(
            "a tip must move a non-zero amount".to_owned(),
        ),
        TipFault::InsufficientFunds { need, have } => {
            let mut message = joined3(
                "insufficient CAT to tip: need ",
                decimal_text(need).as_str(),
                ", have ",
            );
            message.append(decimal_text(have).as_str());
            WalletError::new(WalletErrorCode::InsufficientFunds, message)
        },
        TipFault::TooManyInputs { needed, cap } => {
            let mut message = joined3(
                "tip needs ",
                decimal_text(needed as u64).as_str(),
                " CAT inputs, over the ",
            );
            message.append(decimal_text(cap as u64).as_str());
            message.append("-coin cap; consolidate first");
            WalletError::new(WalletErrorCode::InsufficientFunds, message)
        },
        TipFault::Other(text) => spend_failed(joined("dig-tips: ", text.as_str())),
        TipFault::Key(text) => spend_failed(joined("dig-tips: ", text.as_str())),
    }
}

/// The inner puzzle that a tip is drawn from is one that the wallet has a key for, and no other
/// such puzzle holds more. Without any the wallet has a key for none of the coins.
pub proof fn a_tip_draws_the_largest_group<I: SpendInputs>(
    inputs: &I,
    cats: Seq<WalletCat>,
    n: nat,
)
    requires
        n <= cats.len(),
    ensures
        match best_group(inputs, cats, n) {
            Some(best) => {
                &&& inputs.key_of(best) is Some
                &&& exists|i: int| 0 <= i < n && (#[trigger] cats[i]).p2_puzzle_hash == best
                &&& forall|i: int|
                    0 <= i < n && inputs.key_of((#[trigger] cats[i]).p2_puzzle_hash) is Some
                        ==> group_total(cats, cats[i].p2_puzzle_hash) <= group_total(cats, best)
            },
            None => forall|i: int|
                0 <= i < n ==> inputs.key_of((#[trigger] cats[i]).p2_puzzle_hash) is None,
        },
    decreases n,
{
    if n > 0 {
        a_tip_draws_the_largest_group(inputs, cats, (n - 1) as nat);
        assert(cats[n - 1] == cats[n - 1]);
    }
}

/// An automatic tip is built exactly when one is due: a skip builds nothing, and what is built
/// stays within both daily caps.
pub proof fn a_tip_never_passes_a_cap<I: SpendInputs>(
    builder: &SdkSpendBuilder<I>,
    request: AutoTipRequest,
)
    ensures
        auto_tip_outcome(builder, request) matches Ok(outcome) ==> {
            &&& (outcome.unsigned is Some) == (outcome.decision is Tip)
            &&& (outcome.decision is Tip) == tip_is_due(request)
            &&& outcome.decision is Tip ==> outcome.decision == (TipDecision::Tip {
                amount: request.policy.tip_amount,
            })
            &&& !request.policy.enabled ==> outcome.decision == TipDecision::SkipDisabled
        },
{
}

/// A tip that is not due is skipped whatever the wallet holds: where the recipient and the asset
/// can be read, the outcome is the decision and no spend, for every provider alike.
pub proof fn a_skip_needs_no_coins<I: SpendInputs, J: SpendInputs>(
    builder: &SdkSpendBuilder<I>,
    other: &SdkSpendBuilder<J>,
    request: AutoTipRequest,
)
    requires
        !tip_is_due(request),
    ensures
        auto_tip_outcome(builder, request) == auto_tip_outcome(other, request),
        hex32_of(request.policy.recipient@, "puzzle hash"@) is Ok && hex32_of(
            request.policy.asset_id@,
            "asset id"@,
        ) is Ok ==> (auto_tip_outcome(builder, request) matches Ok(outcome) && outcome.unsigned
            is None && !(outcome.decision is Tip)),
{
}

} // verus!
