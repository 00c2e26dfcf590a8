//! What tips do, stated of what is handed to the tip driver.

use vstd::prelude::*;
use vstd::string::*;

use super::build_tips::{
    a_tip_draws_the_largest_group, auto_tip_outcome, best_group, group_at, group_total,
    tip_inputs_of, tip_outcome,
};
use super::builder::{of_asset, SdkSpendBuilder, SpendInputs};
use super::spend_laws::{
    coins_in, lemma_sealed_payment, lemma_worth, lists_its_signatures, shows_one_payment, spells,
    worth,
};
use super::tip_driver::{tip_of, TipFaultView, TipInputsView};
use crate::types::chain::{cat_coins, Bytes32, WalletCat, WalletSpendView};
use crate::types::error::WalletErrorView;
use crate::types::identity::IdentityView;
use crate::types::tips::{AutoTipRequest, CapReason, TipDecision, TipMode, TipRequest};

verus! {

/// The coins of an asset that belong to one inner puzzle.
pub open spec fn purse(
    cats: Seq<WalletCat>,
    asset: Bytes32,
    p2_puzzle_hash: Bytes32,
) -> Seq<WalletCat> {
    cats.filter(|c: WalletCat| c.asset_id == asset && c.p2_puzzle_hash == p2_puzzle_hash)
}

/// Whether a tip is drawn from a wallet's own coins of an asset: all of those of one inner puzzle
/// that the wallet has the key for, of which none holds more, with change back to the wallet.
pub open spec fn draws_the_fullest_purse<I: SpendInputs>(
    inputs: &I,
    identity: IdentityView,
    asset_id: Seq<char>,
    drawn: TipInputsView,
) -> bool {
    &&& spells(asset_id, drawn.asset_id)
    &&& inputs.change_of(identity) == Ok::<Bytes32, WalletErrorView>(drawn.change_puzzle_hash)
    &&& inputs.cats_of(identity, asset_id) matches Ok(wallet)
    &&& drawn.cats.len() > 0
    &&& exists|p2: Bytes32|
        {
            &&& drawn.cats == #[trigger] purse(wallet, drawn.asset_id, p2)
            &&& inputs.key_of(p2) == Some(drawn.owner_key)
        }
    &&& forall|i: int|
        0 <= i < wallet.len() && (#[trigger] wallet[i]).asset_id == drawn.asset_id
            && inputs.key_of(wallet[i].p2_puzzle_hash) is Some ==> worth(
            coins_in(purse(wallet, drawn.asset_id, wallet[i].p2_puzzle_hash)),
        ) <= worth(coins_in(drawn.cats))
}

proof fn lemma_filter_twice(cats: Seq<WalletCat>, asset: Bytes32, p2: Bytes32)
    ensures
        group_at(of_asset(cats, asset), p2) == purse(cats, asset, p2),
    decreases cats.len(),
{
    reveal(Seq::filter);
    if cats.len() > 0 {
        let front = cats.drop_last();
        lemma_filter_twice(front, asset, p2);
        let last = cats.last();
        if last.asset_id == asset {
            assert(of_asset(cats, asset) == of_asset(front, asset).push(last));
            assert(of_asset(cats, asset).drop_last() =~= of_asset(front, asset));
        }
    }
}

proof fn lemma_purse_worth(cats: Seq<WalletCat>, asset: Bytes32, p2: Bytes32)
    ensures
        worth(coins_in(purse(cats, asset, p2))) == group_total(of_asset(cats, asset), p2),
{
    lemma_filter_twice(cats, asset, p2);
    let held = purse(cats, asset, p2);
    assert(coins_in(held) =~= cat_coins(held));
    lemma_worth(cat_coins(held));
}

proof fn lemma_tip_inputs<I: SpendInputs>(inputs: &I, identity: IdentityView, asset_id: Seq<char>)
    ensures
        tip_inputs_of(inputs, identity, asset_id) matches Ok(drawn) ==> draws_the_fullest_purse(
            inputs,
            identity,
            asset_id,
            drawn,
        ),
{
    if let Ok(drawn) = tip_inputs_of(inputs, identity, asset_id) {
        let wallet = inputs.cats_of(identity, asset_id)->Ok_0;
        let asset = drawn.asset_id;
        let pred = |c: WalletCat| c.asset_id == asset;
        let cats = of_asset(wallet, asset);
        assert(cats == wallet.filter(pred));
        let p2 = best_group(inputs, cats, cats.len())->0;
        a_tip_draws_the_largest_group(inputs, cats, cats.len());
        lemma_filter_twice(wallet, asset, p2);
        lemma_purse_worth(wallet, asset, p2);
        assert(drawn.cats == purse(wallet, asset, p2));
        let at = choose|i: int| 0 <= i < cats.len() && (#[trigger] cats[i]).p2_puzzle_hash == p2;
        let mine = |c: WalletCat| c.p2_puzzle_hash == p2;
        assert(group_at(cats, p2) == cats.filter(mine));
        assert(mine(cats[at]));
        cats.lemma_filter_contains(mine, at);
        assert(drawn.cats.contains(cats[at]));
        assert forall|i: int|
            0 <= i < wallet.len() && (#[trigger] wallet[i]).asset_id == asset && inputs.key_of(
                wallet[i].p2_puzzle_hash,
            ) is Some implies worth(coins_in(purse(wallet, asset, wallet[i].p2_puzzle_hash)))
            <= worth(coins_in(drawn.cats)) by {
            assert(pred(wallet[i]));
            wallet.lemma_filter_contains(pred, i);
            let j = choose|j: int| 0 <= j < cats.len() && cats[j] == wallet[i];
            assert(cats[j].p2_puzzle_hash == wallet[i].p2_puzzle_hash);
            lemma_purse_worth(wallet, asset, wallet[i].p2_puzzle_hash);
        }
    }
}

/// A tip pays its recipient: the spends are what the tip driver writes for the puzzle hash that
/// the request names and the requested amount, and the summary shows that same recipient's
/// address.
pub proof fn a_tip_pays_its_recipient<I: SpendInputs>(
    builder: &SdkSpendBuilder<I>,
    request: TipRequest,
)
    ensures
        tip_outcome(builder, request) matches Ok(unsigned) ==> {
            &&& exists|drawn: TipInputsView, recipient: Bytes32|
                {
                    &&& #[trigger] draws_the_fullest_purse(
                        &builder.inputs,
                        request.identity@,
                        request.asset_id@,
                        drawn,
                    )
                    &&& #[trigger] spells(request.recipient@, recipient)
                    &&& tip_of(drawn, recipient, request.amount.0) == Ok::<
                        Seq<WalletSpendView>,
                        TipFaultView,
                    >(unsigned.coin_spends)
                    &&& shows_one_payment(
                        unsigned.summary,
                        recipient,
                        request.amount.0,
                        Some(request.asset_id@),
                        0,
                    )
                }
            &&& lists_its_signatures(unsigned, builder.network)
        },
{
    if let Ok(unsigned) = tip_outcome(builder, request) {
        let drawn = tip_inputs_of(&builder.inputs, request.identity@, request.asset_id@)->Ok_0;
        let recipient = super::parse::hex32_of(request.recipient@, "puzzle hash"@)->Ok_0;
        let spends = tip_of(drawn, recipient, request.amount.0)->Ok_0;
        lemma_tip_inputs(&builder.inputs, request.identity@, request.asset_id@);
        lemma_sealed_payment(
            spends,
            builder.network,
            recipient,
            request.amount.0,
            Some(request.asset_id@),
            0,
        );
        assert(spells(request.recipient@, recipient));
        assert(draws_the_fullest_purse(
            &builder.inputs,
            request.identity@,
            request.asset_id@,
            drawn,
        ));
    }
}

/// An automatic tip pays what the policy says, to whom it says: it has a spend exactly if it is
/// due, and that spend is what the tip driver writes for the policy's recipient and amount.
pub proof fn an_auto_tip_follows_its_policy<I: SpendInputs>(
    builder: &SdkSpendBuilder<I>,
    request: AutoTipRequest,
)
    ensures
        auto_tip_outcome(builder, request) matches Ok(outcome) ==> {
            let policy = request.policy;
            let over = request.ledger.amount_today.0 + policy.tip_amount.0
                > policy.max_amount_per_day.0;
            &&& outcome.decision is SkipDisabled <==> !policy.enabled
            &&& outcome.decision is SkipManualNotApproved <==> policy.enabled && policy.mode
                != TipMode::Auto
            &&& outcome.decision is SkipBelowThreshold <==> policy.enabled && policy.mode
                == TipMode::Auto && request.primary_send_amount.0 < policy.threshold.0
            &&& outcome.decision is SkipCapReached ==> request.ledger.tips_today
                >= policy.max_tips_per_day || over
            &&& outcome.decision == (TipDecision::SkipCapReached { reason: CapReason::Frequency })
                ==> request.ledger.tips_today >= policy.max_tips_per_day
            &&& outcome.decision == (TipDecision::SkipCapReached { reason: CapReason::Amount })
                ==> over && request.ledger.tips_today < policy.max_tips_per_day
            &&& outcome.decision is Tip ==> {
                &&& outcome.decision == (TipDecision::Tip { amount: policy.tip_amount })
                &&& request.ledger.tips_today < policy.max_tips_per_day
                &&& !over
            }
            &&& outcome.unsigned is Some <==> outcome.decision is Tip
            &&& outcome.unsigned matches Some(unsigned) ==> {
                &&& exists|drawn: TipInputsView, recipient: Bytes32|
                    {
                        &&& #[trigger] draws_the_fullest_purse(
                            &builder.inputs,
                            request.identity@,
                            policy.asset_id@,
                            drawn,
                        )
                        &&& #[trigger] spells(policy.recipient@, recipient)
                        &&& tip_of(drawn, recipient, policy.tip_amount.0) == Ok::<
                            Seq<WalletSpendView>,
                            TipFaultView,
                        >(unsigned.coin_spends)
                        &&& shows_one_payment(
                            unsigned.summary,
                            recipient,
                            policy.tip_amount.0,
                            Some(policy.asset_id@),
                            0,
                        )
                    }
                &&& lists_its_signatures(unsigned, builder.network)
            }
        },
{
    if let Ok(outcome) = auto_tip_outcome(builder, request) {
        let policy = request.policy;
        if let Some(unsigned) = outcome.unsigned {
            let drawn = tip_inputs_of(&builder.inputs, request.identity@, policy.asset_id@)->Ok_0;
            let recipient = super::parse::hex32_of(policy.recipient@, "puzzle hash"@)->Ok_0;
            let spends = tip_of(drawn, recipient, policy.tip_amount.0)->Ok_0;
            lemma_tip_inputs(&builder.inputs, request.identity@, policy.asset_id@);
            lemma_sealed_payment(
                spends,
                builder.network,
                recipient,
                policy.tip_amount.0,
                Some(policy.asset_id@),
                0,
            );
            assert(spells(policy.recipient@, recipient));
            assert(draws_the_fullest_purse(
                &builder.inputs,
                request.identity@,
                policy.asset_id@,
                drawn,
            ));
        }
    }
}

} // verus!
