//! When builds are refused, and as what, stated of the request and of what the wallet holds.

use vstd::prelude::*;
use vstd::string::*;

use super::build_extended::{
    combine_conditions, combine_outcome, largest_of, leg_lines, leg_resolved, legs_resolved,
    legs_total, multi_send_cat_outcome, multi_send_xch_outcome, split_outcome,
    the_largest_coin_is_split,
};
use super::build_offer::{
    asked_cats, asked_side_of, keys_for, known_keys, make_outcome, maker_side_of, offer_keys,
    offered_cats, owner_hashes,
};
use super::build_options::{
    funding_of, mint_outcome, option_error, smallest_covering,
    the_smallest_covering_coin_funds_a_mint,
};
use super::build_tips::{
    a_tip_draws_the_largest_group, auto_tip_outcome, best_group, group_total, tip_error,
    tip_inputs_of, tip_outcome,
};
use super::builder::{
    chosen_coins, destination_of, of_asset, pay_xch, payment_conditions, send_cat_outcome,
    send_xch_outcome, SdkSpendBuilder, SpendInputs,
};
use super::driver::{address_puzzle_hash, driver_fault_text, DriverFaultView};
use super::offer_driver::{decoded_spends, OfferFaultView};
use super::option_driver::OptionFaultView;
use super::parse::hex32_of;
use super::selection::{
    consolidation_of, high_value_first_is_ranked, lemma_before_asymmetric,
    lemma_not_before_transitive, ranks_before,
};
use super::singleton::run_error;
use super::singleton_driver::RunFaultView;
use super::singleton_laws::ends_with;
use super::spend_laws::{coins_in, ranks_behind, spells, worth};
use super::tip_driver::TipFaultView;
use crate::text::{decimal, hex_bytes, hex_fault, is_hex};
use crate::types::chain::{
    cat_coins, id_of, total_of_coins, Bytes32, WalletCat, WalletCoin, WalletSpendView,
};
use crate::types::error::{WalletErrorCode, WalletErrorView};
use crate::types::identity::IdentityView;
use crate::types::offer::{MakeOfferRequest, OfferedAssets, RequestedAssets};
use crate::types::options::MintOptionRequest;
use crate::types::request::{
    CombineXchRequest, MultiSendCatRequest, MultiSendXchRequest, SendCatRequest, SendLeg,
    SendXchRequest, SplitXchRequest,
};
use crate::types::tips::{AutoTipRequest, TipRequest};
use crate::types::value::{plain_summary, Amount, AssetId, SummaryView};

verus! {

/// A send to a text that is no address, one that moves nothing, and one whose amount and fee exceed
/// a machine word are bad input, whatever the wallet holds.
pub proof fn a_malformed_send_is_bad_input<I: SpendInputs>(
    builder: &SdkSpendBuilder<I>,
    request: SendXchRequest,
)
    requires
        address_puzzle_hash(request.to@) is Err || request.amount.0 + request.fee.0 == 0
            || request.amount.0 + request.fee.0 > u64::MAX,
    ensures
        send_xch_outcome(builder, request) matches Err(error) && error.code
            == WalletErrorCode::InvalidInput,
{
}

/// A CAT send to a text that is no address, and one that moves nothing, are bad input, whatever the
/// wallet holds.
pub proof fn a_malformed_cat_send_is_bad_input<I: SpendInputs>(
    builder: &SdkSpendBuilder<I>,
    request: SendCatRequest,
)
    requires
        address_puzzle_hash(request.to@) is Err || request.amount.0 == 0,
    ensures
        send_cat_outcome(builder, request) matches Err(error) && error.code
            == WalletErrorCode::InvalidInput,
{
}

/// Whether a leg pays something to an address.
pub open spec fn leg_pays(leg: SendLeg) -> bool {
    leg.amount.0 > 0 && address_puzzle_hash(leg.to@) is Ok
}

/// Whether there are legs, each pays something to an address, and together they fit a machine word.
pub open spec fn legs_are_sound(legs: Seq<SendLeg>) -> bool {
    &&& legs.len() > 0
    &&& forall|i: int| 0 <= i < legs.len() ==> leg_pays(#[trigger] legs[i])
    &&& legs_value(legs) <= u64::MAX
}

/// What legs come to together.
pub open spec fn legs_value(legs: Seq<SendLeg>) -> nat
    decreases legs.len(),
{
    if legs.len() == 0 {
        0
    } else {
        legs_value(legs.drop_last()) + legs.last().amount.0 as nat
    }
}

proof fn lemma_legs_value(legs: Seq<SendLeg>)
    ensures
        legs_value(legs) == legs_total(legs),
    decreases legs.len(),
{
    if legs.len() > 0 {
        lemma_legs_value(legs.drop_last());
    }
}

proof fn lemma_legs_resolved(legs: Seq<SendLeg>, n: nat)
    requires
        n <= legs.len(),
    ensures
        legs_resolved(legs, n) is Ok <==> forall|i: int|
            0 <= i < n ==> leg_pays(#[trigger] legs[i]),
        legs_resolved(legs, n) matches Err(error) ==> error.code == WalletErrorCode::InvalidInput,
    decreases n,
{
    if n > 0 {
        lemma_legs_resolved(legs, (n - 1) as nat);
        assert(leg_resolved(legs[n - 1]) is Ok <==> leg_pays(legs[n - 1]));
    }
}

/// A multi-send whose legs are not all in order, or whose sum with the fee exceeds a machine word,
/// is bad input, whatever the wallet holds.
pub proof fn a_malformed_multi_send_is_bad_input<I: SpendInputs>(
    builder: &SdkSpendBuilder<I>,
    request: MultiSendXchRequest,
    cat_request: MultiSendCatRequest,
)
    ensures
        !legs_are_sound(request.legs@) || legs_value(request.legs@) + request.fee.0 > u64::MAX ==> (
        multi_send_xch_outcome(builder, request) matches Err(error) && error.code
            == WalletErrorCode::InvalidInput),
        !legs_are_sound(cat_request.legs@) ==> (multi_send_cat_outcome(
            builder,
            cat_request,
        ) matches Err(error) && error.code == WalletErrorCode::InvalidInput),
{
    lemma_legs_value(request.legs@);
    lemma_legs_value(cat_request.legs@);
    lemma_legs_resolved(request.legs@, request.legs@.len());
    lemma_legs_resolved(cat_request.legs@, cat_request.legs@.len());
}

/// A merge of fewer than two coins is bad input; one whose coins do not leave anything after the
/// fee fails for want of funds.
pub proof fn a_merge_needs_two_coins_and_the_fee<I: SpendInputs>(
    builder: &SdkSpendBuilder<I>,
    request: CombineXchRequest,
    coins: Seq<WalletCoin>,
)
    requires
        builder.inputs.xch_coins(request.identity@) == Ok::<Seq<WalletCoin>, WalletErrorView>(coins),
        builder.inputs.change_of(request.identity@) is Ok,
    ensures
        coins.len() < 2 ==> (combine_outcome(builder, request) matches Err(error) && error.code
            == WalletErrorCode::InvalidInput),
        coins.len() >= 2 && worth(coins) <= request.fee.0 ==> (combine_outcome(
            builder,
            request,
        ) matches Err(error) && error.code == WalletErrorCode::InsufficientFunds),
{
    high_value_first_is_ranked(coins);
    let ordered = super::selection::high_value_first(coins);
    super::spend_laws::lemma_worth(coins);
    super::selection::lemma_total_of_permutation(ordered, coins);
    let merged = consolidation_of(coins, builder.coin_cap as nat);
    assert(ordered.take(ordered.len() as int) =~= ordered);
    super::selection::lemma_total_of_prefix(ordered, merged.len() as int, ordered.len() as int);
    assert(merged =~= ordered.take(merged.len() as int));
}

/// A split into fewer than two coins is bad input. One fails for want of funds exactly if no coin
/// of the wallet can pay the fee and still leave a mojo for each part.
pub proof fn a_split_needs_a_mojo_for_each_part<I: SpendInputs>(
    builder: &SdkSpendBuilder<I>,
    request: SplitXchRequest,
    coins: Seq<WalletCoin>,
)
    requires
        builder.inputs.xch_coins(request.identity@) == Ok::<Seq<WalletCoin>, WalletErrorView>(coins),
        builder.inputs.change_of(request.identity@) is Ok,
    ensures
        request.parts < 2 ==> (split_outcome(builder, request) matches Err(error) && error.code
            == WalletErrorCode::InvalidInput),
        request.parts >= 2 ==> {
            let enough = exists|i: int|
                0 <= i < coins.len() && (#[trigger] coins[i]).amount >= request.fee.0
                    + request.parts;
            &&& !enough ==> (split_outcome(builder, request) matches Err(error) && error.code
                == WalletErrorCode::InsufficientFunds)
            &&& enough ==> (split_outcome(builder, request) matches Err(error) ==> error.code
                == WalletErrorCode::SpendValidationFailed)
        },
{
    if coins.len() > 0 {
        the_largest_coin_is_split(coins);
        let coin = largest_of(coins);
        let at = choose|i: int| 0 <= i < coins.len() && coins[i] == coin;
        assert(coins[at].amount == coin.amount);
        let parts = request.parts as nat;
        if parts >= 2 && coin.amount - request.fee.0 >= parts {
            super::spend_laws::lemma_group_fault(
                &builder.inputs,
                seq![coin],
                super::build_extended::split_conditions(
                    builder.inputs.change_of(request.identity@)->Ok_0,
                    (coin.amount - request.fee.0) as nat,
                    parts,
                    request.fee.0,
                ),
                1,
            );
        }
    }
}

proof fn lemma_asked(cats: Seq<(AssetId, Amount)>, n: nat)
    requires
        n <= cats.len(),
    ensures
        asked_cats(cats, n) matches Err(error) ==> error.code == WalletErrorCode::InvalidInput,
        asked_cats(cats, n) is Ok <==> forall|i: int|
            0 <= i < n ==> (#[trigger] cats[i]).1.0 > 0 && is_hex(cats[i].0@) && hex_bytes(
                cats[i].0@,
            ).len() == 32,
    decreases n,
{
    if n > 0 {
        lemma_asked(cats, (n - 1) as nat);
        assert(cats[n - 1] == cats[n - 1]);
    }
}

/// An offer whose requested side asks for nothing, asks for a CAT that cannot be read or for none
/// of it, or whose payee is no address, is never made: where the offered side is in order, it is
/// bad input.
pub proof fn a_malformed_request_makes_no_offer<I: SpendInputs>(
    builder: &SdkSpendBuilder<I>,
    request: MakeOfferRequest,
)
    requires
        maker_side_of(&builder.inputs, request.identity@, request.offered, request.fee.0) is Ok,
        ({
            ||| request.requested.xch.0 == 0 && request.requested.cats@.len() == 0
            ||| address_puzzle_hash(request.requested.payee@) is Err
            ||| exists|i: int|
                0 <= i < request.requested.cats@.len() && !((
                #[trigger] request.requested.cats@[i]).1.0 > 0 && is_hex(
                    request.requested.cats@[i].0@,
                ) && hex_bytes(request.requested.cats@[i].0@).len() == 32)
        }),
    ensures
        make_outcome(builder, request) matches Err(error) && error.code
            == WalletErrorCode::InvalidInput,
{
    lemma_asked(request.requested.cats@, request.requested.cats@.len());
    super::offer_laws::a_make_asks_what_was_requested(builder, request);
}

/// An option that locks nothing, and one whose amounts exceed a machine word, are bad input.
pub proof fn a_malformed_mint_is_bad_input<I: SpendInputs>(
    builder: &SdkSpendBuilder<I>,
    request: MintOptionRequest,
)
    ensures
        request.underlying_amount.0 == 0 ==> (mint_outcome(builder, request) matches Err(error)
            && error.code == WalletErrorCode::InvalidInput),
        request.underlying_amount.0 + 1 + request.fee.0 > u64::MAX ==> mint_outcome(
            builder,
            request,
        ) is Err,
{
}

/// A tip has something to draw on exactly if the wallet holds a coin of the asset that it has a key
/// for; without one it fails for want of funds.
pub proof fn a_tip_needs_a_coin_with_a_key<I: SpendInputs>(
    builder: &SdkSpendBuilder<I>,
    request: TipRequest,
    cats: Seq<WalletCat>,
    asset: Bytes32,
)
    requires
        spells(request.asset_id@, asset),
        builder.inputs.cats_of(request.identity@, request.asset_id@) == Ok::<
            Seq<WalletCat>,
            WalletErrorView,
        >(cats),
        builder.inputs.change_of(request.identity@) is Ok,
    ensures
        ({
            let held = exists|i: int|
                0 <= i < cats.len() && (#[trigger] cats[i]).asset_id == asset
                    && builder.inputs.key_of(cats[i].p2_puzzle_hash) is Some;
            &&& held ==> tip_inputs_of(
                &builder.inputs,
                request.identity@,
                request.asset_id@,
            ) is Ok
            &&& !held ==> (tip_outcome(builder, request) matches Err(error) && error.code
                == WalletErrorCode::InsufficientFunds)
        }),
{
    let mine = of_asset(cats, asset);
    let pred = |c: WalletCat| c.asset_id == asset;
    assert(mine == cats.filter(pred));
    a_tip_draws_the_largest_group(&builder.inputs, mine, mine.len());
    let held = exists|i: int|
        0 <= i < cats.len() && (#[trigger] cats[i]).asset_id == asset && builder.inputs.key_of(
            cats[i].p2_puzzle_hash,
        ) is Some;
    if held {
        let i = choose|i: int|
            0 <= i < cats.len() && (#[trigger] cats[i]).asset_id == asset && builder.inputs.key_of(
                cats[i].p2_puzzle_hash,
            ) is Some;
        assert(pred(cats[i]));
        cats.lemma_filter_contains(pred, i);
        let j = choose|j: int| 0 <= j < mine.len() && mine[j] == cats[i];
        assert(builder.inputs.key_of(mine[j].p2_puzzle_hash) is Some);
    } else if best_group(&builder.inputs, mine, mine.len()) is Some {
        let best = best_group(&builder.inputs, mine, mine.len())->0;
        let j = choose|j: int| 0 <= j < mine.len() && (#[trigger] mine[j]).p2_puzzle_hash == best;
        cats.lemma_filter_pred(pred, j);
        assert(mine.contains(mine[j]));
        cats.lemma_filter_contains_rev(pred, mine[j]);
        let i = choose|i: int| 0 <= i < cats.len() && cats[i] == mine[j];
        assert(cats[i].asset_id == asset);
    }
}

/// A tip or auto-tip policy whose recipient or asset cannot be read never pays anybody.
pub proof fn an_unreadable_tip_is_refused<I: SpendInputs>(
    builder: &SdkSpendBuilder<I>,
    request: TipRequest,
    auto_request: AutoTipRequest,
)
    ensures
        !(is_hex(request.recipient@) && hex_bytes(request.recipient@).len() == 32) || !(is_hex(
            request.asset_id@,
        ) && hex_bytes(request.asset_id@).len() == 32) ==> tip_outcome(builder, request) is Err,
        !(is_hex(auto_request.policy.recipient@) && hex_bytes(
            auto_request.policy.recipient@,
        ).len() == 32) || !(is_hex(auto_request.policy.asset_id@) && hex_bytes(
            auto_request.policy.asset_id@,
        ).len() == 32) ==> (auto_tip_outcome(builder, auto_request) matches Err(error)
            && error.code == WalletErrorCode::InvalidInput),
{
}

/// What a driver refuses is classed by what went wrong: a zero tip and an impossible mint are bad
/// input, too few or too many coins are a want of funds, and everything else is a failed spend.
pub proof fn driver_refusals_are_classed(
    tip: TipFaultView,
    option: OptionFaultView,
    run: RunFaultView,
)
    ensures
        tip_error(tip).code == WalletErrorCode::InvalidInput <==> tip is ZeroAmount,
        tip_error(tip).code == WalletErrorCode::InsufficientFunds <==> tip is InsufficientFunds
            || tip is TooManyInputs,
        tip is Other || tip is Key ==> tip_error(tip).code
            == WalletErrorCode::SpendValidationFailed,
        option is InvalidInput ==> option_error(option).code == WalletErrorCode::InvalidInput,
        option is Other ==> option_error(option).code == WalletErrorCode::SpendValidationFailed,
        run_error(run).code == WalletErrorCode::SpendValidationFailed,
{
}

/// Whether a message says one number behind a label and then another number behind another label.
pub open spec fn says_both(
    message: Seq<char>,
    label: Seq<char>,
    number: nat,
    other_label: Seq<char>,
    other: nat,
) -> bool {
    exists|before: Seq<char>, after: Seq<char>|
        message == #[trigger] (before + (label + decimal(number) + other_label + decimal(other))
            + after)
}

proof fn lemma_says_both(
    message: Seq<char>,
    before: Seq<char>,
    label: Seq<char>,
    number: nat,
    other_label: Seq<char>,
    other: nat,
    after: Seq<char>,
)
    requires
        message =~= before + (label + decimal(number) + other_label + decimal(other)) + after,
    ensures
        says_both(message, label, number, other_label, other),
{
}

/// A wallet that is short is told what it has and what it needs, and one whose coins are too many
/// is told what it has across them and what it needs.
pub proof fn a_short_wallet_is_told_its_numbers(
    coins: Seq<WalletCoin>,
    target: nat,
    cap: nat,
    asset: Seq<char>,
)
    ensures
        worth(coins) < target ==> (chosen_coins(coins, target, cap, asset) matches Err(error)
            && says_both(error.message, ": have "@, worth(coins), ", need "@, target)),
        worth(coins) >= target ==> (chosen_coins(coins, target, cap, asset) matches Err(error)
            ==> says_both(
            error.message,
            " needs consolidation: "@,
            worth(coins),
            " available across too many coins to reach "@,
            target,
        )),
{
    super::spend_laws::lemma_worth(coins);
    if let Err(error) = chosen_coins(coins, target, cap, asset) {
        if worth(coins) < target {
            lemma_says_both(
                error.message,
                "insufficient "@ + asset,
                ": have "@,
                worth(coins),
                ", need "@,
                target,
                Seq::empty(),
            );
        } else {
            lemma_says_both(
                error.message,
                asset,
                " needs consolidation: "@,
                worth(coins),
                " available across too many coins to reach "@,
                target,
                " within the "@ + decimal(cap) + "-coin cap"@,
            );
        }
    }
}

/// A wallet that is short of a CAT is told what it has and what it needs of it, unless it has no
/// coin of it at all.
pub proof fn a_wallet_short_of_a_cat_is_told_its_numbers<I: SpendInputs>(
    builder: &SdkSpendBuilder<I>,
    request: SendCatRequest,
    cats: Seq<WalletCat>,
)
    requires
        builder.inputs.cats_of(request.identity@, request.asset_id@) == Ok::<
            Seq<WalletCat>,
            WalletErrorView,
        >(cats),
        builder.inputs.change_of(request.identity@) is Ok,
        address_puzzle_hash(request.to@) is Ok,
        cats.len() > 0,
        worth(coins_in(cats)) < request.amount.0,
    ensures
        send_cat_outcome(builder, request) matches Err(error) && says_both(
            error.message,
            ": have "@,
            worth(coins_in(cats)),
            ", need "@,
            request.amount.0 as nat,
        ),
{
    assert(coins_in(cats) =~= cat_coins(cats));
    super::spend_laws::lemma_worth(cat_coins(cats));
    reveal_strlit("insufficient CAT: have ");
    reveal_strlit(": have ");
    assert("insufficient CAT: have "@ =~= "insufficient CAT: have "@.take(16) + ": have "@);
    if let Err(error) = send_cat_outcome(builder, request) {
        lemma_says_both(
            error.message,
            "insufficient CAT: have "@.take(16),
            ": have "@,
            worth(coins_in(cats)),
            ", need "@,
            request.amount.0 as nat,
            Seq::empty(),
        );
    }
}

/// Of equal coins the first one funds a mint.
pub proof fn the_first_of_equal_coins_funds_a_mint(coins: Seq<WalletCoin>, needed: u64, n: nat)
    requires
        n <= coins.len(),
    ensures
        smallest_covering(coins, needed, n) matches Some(best) ==> exists|at: int|
            0 <= at < n && #[trigger] coins[at] == best && forall|i: int|
                0 <= i < at ==> !(needed <= (#[trigger] coins[i]).amount && coins[i].amount
                    <= best.amount),
    decreases n,
{
    if n > 0 {
        the_first_of_equal_coins_funds_a_mint(coins, needed, (n - 1) as nat);
        the_smallest_covering_coin_funds_a_mint(coins, needed, (n - 1) as nat);
        if let Some(best) = smallest_covering(coins, needed, n) {
            let before = smallest_covering(coins, needed, (n - 1) as nat);
            if before == Some(best) {
                let at = choose|at: int|
                    0 <= at < n - 1 && #[trigger] coins[at] == best && forall|i: int|
                        0 <= i < at ==> !(needed <= (#[trigger] coins[i]).amount && coins[i].amount
                            <= best.amount);
                assert(coins[at] == best);
            } else {
                assert(coins[n - 1] == best);
                assert forall|i: int| 0 <= i < n - 1 implies !(needed <= (
                #[trigger] coins[i]).amount && coins[i].amount <= best.amount) by {}
            }
        }
    }
}

/// Of purses that hold the same the first one is drawn on for a tip.
pub proof fn the_first_of_equal_purses_tips<I: SpendInputs>(
    inputs: &I,
    cats: Seq<WalletCat>,
    n: nat,
)
    requires
        n <= cats.len(),
    ensures
        best_group(inputs, cats, n) matches Some(best) ==> exists|at: int|
            0 <= at < n && (#[trigger] cats[at]).p2_puzzle_hash == best && forall|i: int|
                0 <= i < at && inputs.key_of((#[trigger] cats[i]).p2_puzzle_hash) is Some
                    ==> group_total(cats, cats[i].p2_puzzle_hash) < group_total(cats, best),
    decreases n,
{
    if n > 0 {
        the_first_of_equal_purses_tips(inputs, cats, (n - 1) as nat);
        a_tip_draws_the_largest_group(inputs, cats, (n - 1) as nat);
        if let Some(best) = best_group(inputs, cats, n) {
            let before = best_group(inputs, cats, (n - 1) as nat);
            if before == Some(best) {
                let at = choose|at: int|
                    0 <= at < n - 1 && (#[trigger] cats[at]).p2_puzzle_hash == best && forall|
                        i: int,
                    |
                        0 <= i < at && inputs.key_of((#[trigger] cats[i]).p2_puzzle_hash) is Some
                            ==> group_total(cats, cats[i].p2_puzzle_hash) < group_total(
                            cats,
                            best,
                        );
                assert(cats[at].p2_puzzle_hash == best);
            } else {
                assert(cats[n - 1].p2_puzzle_hash == best);
                assert forall|i: int|
                    0 <= i < n - 1 && inputs.key_of((#[trigger] cats[i]).p2_puzzle_hash)
                        is Some implies group_total(cats, cats[i].p2_puzzle_hash) < group_total(
                    cats,
                    best,
                ) by {}
            }
        }
    }
}

/// Of equal coins a split takes the one with the smaller id: every coin ranks behind the one that
/// is split, unless it has the same amount and id.
pub proof fn a_split_takes_the_first_ranked_coin(coins: Seq<WalletCoin>, i: int)
    requires
        0 <= i < coins.len(),
    ensures
        ranks_behind(coins[i], largest_of(coins)) || (coins[i].amount == largest_of(coins).amount
            && id_of(coins[i]) == id_of(largest_of(coins))),
{
    lemma_none_before_largest(coins);
    super::spend_laws::lemma_not_before(coins[i], largest_of(coins));
}

proof fn lemma_none_before_largest(coins: Seq<WalletCoin>)
    requires
        coins.len() > 0,
    ensures
        forall|i: int| 0 <= i < coins.len() ==> !ranks_before(#[trigger] coins[i], largest_of(coins)),
    decreases coins.len(),
{
    if coins.len() > 1 {
        let front = coins.drop_last();
        let best = largest_of(front);
        let last = coins.last();
        lemma_none_before_largest(front);
        assert forall|i: int| 0 <= i < coins.len() implies !ranks_before(
            #[trigger] coins[i],
            largest_of(coins),
        ) by {
            if i < front.len() {
                assert(front[i] == coins[i]);
                if !ranks_before(best, last) {
                    lemma_not_before_transitive(last, best, coins[i]);
                }
            } else if ranks_before(best, last) {
                lemma_before_asymmetric(best, last);
            } else if ranks_before(last, last) {
                lemma_before_asymmetric(last, last);
            }
        }
    } else if ranks_before(coins[0], coins[0]) {
        lemma_before_asymmetric(coins[0], coins[0]);
    }
}

/// Whether a message holds a text somewhere.
pub open spec fn tells(message: Seq<char>, text: Seq<char>) -> bool {
    exists|before: Seq<char>, after: Seq<char>| message == #[trigger] (before + text + after)
}

pub proof fn lemma_tells(message: Seq<char>, before: Seq<char>, text: Seq<char>, after: Seq<char>)
    requires
        message =~= before + text + after,
    ensures
        tells(message, text),
{
}

/// A text that is no hash is bad input, and the refusal repeats what it was meant to be and the
/// text itself; where the text is no hex at all it also tells why.
pub proof fn a_bad_hash_is_told(text: Seq<char>, label: Seq<char>)
    ensures
        hex32_of(text, label) is Ok <==> is_hex(text) && hex_bytes(text).len() == 32,
        hex32_of(text, label) matches Err(error) ==> {
            &&& error.code == WalletErrorCode::InvalidInput
            &&& tells(error.message, label)
            &&& tells(error.message, text)
            &&& !is_hex(text) ==> ends_with(error.message, hex_fault(text))
        },
{
    if let Err(error) = hex32_of(text, label) {
        if !is_hex(text) {
            let fault = hex_fault(text);
            lemma_tells(error.message, "bad "@, label, " "@ + text + ": "@ + fault);
            lemma_tells(error.message, "bad "@ + label + " "@, text, ": "@ + fault);
            assert(error.message.skip(error.message.len() - fault.len()) =~= fault);
        } else {
            lemma_tells(error.message, Seq::empty(), label, " "@ + text + " is not 32 bytes"@);
            lemma_tells(error.message, label + " "@, text, " is not 32 bytes"@);
        }
    }
}

/// A text that is no address is bad input, and the refusal repeats the text and tells why.
pub proof fn a_bad_address_is_told(address: Seq<char>)
    ensures
        address_puzzle_hash(address) matches Ok(puzzle_hash) ==> destination_of(address) == Ok::<
            Bytes32,
            WalletErrorView,
        >(puzzle_hash),
        address_puzzle_hash(address) matches Err(fault) ==> (destination_of(address) matches Err(error)
            && error.code == WalletErrorCode::InvalidInput && tells(error.message, address)
            && ends_with(error.message, fault)),
{
    if let Err(fault) = address_puzzle_hash(address) {
        let message = destination_of(address)->Err_0.message;
        lemma_tells(message, "bad address "@, address, ": "@ + fault);
        assert(message.skip(message.len() - fault.len()) =~= fault);
    }
}

/// A driver's fault is told in full behind what was being spent.
pub proof fn a_spend_fault_is_told(fault: DriverFaultView, label: Seq<char>)
    ensures
        fault matches DriverFaultView::Hint(text) ==> ends_with(
            driver_fault_text(fault, label),
            text,
        ),
        fault matches DriverFaultView::Inner(text) ==> ends_with(
            driver_fault_text(fault, label),
            text,
        ),
        fault matches DriverFaultView::Spend(text) ==> driver_fault_text(fault, label) == label
            + text,
{
    let told = driver_fault_text(fault, label);
    match fault {
        DriverFaultView::Hint(text) => assert(told.skip(told.len() - text.len()) =~= text),
        DriverFaultView::Inner(text) => assert(told.skip(told.len() - text.len()) =~= text),
        DriverFaultView::Spend(_) => {},
    }
}

/// What a tip driver counted is told as it counted it: what a tip needs and what there is, or how
/// many coins it takes and how many it may.
pub proof fn a_refused_tip_is_told_its_numbers(fault: TipFaultView)
    ensures
        fault matches TipFaultView::InsufficientFunds { need, have } ==> says_both(
            tip_error(fault).message,
            ": need "@,
            need as nat,
            ", have "@,
            have as nat,
        ),
        fault matches TipFaultView::TooManyInputs { needed, cap } ==> says_both(
            tip_error(fault).message,
            "tip needs "@,
            needed as nat,
            " CAT inputs, over the "@,
            cap as nat,
        ),
{
    match fault {
        TipFaultView::InsufficientFunds { need, have } => {
            reveal_strlit("insufficient CAT to tip: need ");
            reveal_strlit(": need ");
            assert("insufficient CAT to tip: need "@ =~= "insufficient CAT to tip: need "@.take(23)
                + ": need "@);
            lemma_says_both(
                tip_error(fault).message,
                "insufficient CAT to tip: need "@.take(23),
                ": need "@,
                need as nat,
                ", have "@,
                have as nat,
                Seq::empty(),
            );
        },
        TipFaultView::TooManyInputs { needed, cap } => {
            lemma_says_both(
                tip_error(fault).message,
                Seq::empty(),
                "tip needs "@,
                needed as nat,
                " CAT inputs, over the "@,
                cap as nat,
                "-coin cap; consolidate first"@,
            );
        },
        _ => {},
    }
}

/// A mint without a coin to fund it is told its numbers: what it takes and over how many coins it
/// was looked for, or what the smallest coin that covers it holds and what it may hold.
pub proof fn an_unfunded_mint_is_told_its_numbers(
    coins: Seq<WalletCoin>,
    needed: u64,
    ceiling: u64,
)
    ensures
        funding_of(coins, needed, ceiling) matches Err(error) ==> match smallest_covering(
            coins,
            needed,
            coins.len(),
        ) {
            None => says_both(
                error.message,
                " ("@,
                needed as nat,
                "); largest available across "@,
                coins.len(),
            ),
            Some(coin) => coin.amount > ceiling && says_both(
                error.message,
                "smallest funding coin ("@,
                coin.amount as nat,
                ") exceeds underlying + singleton + max fee ("@,
                ceiling as nat,
            ),
        },
{
    if let Err(error) = funding_of(coins, needed, ceiling) {
        match smallest_covering(coins, needed, coins.len()) {
            None => {
                reveal_strlit("no single XCH coin covers the option underlying + singleton (");
                reveal_strlit(" (");
                let opening = "no single XCH coin covers the option underlying + singleton ("@;
                let head = opening.take(opening.len() - 2);
                assert(opening =~= head + " ("@);
                lemma_says_both(
                    error.message,
                    head,
                    " ("@,
                    needed as nat,
                    "); largest available across "@,
                    coins.len(),
                    " coins totals "@ + decimal(total_of_coins(coins)),
                );
            },
            Some(coin) => {
                lemma_says_both(
                    error.message,
                    Seq::empty(),
                    "smallest funding coin ("@,
                    coin.amount as nat,
                    ") exceeds underlying + singleton + max fee ("@,
                    ceiling as nat,
                    "); split a coin to that size first (mint has no change output)"@,
                );
            },
        }
    }
}

/// A multi-send whose legs are in order fails for want of funds if the wallet's coins do not reach
/// what it takes; if they do, and the cap lets all of them in, only the writing of the spend can
/// still fail.
pub proof fn only_a_short_wallet_is_refused_a_multi_send<I: SpendInputs>(
    builder: &SdkSpendBuilder<I>,
    request: MultiSendXchRequest,
    coins: Seq<WalletCoin>,
)
    requires
        builder.inputs.xch_coins(request.identity@) == Ok::<Seq<WalletCoin>, WalletErrorView>(coins),
        builder.inputs.change_of(request.identity@) is Ok,
        legs_are_sound(request.legs@),
        legs_value(request.legs@) + request.fee.0 <= u64::MAX,
    ensures
        ({
            let target = legs_value(request.legs@) + request.fee.0;
            let outcome = multi_send_xch_outcome(builder, request);
            &&& worth(coins) < target ==> (outcome matches Err(error) && error.code
                == WalletErrorCode::InsufficientFunds)
            &&& worth(coins) >= target && coins.len() <= builder.coin_cap ==> (outcome matches Err(
                error,
            ) ==> error.code == WalletErrorCode::SpendValidationFailed)
        }),
{
    let target = (legs_value(request.legs@) + request.fee.0) as nat;
    lemma_legs_value(request.legs@);
    lemma_legs_resolved(request.legs@, request.legs@.len());
    lemma_pay_xch_fault(
        builder,
        request.identity@,
        coins,
        legs_resolved(request.legs@, request.legs@.len())->Ok_0,
        target,
        request.fee.0,
        plain_summary(leg_lines(request.legs@, None), request.fee.0),
    );
}

proof fn lemma_pay_xch_fault<I: SpendInputs>(
    builder: &SdkSpendBuilder<I>,
    identity: IdentityView,
    coins: Seq<WalletCoin>,
    destinations: Seq<(Bytes32, u64)>,
    target: nat,
    fee: u64,
    summary: SummaryView,
)
    requires
        builder.inputs.xch_coins(identity) == Ok::<Seq<WalletCoin>, WalletErrorView>(coins),
        builder.inputs.change_of(identity) is Ok,
    ensures
        ({
            let outcome = pay_xch(builder, identity, destinations, target, fee, summary);
            &&& worth(coins) < target ==> (outcome matches Err(error) && error.code
                == WalletErrorCode::InsufficientFunds)
            &&& worth(coins) >= target && coins.len() <= builder.coin_cap ==> (outcome matches Err(
                error,
            ) ==> error.code == WalletErrorCode::SpendValidationFailed)
        }),
{
    let cap = builder.coin_cap as nat;
    super::spend_laws::lemma_worth(coins);
    high_value_first_is_ranked(coins);
    let ordered = super::selection::high_value_first(coins);
    super::selection::lemma_total_of_permutation(ordered, coins);
    if worth(coins) >= target && coins.len() <= cap {
        assert(super::selection::at_most(ordered, cap) =~= ordered);
        let chosen = chosen_coins(coins, target, cap, "XCH"@)->Ok_0;
        super::spend_laws::lemma_group_fault(
            &builder.inputs,
            chosen,
            payment_conditions(
                destinations,
                builder.inputs.change_of(identity)->Ok_0,
                total_of_coins(chosen) - target,
                fee,
            ),
            chosen.len(),
        );
    }
}

/// A CAT multi-send whose legs are in order fails for want of the asset, and tells what there is and
/// what it takes, if the wallet holds less of it than they come to; if it holds enough and pays no
/// fee, only the writing of the spend can still fail.
pub proof fn only_a_short_wallet_is_refused_a_cat_multi_send<I: SpendInputs>(
    builder: &SdkSpendBuilder<I>,
    request: MultiSendCatRequest,
    cats: Seq<WalletCat>,
)
    requires
        builder.inputs.cats_of(request.identity@, request.asset_id@) == Ok::<
            Seq<WalletCat>,
            WalletErrorView,
        >(cats),
        builder.inputs.change_of(request.identity@) is Ok,
        legs_are_sound(request.legs@),
    ensures
        ({
            let outcome = multi_send_cat_outcome(builder, request);
            &&& worth(coins_in(cats)) < legs_value(request.legs@) ==> (outcome matches Err(error)
                && error.code == WalletErrorCode::InsufficientFunds && says_both(
                error.message,
                ": have "@,
                worth(coins_in(cats)),
                ", need "@,
                legs_value(request.legs@),
            ))
            &&& worth(coins_in(cats)) >= legs_value(request.legs@) && request.fee.0 == 0 ==> (
            outcome matches Err(error) ==> error.code == WalletErrorCode::SpendValidationFailed)
        }),
{
    lemma_legs_value(request.legs@);
    lemma_legs_resolved(request.legs@, request.legs@.len());
    lemma_legs_positive(request.legs@);
    assert(coins_in(cats) =~= cat_coins(cats));
    super::spend_laws::lemma_worth(cat_coins(cats));
    if worth(coins_in(cats)) < legs_value(request.legs@) {
        if let Err(error) = multi_send_cat_outcome(builder, request) {
            lemma_says_both(
                error.message,
                "insufficient "@ + request.asset_id@,
                ": have "@,
                worth(coins_in(cats)),
                ", need "@,
                legs_value(request.legs@),
                Seq::empty(),
            );
        }
    }
}

proof fn lemma_legs_positive(legs: Seq<SendLeg>)
    requires
        legs.len() > 0,
        leg_pays(legs[legs.len() - 1]),
    ensures
        legs_value(legs) > 0,
{
}

/// A merge of at least two coins whose worth exceeds the fee can only fail in the writing of the
/// spend, where the cap lets all of them in.
pub proof fn a_merge_is_owed_to_coins_above_the_fee<I: SpendInputs>(
    builder: &SdkSpendBuilder<I>,
    request: CombineXchRequest,
    coins: Seq<WalletCoin>,
)
    requires
        builder.inputs.xch_coins(request.identity@) == Ok::<Seq<WalletCoin>, WalletErrorView>(coins),
        builder.inputs.change_of(request.identity@) is Ok,
        2 <= coins.len(),
        coins.len() <= builder.coin_cap || coins.len() == 2,
        worth(coins) > request.fee.0,
    ensures
        combine_outcome(builder, request) matches Err(error) ==> error.code
            == WalletErrorCode::SpendValidationFailed,
{
    high_value_first_is_ranked(coins);
    let ordered = super::selection::high_value_first(coins);
    super::spend_laws::lemma_worth(coins);
    super::selection::lemma_total_of_permutation(ordered, coins);
    let merged = consolidation_of(coins, builder.coin_cap as nat);
    assert(merged =~= ordered);
    super::spend_laws::lemma_group_fault(
        &builder.inputs,
        merged,
        combine_conditions(
            builder.inputs.change_of(request.identity@)->Ok_0,
            (total_of_coins(merged) - request.fee.0) as u64,
            request.fee.0,
        ),
        merged.len(),
    );
}

/// Whether every CAT of a list is asked for in an amount above zero under an id that can be read.
pub open spec fn cats_are_sound(cats: Seq<(AssetId, Amount)>) -> bool {
    forall|i: int|
        0 <= i < cats.len() ==> (#[trigger] cats[i]).1.0 > 0 && is_hex(cats[i].0@) && hex_bytes(
            cats[i].0@,
        ).len() == 32
}

/// The requested side of an offer is accepted exactly if it asks for something, everything that it
/// asks for can be read, and its payee is an address.
pub proof fn a_sound_request_is_accepted(requested: RequestedAssets)
    ensures
        asked_side_of(requested) is Ok <==> {
            &&& requested.xch.0 > 0 || requested.cats@.len() > 0
            &&& cats_are_sound(requested.cats@)
            &&& address_puzzle_hash(requested.payee@) is Ok
        },
        asked_side_of(requested) matches Err(error) ==> error.code == WalletErrorCode::InvalidInput,
{
    lemma_asked(requested.cats@, requested.cats@.len());
    lemma_asked_len(requested.cats@, requested.cats@.len());
}

proof fn lemma_asked_len(cats: Seq<(AssetId, Amount)>, n: nat)
    ensures
        asked_cats(cats, n) matches Ok(legs) ==> legs.len() == n,
    decreases n,
{
    if n > 0 {
        lemma_asked_len(cats, (n - 1) as nat);
    }
}

proof fn lemma_keys_exist<I: SpendInputs>(inputs: &I, hashes: Seq<Bytes32>, n: nat)
    requires
        n <= hashes.len(),
        forall|i: int| 0 <= i < n ==> inputs.key_of(#[trigger] hashes[i]) is Some,
    ensures
        keys_for(inputs, hashes, n) is Ok,
    decreases n,
{
    if n > 0 {
        lemma_keys_exist(inputs, hashes, (n - 1) as nat);
    }
}

proof fn lemma_offered_ok<I: SpendInputs>(
    inputs: &I,
    identity: IdentityView,
    cats: Seq<(AssetId, Amount)>,
    n: nat,
)
    requires
        n <= cats.len(),
        cats_are_sound(cats),
        forall|i: int|
            0 <= i < cats.len() ==> holds_known_coins(inputs, identity, (#[trigger] cats[i]).0@),
    ensures
        offered_cats(inputs, identity, cats, n) matches Ok((coins, _)) && forall|i: int|
            0 <= i < coins.len() ==> inputs.key_of((#[trigger] coins[i]).p2_puzzle_hash) is Some,
    decreases n,
{
    if n > 0 {
        lemma_offered_ok(inputs, identity, cats, (n - 1) as nat);
        assert(holds_known_coins(inputs, identity, cats[n - 1].0@));
        let before = offered_cats(inputs, identity, cats, (n - 1) as nat)->Ok_0.0;
        let more = inputs.cats_of(identity, cats[n - 1].0@)->Ok_0;
        let coins = offered_cats(inputs, identity, cats, n)->Ok_0.0;
        assert(coins == before + more);
        assert forall|i: int| 0 <= i < coins.len() implies inputs.key_of(
            (#[trigger] coins[i]).p2_puzzle_hash,
        ) is Some by {
            if i >= before.len() {
                assert(coins[i] == more[i - before.len()]);
            } else {
                assert(coins[i] == before[i]);
            }
        }
    }
}

/// Whether the wallet's coins of an asset are known, and it has a key for each of them.
pub open spec fn holds_known_coins<I: SpendInputs>(
    inputs: &I,
    identity: IdentityView,
    asset_id: Seq<char>,
) -> bool {
    inputs.cats_of(identity, asset_id) matches Ok(coins) && forall|i: int|
        0 <= i < coins.len() ==> inputs.key_of((#[trigger] coins[i]).p2_puzzle_hash) is Some
}

/// The offered side of an offer is accepted exactly if it offers something, where everything that
/// it offers can be read and the wallet knows its coins and has a key for each of them.
pub proof fn a_sound_offer_is_accepted<I: SpendInputs>(
    inputs: &I,
    identity: IdentityView,
    offered: OfferedAssets,
    fee: u64,
)
    requires
        cats_are_sound(offered.cats@),
        forall|i: int|
            0 <= i < offered.cats@.len() ==> holds_known_coins(
                inputs,
                identity,
                (#[trigger] offered.cats@[i]).0@,
            ),
        inputs.xch_coins(identity) matches Ok(coins) && forall|i: int|
            0 <= i < coins.len() ==> inputs.key_of((#[trigger] coins[i]).puzzle_hash) is Some,
        inputs.change_of(identity) is Ok,
    ensures
        maker_side_of(inputs, identity, offered, fee) is Ok <==> offered.xch.0 > 0
            || offered.cats@.len() > 0,
        maker_side_of(inputs, identity, offered, fee) matches Err(error) ==> error.code
            == WalletErrorCode::InvalidInput,
{
    lemma_offered_ok(inputs, identity, offered.cats@, offered.cats@.len());
    let cats = offered_cats(inputs, identity, offered.cats@, offered.cats@.len())->Ok_0.0;
    let xch = if offered.xch.0 > 0 || fee > 0 {
        inputs.xch_coins(identity)->Ok_0
    } else {
        Seq::empty()
    };
    let hashes = owner_hashes(xch, cats);
    assert forall|i: int| 0 <= i < hashes.len() implies inputs.key_of(
        #[trigger] hashes[i],
    ) is Some by {
        if i < xch.len() {
            assert(hashes[i] == xch[i].puzzle_hash);
        } else {
            assert(hashes[i] == cats[i - xch.len()].p2_puzzle_hash);
        }
    }
    lemma_keys_exist(inputs, hashes, hashes.len());
}

/// An offer can be cancelled by a wallet that holds a key for at least one of its coins.
pub proof fn a_maker_is_recognized<I: SpendInputs>(
    inputs: &I,
    offer: Seq<char>,
    spends: Seq<WalletSpendView>,
    at: int,
)
    requires
        decoded_spends(offer) == Ok::<Seq<WalletSpendView>, OfferFaultView>(spends),
        0 <= at < spends.len(),
        inputs.key_of(spends[at].coin.puzzle_hash) is Some,
    ensures
        offer_keys(inputs, offer) is Ok,
{
    super::offer_laws::lemma_known_keys(inputs, spends, spends.len());
    let all = spends.take(spends.len() as int);
    assert(all =~= spends);
    let keys = known_keys(inputs, spends, spends.len());
    assert(super::offer_laws::listed(keys, all[at].coin.puzzle_hash));
}

} // verus!
