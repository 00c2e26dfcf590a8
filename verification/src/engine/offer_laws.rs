//! What offers do, stated of what is handed to the offer driver and of what is shown for review.

use vstd::prelude::*;
use vstd::string::*;

use super::build_offer::{
    asked_cats, cancel_outcome, chosen_cats, funded_cats, is_chosen, keys_for, known_keys,
    make_outcome, offer_error, offered_cats, owner_hashes, owner_keys_of, payment_lines, saturating,
    summary_outcome, take_outcome, taker_funds_of, trade_lines, with_id,
};
use super::build_offers::{cancel_answer, first_leg_fault, leg_fault, make_answer, take_answer};
use super::builder::{chosen_coins, of_asset, SdkSpendBuilder, SpendInputs};
use super::driver::{address_puzzle_hash, puzzle_hash_address};
use super::offer_driver::{
    cancelled_spends, decoded_spends, facts_of, has_owner, id_of_offer, made_spends, taken_plan,
    AskedPayment, AskedSideView, LegAsset, MakerSideView, OfferFaultView, TakePlanView,
    TakerSideView,
};
use super::spend_laws::{
    coins_in, draws, lemma_drawn, lemma_sealed, lists_its_signatures, shows, spells,
};
use crate::text::{hex_bytes, hex_text, is_hex};
use crate::types::chain::{
    cat_coins, id_of, Bytes32, PublicKey, WalletCat, WalletCoin, WalletSpendView,
};
use crate::types::error::{WalletErrorCode, WalletErrorView};
use crate::types::identity::IdentityView;
use crate::types::offer::{
    CancelOfferRequest, MakeOfferRequest, OfferedAssets, RequestedAssets, SummaryAssetView,
    TakeOfferRequest,
};
use crate::types::offers::{
    CancelOfferRequest as LegCancelRequest, MakeOfferRequest as LegMakeRequest, OfferLeg,
    TakeOfferRequest as LegTakeRequest,
};
use crate::types::value::{Amount, AssetId, SpendOutputView};

verus! {

/// Whether a resolved leg is that of a CAT: the asset that the id spells in hex, and the amount,
/// which is not zero.
pub open spec fn resolves_cat(leg: (Bytes32, u64), cat: (AssetId, Amount)) -> bool {
    &&& spells(cat.0@, leg.0)
    &&& leg.1 == cat.1.0
    &&& leg.1 > 0
}

/// Whether resolved legs are those of CATs, one by one.
pub open spec fn resolves_cats(legs: Seq<(Bytes32, u64)>, cats: Seq<(AssetId, Amount)>) -> bool {
    &&& legs.len() == cats.len()
    &&& forall|i: int| 0 <= i < cats.len() ==> #[trigger] resolves_cat(legs[i], cats[i])
}

/// Whether the asked side of an offer is what a maker requested: the payee that its address
/// decodes to, the XCH and each CAT.
pub open spec fn asks_what_was_requested(asked: AskedSideView, requested: RequestedAssets) -> bool {
    &&& address_puzzle_hash(requested.payee@) == Ok::<Bytes32, Seq<char>>(asked.payee_puzzle_hash)
    &&& asked.xch == requested.xch.0
    &&& resolves_cats(asked.cats, requested.cats@)
    &&& asked.xch > 0 || asked.cats.len() > 0
}

/// Whether a puzzle hash is listed with a key.
pub open spec fn listed(keys: Seq<(Bytes32, PublicKey)>, puzzle_hash: Bytes32) -> bool {
    exists|j: int| 0 <= j < keys.len() && (#[trigger] keys[j]).0 == puzzle_hash
}

/// Whether every listed key is the wallet's key for its puzzle hash, and none is listed twice.
pub open spec fn lists_own_keys<I: SpendInputs>(
    inputs: &I,
    keys: Seq<(Bytes32, PublicKey)>,
) -> bool {
    &&& forall|j: int|
        0 <= j < keys.len() ==> inputs.key_of((#[trigger] keys[j]).0) == Some(keys[j].1)
    &&& forall|j: int, k: int|
        0 <= j < k < keys.len() ==> (#[trigger] keys[j]).0 != (#[trigger] keys[k]).0
}

/// Whether keys are the wallet's own, for exactly the coins of an offer: every XCH coin by its
/// puzzle hash, every CAT coin by its inner puzzle hash.
pub open spec fn keys_of_coins<I: SpendInputs>(
    inputs: &I,
    keys: Seq<(Bytes32, PublicKey)>,
    xch: Seq<WalletCoin>,
    cats: Seq<WalletCat>,
) -> bool {
    &&& lists_own_keys(inputs, keys)
    &&& forall|i: int| 0 <= i < xch.len() ==> listed(keys, (#[trigger] xch[i]).puzzle_hash)
    &&& forall|i: int| 0 <= i < cats.len() ==> listed(keys, (#[trigger] cats[i]).p2_puzzle_hash)
    &&& forall|j: int|
        0 <= j < keys.len() ==> {
            ||| exists|i: int|
                0 <= i < xch.len() && (#[trigger] xch[i]).puzzle_hash == (#[trigger] keys[j]).0
            ||| exists|i: int| 0 <= i < cats.len() && (#[trigger] cats[i]).p2_puzzle_hash == keys[j].0
        }
}

/// Whether pools are the wallet's coins of CATs, one pool for each.
pub open spec fn pools_of<I: SpendInputs>(
    inputs: &I,
    identity: IdentityView,
    cats: Seq<(AssetId, Amount)>,
    pools: Seq<Seq<WalletCat>>,
) -> bool {
    &&& pools.len() == cats.len()
    &&& forall|i: int|
        0 <= i < cats.len() ==> inputs.cats_of(identity, cats[i].0@) == Ok::<
            Seq<WalletCat>,
            WalletErrorView,
        >(#[trigger] pools[i])
}

/// Whether the maker's side of an offer is what a maker offered: the XCH and each CAT, funded
/// from the wallet's own coins of just those assets, under its own keys, with change back to it.
pub open spec fn offers_what_was_offered<I: SpendInputs>(
    inputs: &I,
    identity: IdentityView,
    side: MakerSideView,
    offered: OfferedAssets,
    fee: u64,
) -> bool {
    &&& side.offer_xch == offered.xch.0
    &&& resolves_cats(side.offer_cats, offered.cats@)
    &&& side.offer_xch > 0 || side.offer_cats.len() > 0
    &&& inputs.change_of(identity) == Ok::<Bytes32, WalletErrorView>(side.change_puzzle_hash)
    &&& offered.xch.0 > 0 || fee > 0 ==> inputs.xch_coins(identity) == Ok::<
        Seq<WalletCoin>,
        WalletErrorView,
    >(side.xch_coins)
    &&& offered.xch.0 == 0 && fee == 0 ==> side.xch_coins.len() == 0
    &&& exists|pools: Seq<Seq<WalletCat>>| #[trigger]
        pools_of(inputs, identity, offered.cats@, pools) && side.cat_coins == pools.flatten()
    &&& keys_of_coins(inputs, side.owner_keys, side.xch_coins, side.cat_coins)
}

/// Whether output lines show one direction of a trade: the XCH, if there is any, and then each
/// CAT, all for one address.
pub open spec fn shows_assets(
    lines: Seq<SpendOutputView>,
    xch: u64,
    cats: Seq<(AssetId, Amount)>,
    address: Seq<char>,
) -> bool {
    let first: int = if xch > 0 {
        1
    } else {
        0
    };
    &&& lines.len() == first + cats.len()
    &&& xch > 0 ==> lines[0] == (SpendOutputView { address, amount: xch, asset_id: None })
    &&& forall|i: int|
        first <= i < lines.len() ==> #[trigger] lines[i] == (SpendOutputView {
            address,
            amount: cats[i - first].1.0,
            asset_id: Some(cats[i - first].0@),
        })
}

proof fn lemma_asked_cats(cats: Seq<(AssetId, Amount)>, n: nat)
    requires
        n <= cats.len(),
    ensures
        asked_cats(cats, n) matches Ok(legs) ==> resolves_cats(legs, cats.take(n as int)),
    decreases n,
{
    if n > 0 {
        lemma_asked_cats(cats, (n - 1) as nat);
        if let Ok(legs) = asked_cats(cats, n) {
            let front = asked_cats(cats, (n - 1) as nat)->Ok_0;
            let part = cats.take(n as int);
            assert forall|i: int| 0 <= i < n implies #[trigger] resolves_cat(legs[i], part[i]) by {
                if i < n - 1 {
                    assert(resolves_cat(front[i], cats.take(n - 1)[i]));
                }
            }
        }
    }
}

/// The keys of the first hashes, as [`keys_for`] lists them.
proof fn lemma_keys_for<I: SpendInputs>(inputs: &I, hashes: Seq<Bytes32>, n: nat)
    requires
        n <= hashes.len(),
    ensures
        keys_for(inputs, hashes, n) matches Ok(keys) ==> {
            &&& lists_own_keys(inputs, keys)
            &&& forall|i: int| 0 <= i < n ==> listed(keys, #[trigger] hashes[i])
            &&& forall|j: int|
                0 <= j < keys.len() ==> exists|i: int|
                    0 <= i < n && #[trigger] hashes[i] == (#[trigger] keys[j]).0
        },
    decreases n,
{
    if n > 0 {
        lemma_keys_for(inputs, hashes, (n - 1) as nat);
        if let Ok(keys) = keys_for(inputs, hashes, n) {
            let front = keys_for(inputs, hashes, (n - 1) as nat)->Ok_0;
            let last = hashes[n - 1];
            if has_owner(front, last) {
                let at = choose|i: int| 0 <= i < front.len() && (#[trigger] front[i]).0 == last;
                assert(keys[at].0 == last);
            } else {
                let key = inputs.key_of(last)->0;
                assert(keys == front.push((last, key)));
                assert(keys[front.len() as int].0 == last);
            }
            assert forall|i: int| 0 <= i < n implies listed(keys, #[trigger] hashes[i]) by {
                if i < n - 1 {
                    let j = choose|j: int|
                        0 <= j < front.len() && (#[trigger] front[j]).0 == hashes[i];
                    assert(keys[j] == front[j]);
                }
            }
            assert forall|j: int| 0 <= j < keys.len() implies exists|i: int|
                0 <= i < n && #[trigger] hashes[i] == (#[trigger] keys[j]).0 by {
                if j < front.len() {
                    assert(keys[j] == front[j]);
                    let i = choose|i: int| 0 <= i < n - 1 && #[trigger] hashes[i] == front[j].0;
                    assert(hashes[i] == keys[j].0);
                } else {
                    assert(hashes[n - 1] == keys[j].0);
                }
            }
        }
    }
}

proof fn lemma_keys_of_coins<I: SpendInputs>(
    inputs: &I,
    xch: Seq<WalletCoin>,
    cats: Seq<WalletCat>,
)
    ensures
        owner_keys_of(inputs, xch, cats) matches Ok(keys) ==> keys_of_coins(
            inputs,
            keys,
            xch,
            cats,
        ),
{
    if let Ok(keys) = owner_keys_of(inputs, xch, cats) {
        let hashes = owner_hashes(xch, cats);
        lemma_keys_for(inputs, hashes, hashes.len());
        assert forall|i: int| 0 <= i < xch.len() implies listed(
            keys,
            (#[trigger] xch[i]).puzzle_hash,
        ) by {
            assert(hashes[i] == xch[i].puzzle_hash);
        }
        assert forall|i: int| 0 <= i < cats.len() implies listed(
            keys,
            (#[trigger] cats[i]).p2_puzzle_hash,
        ) by {
            assert(hashes[xch.len() + i] == cats[i].p2_puzzle_hash);
        }
        assert forall|j: int| 0 <= j < keys.len() implies {
            ||| exists|i: int|
                0 <= i < xch.len() && (#[trigger] xch[i]).puzzle_hash == (#[trigger] keys[j]).0
            ||| exists|i: int| 0 <= i < cats.len() && (#[trigger] cats[i]).p2_puzzle_hash == keys[j].0
        } by {
            let i = choose|i: int| 0 <= i < hashes.len() && #[trigger] hashes[i] == keys[j].0;
            if i < xch.len() {
                assert(xch[i].puzzle_hash == keys[j].0);
            } else {
                assert(cats[i - xch.len()].p2_puzzle_hash == keys[j].0);
            }
        }
    }
}

proof fn lemma_offered<I: SpendInputs>(
    inputs: &I,
    identity: IdentityView,
    cats: Seq<(AssetId, Amount)>,
    n: nat,
)
    requires
        n <= cats.len(),
    ensures
        offered_cats(inputs, identity, cats, n) matches Ok((coins, legs)) ==> {
            &&& resolves_cats(legs, cats.take(n as int))
            &&& exists|pools: Seq<Seq<WalletCat>>| #[trigger]
                pools_of(inputs, identity, cats.take(n as int), pools) && coins == pools.flatten()
        },
    decreases n,
{
    if n > 0 {
        lemma_offered(inputs, identity, cats, (n - 1) as nat);
        if let Ok((coins, legs)) = offered_cats(inputs, identity, cats, n) {
            let (before, front) = offered_cats(inputs, identity, cats, (n - 1) as nat)->Ok_0;
            let part = cats.take(n as int);
            assert forall|i: int| 0 <= i < n implies #[trigger] resolves_cat(legs[i], part[i]) by {
                if i < n - 1 {
                    assert(resolves_cat(front[i], cats.take(n - 1)[i]));
                }
            }
            let pools = choose|pools: Seq<Seq<WalletCat>>| #[trigger]
                pools_of(inputs, identity, cats.take(n - 1), pools) && before == pools.flatten();
            let more = inputs.cats_of(identity, cats[n - 1].0@)->Ok_0;
            pools.lemma_flatten_push(more);
            let all = pools.push(more);
            assert forall|i: int| 0 <= i < n implies inputs.cats_of(
                identity,
                cats.take(n as int)[i].0@,
            ) == Ok::<Seq<WalletCat>, WalletErrorView>(#[trigger] all[i]) by {
                if i < n - 1 {
                    assert(all[i] == pools[i]);
                    assert(cats.take(n - 1)[i] == cats[i]);
                }
            }
            assert(pools_of(inputs, identity, cats.take(n as int), all));
        }
    } else if offered_cats(inputs, identity, cats, n) is Ok {
        let none = Seq::<Seq<WalletCat>>::empty();
        assert(pools_of(inputs, identity, cats.take(0), none));
        assert(none.flatten() =~= Seq::empty());
    }
}

proof fn lemma_trade_lines(xch: u64, cats: Seq<(AssetId, Amount)>, address: Seq<char>)
    ensures
        shows_assets(trade_lines(xch, cats, address), xch, cats, address),
{
}

/// A make hands the offer driver what the request says: the maker's side is what is offered, the
/// asked side is what is requested, with the payee that the request's address decodes to. The
/// summary shows both directions.
pub proof fn a_make_asks_what_was_requested<I: SpendInputs>(
    builder: &SdkSpendBuilder<I>,
    request: MakeOfferRequest,
)
    ensures
        make_outcome(builder, request) matches Ok((side, asked, unsigned)) ==> {
            &&& asks_what_was_requested(asked, request.requested)
            &&& offers_what_was_offered(
                &builder.inputs,
                request.identity@,
                side,
                request.offered,
                request.fee.0,
            )
            &&& made_spends(side, asked, request.fee.0) == Ok::<
                Seq<WalletSpendView>,
                OfferFaultView,
            >(unsigned.coin_spends)
            &&& shows_assets(
                unsigned.summary.outputs,
                request.offered.xch.0,
                request.offered.cats@,
                Seq::empty(),
            )
            &&& shows_assets(
                unsigned.summary.received,
                request.requested.xch.0,
                request.requested.cats@,
                request.requested.payee@,
            )
            &&& unsigned.summary.fee == request.fee.0
            &&& unsigned.summary.melted_singletons.len() == 0
            &&& unsigned.summary.nft_operations.len() == 0
            &&& lists_its_signatures(unsigned, builder.network)
        },
{
    if let Ok((side, asked, unsigned)) = make_outcome(builder, request) {
        let requested = request.requested.cats@;
        let offered = request.offered.cats@;
        lemma_asked_cats(requested, requested.len());
        assert(requested.take(requested.len() as int) =~= requested);
        lemma_offered(&builder.inputs, request.identity@, offered, offered.len());
        assert(offered.take(offered.len() as int) =~= offered);
        lemma_keys_of_coins(&builder.inputs, side.xch_coins, side.cat_coins);
        lemma_sealed(unsigned.coin_spends, builder.network, unsigned.summary);
        lemma_trade_lines(request.offered.xch.0, offered, Seq::empty());
        lemma_trade_lines(request.requested.xch.0, requested, request.requested.payee@);
    }
}

/// Whether CAT coins pay a leg of a take: coins of the asset out of a wallet's, namely those
/// whose ids belong to the largest coins that reach the amount within the cap.
pub open spec fn pays_leg(
    part: Seq<WalletCat>,
    wallet: Seq<WalletCat>,
    asset: Bytes32,
    need: u64,
    cap: nat,
) -> bool {
    exists|mine: Seq<WalletCat>, chosen: Seq<WalletCoin>|
        {
            &&& mine == wallet.filter(|c: WalletCat| c.asset_id == asset)
            &&& #[trigger] draws(chosen, coins_in(mine), need as nat, cap)
            &&& forall|c: WalletCat| #[trigger]
                part.contains(c) <==> mine.contains(c) && exists|i: int|
                    0 <= i < chosen.len() && id_of(#[trigger] chosen[i]) == id_of(c.coin)
        }
}

/// Whether CAT coins are those that pay the CAT cost of a take, leg by leg, each out of the
/// wallet's coins of its asset.
pub open spec fn pays_cost<I: SpendInputs>(
    inputs: &I,
    identity: IdentityView,
    cost: Seq<(Bytes32, u64)>,
    cap: nat,
    parts: Seq<Seq<WalletCat>>,
) -> bool {
    &&& parts.len() == cost.len()
    &&& forall|i: int|
        0 <= i < cost.len() ==> (inputs.cats_of(identity, hex_text((#[trigger] cost[i]).0@)) matches Ok(
            wallet,
        ) && pays_leg(parts[i], wallet, cost[i].0, cost[i].1, cap))
}

/// Whether output lines show payments, one line each: the payee's address, the amount and the
/// asset in hex.
pub open spec fn shows_payments(
    lines: Seq<SpendOutputView>,
    payments: Seq<AskedPayment>,
) -> bool {
    &&& lines.len() == payments.len()
    &&& forall|i: int| 0 <= i < payments.len() ==> #[trigger] shows_payment(lines[i], payments[i])
}

/// Whether an output line shows a payment.
pub open spec fn shows_payment(line: SpendOutputView, payment: AskedPayment) -> bool {
    &&& puzzle_hash_address(payment.puzzle_hash, "xch"@) == Ok::<Seq<char>, Seq<char>>(line.address)
    &&& line.amount == payment.amount
    &&& line.asset_id is Some <==> payment.asset_id is Some
    &&& payment.asset_id matches Some(asset) ==> line.asset_id == Some(hex_text(asset@))
}

proof fn lemma_pays_leg(wallet: Seq<WalletCat>, asset: Bytes32, need: u64, cap: nat)
    ensures
        chosen_cats(wallet, asset, need as nat, cap) matches Ok(part) ==> pays_leg(
            part,
            wallet,
            asset,
            need,
            cap,
        ),
{
    if let Ok(part) = chosen_cats(wallet, asset, need as nat, cap) {
        let mine = of_asset(wallet, asset);
        let label = "CAT "@ + hex_text(asset@) + " (take)"@;
        let chosen = chosen_coins(cat_coins(mine), need as nat, cap, label)->Ok_0;
        lemma_drawn(cat_coins(mine), need as nat, cap, label);
        assert(coins_in(mine) =~= cat_coins(mine));
        let pred = |c: WalletCat| is_chosen(chosen, id_of(c.coin));
        assert(part == mine.filter(pred));
        assert forall|c: WalletCat| #[trigger]
            part.contains(c) <==> mine.contains(c) && exists|i: int|
                0 <= i < chosen.len() && id_of(#[trigger] chosen[i]) == id_of(c.coin) by {
            if part.contains(c) {
                let i = choose|i: int| 0 <= i < part.len() && part[i] == c;
                mine.lemma_filter_pred(pred, i);
                mine.lemma_filter_contains_rev(pred, c);
            }
            if mine.contains(c) && is_chosen(chosen, id_of(c.coin)) {
                let i = choose|i: int| 0 <= i < mine.len() && mine[i] == c;
                assert(pred(mine[i]));
                mine.lemma_filter_contains(pred, i);
            }
        }
        assert(mine == wallet.filter(|c: WalletCat| c.asset_id == asset));
        assert(draws(chosen, coins_in(mine), need as nat, cap));
    }
}

proof fn lemma_funded<I: SpendInputs>(
    inputs: &I,
    identity: IdentityView,
    cost: Seq<(Bytes32, u64)>,
    cap: nat,
    n: nat,
)
    requires
        n <= cost.len(),
    ensures
        funded_cats(inputs, identity, cost, cap, n) matches Ok(cats) ==> exists|
            parts: Seq<Seq<WalletCat>>,
        | #[trigger]
            pays_cost(inputs, identity, cost.take(n as int), cap, parts) && cats == parts.flatten(),
    decreases n,
{
    if n > 0 {
        lemma_funded(inputs, identity, cost, cap, (n - 1) as nat);
        if let Ok(cats) = funded_cats(inputs, identity, cost, cap, n) {
            let before = funded_cats(inputs, identity, cost, cap, (n - 1) as nat)->Ok_0;
            let parts = choose|parts: Seq<Seq<WalletCat>>| #[trigger]
                pays_cost(inputs, identity, cost.take(n - 1), cap, parts) && before
                    == parts.flatten();
            let (asset, need) = cost[n - 1];
            let wallet = inputs.cats_of(identity, hex_text(asset@))->Ok_0;
            let more = chosen_cats(wallet, asset, need as nat, cap)->Ok_0;
            lemma_pays_leg(wallet, asset, need, cap);
            parts.lemma_flatten_push(more);
            let all = parts.push(more);
            let front = cost.take(n as int);
            assert forall|i: int| 0 <= i < n implies (inputs.cats_of(
                identity,
                hex_text((#[trigger] front[i]).0@),
            ) matches Ok(wallet) && pays_leg(all[i], wallet, front[i].0, front[i].1, cap)) by {
                if i < n - 1 {
                    assert(cost.take(n - 1)[i] == front[i]);
                    assert(all[i] == parts[i]);
                }
            }
            assert(pays_cost(inputs, identity, front, cap, all));
        }
    } else if funded_cats(inputs, identity, cost, cap, n) is Ok {
        let none = Seq::<Seq<WalletCat>>::empty();
        assert(pays_cost(inputs, identity, cost.take(0), cap, none));
        assert(none.flatten() =~= Seq::empty());
    }
}

proof fn lemma_payment_lines(payments: Seq<AskedPayment>, n: nat)
    requires
        n <= payments.len(),
    ensures
        payment_lines(payments, n) matches Ok(lines) ==> shows_payments(
            lines,
            payments.take(n as int),
        ),
    decreases n,
{
    if n > 0 {
        lemma_payment_lines(payments, (n - 1) as nat);
        if let Ok(lines) = payment_lines(payments, n) {
            let before = payment_lines(payments, (n - 1) as nat)->Ok_0;
            let front = payments.take(n as int);
            assert forall|i: int| 0 <= i < n implies #[trigger] shows_payment(lines[i], front[i]) by {
                if i < n - 1 {
                    assert(shows_payment(before[i], payments.take(n - 1)[i]));
                }
            }
        }
    }
}

/// Whether the taker's side of a take pays what an offer costs, and the fee: the XCH and each CAT
/// out of the wallet's own coins, under its own keys, with change back to it.
pub open spec fn funds_a_take<I: SpendInputs>(
    builder: &SdkSpendBuilder<I>,
    identity: IdentityView,
    funds: TakerSideView,
    cost_xch: u64,
    cost_cats: Seq<(Bytes32, u64)>,
    fee: u64,
) -> bool {
    &&& builder.inputs.change_of(identity) == Ok::<Bytes32, WalletErrorView>(
        funds.change_puzzle_hash,
    )
    &&& cost_xch == 0 && fee == 0 ==> funds.xch_coins.len() == 0
    &&& cost_xch > 0 || fee > 0 ==> (builder.inputs.xch_coins(identity) matches Ok(coins) && draws(
        funds.xch_coins,
        coins,
        if cost_xch + fee <= u64::MAX {
            (cost_xch + fee) as nat
        } else {
            u64::MAX as nat
        },
        builder.coin_cap as nat,
    ))
    &&& exists|parts: Seq<Seq<WalletCat>>| #[trigger]
        pays_cost(&builder.inputs, identity, cost_cats, builder.coin_cap as nat, parts)
            && funds.cat_coins == parts.flatten()
    &&& keys_of_coins(&builder.inputs, funds.owner_keys, funds.xch_coins, funds.cat_coins)
}

/// A take pays what the offer costs: the offer driver gets that very offer, coins of the wallet
/// for its cost and the fee, and the change address; what it writes is what is to be signed, and
/// every payment that the offer asks for is shown.
pub proof fn a_take_pays_what_the_offer_costs<I: SpendInputs>(
    builder: &SdkSpendBuilder<I>,
    request: TakeOfferRequest,
)
    ensures
        take_outcome(builder, request) matches Ok(unsigned) ==> {
            &&& facts_of(request.offer@) matches Ok(facts)
            &&& exists|funds: TakerSideView, plan: TakePlanView|
                {
                    &&& #[trigger] funds_a_take(
                        builder,
                        request.identity@,
                        funds,
                        facts.cost_xch,
                        facts.cost_cats,
                        request.fee.0,
                    )
                    &&& taken_plan(request.offer@, funds, request.fee.0) == Ok::<
                        TakePlanView,
                        OfferFaultView,
                    >(plan)
                    &&& unsigned.coin_spends == plan.coin_spends
                    &&& #[trigger] shows_payments(unsigned.summary.outputs, plan.payments)
                }
            &&& shows(unsigned.summary, unsigned.summary.outputs, request.fee.0)
            &&& lists_its_signatures(unsigned, builder.network)
        },
{
    if let Ok(unsigned) = take_outcome(builder, request) {
        let facts = facts_of(request.offer@)->Ok_0;
        let cap = builder.coin_cap as nat;
        let fee = request.fee.0;
        let funds = taker_funds_of(builder, request)->Ok_0;
        let plan = taken_plan(request.offer@, funds, fee)->Ok_0;
        let target = saturating(facts.cost_xch, fee);
        if target > 0 {
            let coins = builder.inputs.xch_coins(request.identity@)->Ok_0;
            lemma_drawn(coins, target, cap, "XCH (take)"@);
        }
        lemma_funded(
            &builder.inputs,
            request.identity@,
            facts.cost_cats,
            cap,
            facts.cost_cats.len(),
        );
        assert(facts.cost_cats.take(facts.cost_cats.len() as int) =~= facts.cost_cats);
        lemma_keys_of_coins(&builder.inputs, funds.xch_coins, funds.cat_coins);
        lemma_payment_lines(plan.payments, plan.payments.len());
        assert(plan.payments.take(plan.payments.len() as int) =~= plan.payments);
        lemma_sealed(unsigned.coin_spends, builder.network, unsigned.summary);
        assert(funds_a_take(
            builder,
            request.identity@,
            funds,
            facts.cost_xch,
            facts.cost_cats,
            fee,
        ));
        assert(shows_payments(unsigned.summary.outputs, plan.payments));
    }
}

/// Whether keys are those that the wallet holds for the coins of spends.
pub open spec fn keys_of_spends<I: SpendInputs>(
    inputs: &I,
    keys: Seq<(Bytes32, PublicKey)>,
    spends: Seq<WalletSpendView>,
) -> bool {
    &&& lists_own_keys(inputs, keys)
    &&& forall|i: int|
        0 <= i < spends.len() && inputs.key_of((#[trigger] spends[i]).coin.puzzle_hash) is Some
            ==> listed(keys, spends[i].coin.puzzle_hash)
    &&& forall|j: int|
        0 <= j < keys.len() ==> exists|i: int|
            0 <= i < spends.len() && (#[trigger] spends[i]).coin.puzzle_hash == (
            #[trigger] keys[j]).0
}

pub proof fn lemma_known_keys<I: SpendInputs>(inputs: &I, spends: Seq<WalletSpendView>, n: nat)
    requires
        n <= spends.len(),
    ensures
        keys_of_spends(inputs, known_keys(inputs, spends, n), spends.take(n as int)),
    decreases n,
{
    if n > 0 {
        lemma_known_keys(inputs, spends, (n - 1) as nat);
        let before = known_keys(inputs, spends, (n - 1) as nat);
        let keys = known_keys(inputs, spends, n);
        let hash = spends[n - 1].coin.puzzle_hash;
        let front = spends.take(n as int);
        let less = spends.take(n - 1);
        assert(front[n - 1] == spends[n - 1]);
        if let Some(key) = inputs.key_of(hash) {
            if has_owner(before, hash) {
                assert(keys =~= before);
            } else {
                assert(keys == before.push((hash, key)));
                assert(keys[before.len() as int].0 == hash);
            }
        }
        assert(keys.len() >= before.len());
        assert(forall|j: int| 0 <= j < before.len() ==> #[trigger] keys[j] == before[j]);
        assert forall|i: int|
            0 <= i < front.len() && inputs.key_of((#[trigger] front[i]).coin.puzzle_hash) is Some
            implies listed(keys, front[i].coin.puzzle_hash) by {
            if i < n - 1 {
                assert(less[i] == front[i]);
                let j = choose|j: int|
                    0 <= j < before.len() && (#[trigger] before[j]).0 == front[i].coin.puzzle_hash;
                assert(keys[j] == before[j]);
            } else if has_owner(before, hash) {
                let j = choose|j: int| 0 <= j < before.len() && (#[trigger] before[j]).0 == hash;
                assert(keys[j] == before[j]);
            }
        }
        assert forall|j: int| 0 <= j < keys.len() implies exists|i: int|
            0 <= i < front.len() && (#[trigger] front[i]).coin.puzzle_hash == (
            #[trigger] keys[j]).0 by {
            if j < before.len() {
                assert(keys[j] == before[j]);
                let i = choose|i: int|
                    0 <= i < less.len() && (#[trigger] less[i]).coin.puzzle_hash == before[j].0;
                assert(front[i] == less[i]);
            } else {
                assert(front[n - 1].coin.puzzle_hash == keys[j].0);
            }
        }
    }
}

/// A cancel reclaims the coins of that very offer to the wallet, under the keys that the wallet
/// holds for them, of which there is at least one. It pays nobody.
pub proof fn a_cancel_reclaims_the_offer<I: SpendInputs>(
    builder: &SdkSpendBuilder<I>,
    request: CancelOfferRequest,
)
    ensures
        cancel_outcome(builder, request) matches Ok(unsigned) ==> {
            &&& builder.inputs.change_of(request.identity@) matches Ok(reclaim)
            &&& decoded_spends(request.offer@) matches Ok(spends)
            &&& exists|keys: Seq<(Bytes32, PublicKey)>|
                {
                    &&& #[trigger] keys_of_spends(&builder.inputs, keys, spends)
                    &&& keys.len() > 0
                    &&& cancelled_spends(request.offer@, reclaim, keys, request.fee.0) == Ok::<
                        Seq<WalletSpendView>,
                        OfferFaultView,
                    >(unsigned.coin_spends)
                }
            &&& shows(unsigned.summary, Seq::empty(), request.fee.0)
            &&& lists_its_signatures(unsigned, builder.network)
        },
{
    if let Ok(unsigned) = cancel_outcome(builder, request) {
        let spends = decoded_spends(request.offer@)->Ok_0;
        lemma_known_keys(&builder.inputs, spends, spends.len());
        assert(spends.take(spends.len() as int) =~= spends);
        lemma_sealed(unsigned.coin_spends, builder.network, unsigned.summary);
        assert(keys_of_spends(
            &builder.inputs,
            known_keys(&builder.inputs, spends, spends.len()),
            spends,
        ));
    }
}

/// Only the maker of an offer can cancel it: a wallet that holds no key for any of its coins is
/// refused.
pub proof fn only_the_maker_cancels<I: SpendInputs>(
    builder: &SdkSpendBuilder<I>,
    request: CancelOfferRequest,
)
    requires
        decoded_spends(request.offer@) matches Ok(spends) ==> forall|i: int|
            0 <= i < spends.len() ==> builder.inputs.key_of(
                (#[trigger] spends[i]).coin.puzzle_hash,
            ) is None,
    ensures
        cancel_outcome(builder, request) is Err,
{
    a_cancel_reclaims_the_offer(builder, request);
    if cancel_outcome(builder, request) is Ok {
        let spends = decoded_spends(request.offer@)->Ok_0;
        let keys = choose|keys: Seq<(Bytes32, PublicKey)>|
            {
                &&& #[trigger] keys_of_spends(&builder.inputs, keys, spends)
                &&& keys.len() > 0
            };
        assert(builder.inputs.key_of(keys[0].0) is Some);
    }
}

/// Whether an asset of a review summary is a leg of an offer.
pub open spec fn shows_leg(shown: SummaryAssetView, leg: LegAsset) -> bool {
    match shown {
        SummaryAssetView::Xch { amount } => leg == LegAsset::Xch(amount),
        SummaryAssetView::Cat { asset_id, amount } => leg matches LegAsset::Cat {
            asset_id: asset,
            amount: held,
        } && asset_id == hex_text(asset@) && amount == held,
        SummaryAssetView::Nft { launcher_id } => leg matches LegAsset::Nft { launcher_id: launcher }
            && launcher_id == hex_text(launcher@),
    }
}

/// Whether a list of a review summary shows legs, one by one.
pub open spec fn shows_each_leg(shown: Seq<SummaryAssetView>, legs: Seq<LegAsset>) -> bool {
    &&& shown.len() == legs.len()
    &&& forall|i: int| 0 <= i < legs.len() ==> #[trigger] shows_leg(shown[i], legs[i])
}

/// Whether a list of a review summary shows what a taker has to fund: the XCH, if there is any,
/// and then each CAT.
pub open spec fn shows_cost(
    shown: Seq<SummaryAssetView>,
    xch: u64,
    cats: Seq<(Bytes32, u64)>,
) -> bool {
    let first: int = if xch > 0 {
        1
    } else {
        0
    };
    &&& shown.len() == first + cats.len()
    &&& xch > 0 ==> shown[0] == (SummaryAssetView::Xch { amount: xch })
    &&& forall|i: int|
        first <= i < shown.len() ==> #[trigger] shown[i] == (SummaryAssetView::Cat {
            asset_id: hex_text(cats[i - first].0@),
            amount: cats[i - first].1,
        })
}

/// A review summary shows the offer's own id, what it gives, what it asks for, what a taker funds
/// and its royalties, each on its own side.
pub proof fn a_summary_shows_the_offer(offer: Seq<char>)
    ensures
        summary_outcome(offer) matches Ok(summary) ==> {
            &&& facts_of(offer) matches Ok(facts)
            &&& id_of_offer(offer) matches Ok(id)
            &&& summary.offer_id == hex_text(id@)
            &&& shows_each_leg(summary.offered, facts.offered)
            &&& shows_each_leg(summary.requested, facts.requested)
            &&& shows_cost(summary.arbitrage, facts.cost_xch, facts.cost_cats)
            &&& summary.royalties.len() == facts.royalties.len()
            &&& forall|i: int|
                0 <= i < facts.royalties.len() ==> (#[trigger] summary.royalties[i]) == (
                    hex_text(facts.royalties[i].0@),
                    facts.royalties[i].1,
                )
        },
        facts_of(offer) is Ok && id_of_offer(offer) is Ok ==> summary_outcome(offer) is Ok,
{
}

/// An offer text is handed out unchanged, with its own id.
pub proof fn an_offer_text_carries_its_id(offer: Seq<char>)
    ensures
        with_id(offer) matches Ok((text, shown)) ==> {
            &&& text == offer
            &&& id_of_offer(offer) matches Ok(id)
            &&& shown == hex_text(id@)
        },
        id_of_offer(offer) is Ok ==> with_id(offer) is Ok,
{
}

/// What the caller got wrong is told apart from what a driver failed at: a text that is no offer
/// and offers that do not go together are bad input, a driver's or signer's fault is a failed
/// spend, and no fault is any other class of error than these or a want of funds.
pub proof fn offer_faults_are_classed(fault: OfferFaultView)
    ensures
        fault is Decode || fault is Incompatible ==> offer_error(fault).code
            == WalletErrorCode::InvalidInput,
        fault is Driver || fault is Signer ==> offer_error(fault).code
            == WalletErrorCode::SpendValidationFailed,
        fault matches OfferFaultView::InvalidInput(message) ==> {
            &&& offer_error(fault).message == message
            &&& offer_error(fault).code == WalletErrorCode::InsufficientFunds
                || offer_error(fault).code == WalletErrorCode::InvalidInput
        },
        fault matches OfferFaultView::Incompatible(message) ==> offer_error(fault).message
            == message,
{
}

/// Whether a leg of an offer request carries value of an asset that can be read.
pub open spec fn leg_is_sound(leg: OfferLeg) -> bool {
    match leg {
        OfferLeg::Xch { amount } => amount.0 > 0,
        OfferLeg::Cat { asset_id, amount } => amount.0 > 0 && is_hex(asset_id@) && hex_bytes(
            asset_id@,
        ).len() == 32,
    }
}

/// Whether a side of an offer request has a leg, and only sound ones.
pub open spec fn side_is_sound(legs: Seq<OfferLeg>) -> bool {
    legs.len() > 0 && forall|i: int| 0 <= i < legs.len() ==> leg_is_sound(#[trigger] legs[i])
}

proof fn lemma_side(legs: Seq<OfferLeg>, side: Seq<char>, n: nat)
    requires
        n <= legs.len(),
    ensures
        first_leg_fault(legs, side, n) is None <==> forall|i: int|
            0 <= i < n ==> leg_is_sound(#[trigger] legs[i]),
        first_leg_fault(legs, side, n) matches Some(error) ==> error.code
            == WalletErrorCode::InvalidInput,
    decreases n,
{
    if n > 0 {
        lemma_side(legs, side, (n - 1) as nat);
        assert(leg_is_sound(legs[n - 1]) <==> leg_fault(legs[n - 1], side) is None);
    }
}

/// Leg-based offer requests are only checked: a sound one is answered as not implemented, any
/// other one as bad input. A make is sound if both of its sides are and its payee is a puzzle hash;
/// a take, if its text is an offer; a cancel, if its text is an offer and coins can be reclaimed to
/// a puzzle hash.
pub proof fn leg_requests_are_only_checked(
    make: LegMakeRequest,
    take: LegTakeRequest,
    cancel: LegCancelRequest,
)
    ensures
        make_answer(make).code == if side_is_sound(make.offered@) && side_is_sound(make.requested@)
            && is_hex(make.payee_puzzle_hash@) && hex_bytes(make.payee_puzzle_hash@).len() == 32 {
            WalletErrorCode::NotImplemented
        } else {
            WalletErrorCode::InvalidInput
        },
        take_answer(take).code == if decoded_spends(take.offer@) is Ok {
            WalletErrorCode::NotImplemented
        } else {
            WalletErrorCode::InvalidInput
        },
        cancel_answer(cancel).code == if decoded_spends(cancel.offer@) is Ok && is_hex(
            cancel.reclaim_puzzle_hash@,
        ) && hex_bytes(cancel.reclaim_puzzle_hash@).len() == 32 {
            WalletErrorCode::NotImplemented
        } else {
            WalletErrorCode::InvalidInput
        },
{
    lemma_side(make.offered@, "offered"@, make.offered@.len());
    lemma_side(make.requested@, "requested"@, make.requested@.len());
}

} // verus!
