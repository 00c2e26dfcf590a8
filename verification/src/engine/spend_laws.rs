//! What a built send does, stated of the conditions that its coins carry.
//!
//! Each law reads a finished build backwards: from the spends that it holds to the coins that were
//! drawn, the conditions that the lead coin emits, the puzzle hashes that are paid and the amounts
//! that they get. A recipient is the puzzle hash that the request's address decodes to, and
//! nothing else.

use vstd::prelude::*;
use vstd::string::*;

use super::build_extended::{
    combine_conditions, combine_outcome, destinations_of, largest_of, merged_fits,
    multi_send_cat_outcome, multi_send_xch_outcome, part_amount, part_conditions, split_conditions,
    split_outcome, a_combine_conserves_value, a_multi_send_pays_every_leg, a_split_keeps_every_mojo,
    the_largest_coin_is_split,
};
use super::builder::{
    a_cat_payment_conserves_value, a_fee_payment_conserves_value, a_payment_conserves_value,
    all_bls, bls_only, carried, cat_fits, change_condition, chosen_coins, created_total, domain_of,
    fee_condition, fee_conditions, fee_spends, group_spends, lemma_selection_fits, paid_out,
    pay_cat, pay_xch, payment, payment_conditions, ring_inputs, ring_spends, sealed, sealed_payment,
    send_cat_outcome, send_xch_outcome, xch_fits, SdkSpendBuilder, SpendInputs,
};
use super::driver::{
    address_puzzle_hash, cat_ring_of, mainnet_domain, puzzle_hash_address, signatures_needed,
    standard_spend_of, testnet_domain, CatInputView, Condition, ExtractedSignatureView,
};
use super::selection::{
    a_selection_is_minimal, at_most, consolidation_of, high_value_first, high_value_first_is_ranked,
    is_ranked, lemma_needed_count, lemma_total_of_permutation, lemma_total_without, needed_count,
    ranks_before, selection_of, SelectionView,
};
use crate::text::{bytes_before, hex_bytes, is_hex};
use crate::types::chain::{
    bytes32, cat_coins, id_of, lemma_bytes32_view, total_of_coins, Bytes32, WalletCat, WalletCoin,
    WalletSpendView,
};
use crate::types::error::{WalletErrorCode, WalletErrorView};
use crate::types::identity::IdentityView;
use crate::types::request::{
    CombineXchRequest, MultiSendCatRequest, MultiSendXchRequest, SendCatRequest, SendLeg,
    SendXchRequest, SplitXchRequest,
};
use crate::types::spend::UnsignedSpendView;
use crate::types::value::{plain_summary, Network, SpendOutputView, SummaryView};

verus! {

/// What coins are worth together.
pub open spec fn worth(coins: Seq<WalletCoin>) -> nat
    decreases coins.len(),
{
    if coins.len() == 0 {
        0
    } else {
        worth(coins.drop_last()) + coins.last().amount as nat
    }
}

/// The coins that CATs are, in order.
pub open spec fn coins_in(cats: Seq<WalletCat>) -> Seq<WalletCoin> {
    Seq::new(cats.len(), |i: int| cats[i].coin)
}

/// What the coins that conditions create are worth together.
pub open spec fn value_created(conditions: Seq<Condition>) -> nat
    decreases conditions.len(),
{
    if conditions.len() == 0 {
        0
    } else {
        value_created(conditions.drop_last()) + match conditions.last() {
            Condition::CreateCoin { amount, .. } => amount as nat,
            _ => 0,
        }
    }
}

/// Whether a summary shows some output lines and a fee, and nothing else.
pub open spec fn shows(summary: SummaryView, outputs: Seq<SpendOutputView>, fee: u64) -> bool {
    &&& summary.outputs == outputs
    &&& summary.received.len() == 0
    &&& summary.fee == fee
    &&& summary.melted_singletons.len() == 0
    &&& summary.nft_operations.len() == 0
}

/// Whether a text spells a hash in hex.
pub open spec fn spells(text: Seq<char>, hash: Bytes32) -> bool {
    &&& is_hex(text)
    &&& hex_bytes(text).len() == 32
    &&& hash == bytes32(hex_bytes(text))
}

/// Whether a summary shows one payment to a puzzle hash, by its `xch1…` address, and a fee, and
/// nothing else.
pub open spec fn shows_one_payment(
    summary: SummaryView,
    recipient: Bytes32,
    amount: u64,
    asset_id: Option<Seq<char>>,
    fee: u64,
) -> bool {
    &&& puzzle_hash_address(recipient, "xch"@) matches Ok(address)
    &&& shows(summary, seq![SpendOutputView { address, amount, asset_id }], fee)
}

/// Whether a build lists exactly the signatures that its spends need under the network's own
/// domain, all of them BLS and at least one.
pub open spec fn lists_its_signatures(unsigned: UnsignedSpendView, network: Network) -> bool {
    &&& unsigned.coin_spends.len() > 0
    &&& unsigned.required_signatures.len() > 0
    &&& signatures_needed(
        unsigned.coin_spends,
        if network == Network::Mainnet {
            mainnet_domain()
        } else {
            testnet_domain()
        },
    ) matches Ok(found)
    &&& found.len() == unsigned.required_signatures.len()
    &&& forall|i: int|
        0 <= i < found.len() ==> (#[trigger] found[i]) == ExtractedSignatureView::Bls(
            unsigned.required_signatures[i],
        )
}

/// Whether spends are those of coins under the wallet's own keys: the lead coin with some
/// conditions, every other one with nothing but that the lead coin is spent with it.
pub open spec fn spends_together<I: SpendInputs>(
    inputs: &I,
    coins: Seq<WalletCoin>,
    lead: Seq<Condition>,
    spends: Seq<WalletSpendView>,
) -> bool {
    &&& coins.len() > 0
    &&& spends.len() == coins.len()
    &&& forall|i: int|
        0 <= i < coins.len() ==> (inputs.key_of((#[trigger] coins[i]).puzzle_hash) matches Some(key)
            && standard_spend_of(
            key,
            coins[i],
            if i == 0 {
                lead
            } else {
                seq![Condition::AssertConcurrentSpend { coin_id: id_of(coins[0]) }]
            },
        ) == Ok::<WalletSpendView, super::driver::DriverFaultView>(spends[i]))
}

/// Whether spends are those of a ring of CAT coins under the wallet's own keys, of which only the
/// first carries conditions.
pub open spec fn spends_as_ring<I: SpendInputs>(
    inputs: &I,
    cats: Seq<WalletCat>,
    lead: Seq<Condition>,
    ring: Seq<CatInputView>,
    spends: Seq<WalletSpendView>,
) -> bool {
    &&& cats.len() > 0
    &&& ring.len() == cats.len()
    &&& forall|i: int|
        0 <= i < cats.len() ==> {
            &&& (#[trigger] ring[i]).cat == cats[i]
            &&& inputs.key_of(cats[i].p2_puzzle_hash) == Some(ring[i].key)
            &&& i == 0 ==> ring[i].conditions == lead
            &&& i > 0 ==> ring[i].conditions.len() == 0
        }
    &&& cat_ring_of(ring) == Ok::<Seq<WalletSpendView>, super::driver::DriverFaultView>(spends)
}

/// Whether conditions pay some puzzle hashes, in order, each hinted to itself, create nothing
/// else but one coin back to the wallet, and reserve the fee if there is one.
pub open spec fn pays(
    lead: Seq<Condition>,
    payments: Seq<(Bytes32, u64)>,
    change_ph: Bytes32,
    fee: u64,
) -> bool {
    &&& payments.len() <= lead.len() <= payments.len() + 2
    &&& forall|i: int|
        0 <= i < payments.len() ==> #[trigger] lead[i] == (Condition::CreateCoin {
            puzzle_hash: payments[i].0,
            amount: payments[i].1,
            hint: Some(payments[i].0),
        })
    &&& forall|i: int|
        payments.len() <= i < lead.len() ==> match #[trigger] lead[i] {
            Condition::CreateCoin { puzzle_hash, amount, hint } => i == payments.len()
                && puzzle_hash == change_ph && amount > 0 && hint is None,
            Condition::ReserveFee { amount } => i == lead.len() - 1 && amount == fee && fee > 0,
            Condition::AssertConcurrentSpend { .. } => false,
        }
    &&& fee > 0 ==> lead.len() > 0 && lead.last() == (Condition::ReserveFee { amount: fee })
}

/// Whether conditions reserve a fee, hold only with a partner coin, and create nothing but one
/// coin back to the wallet.
pub open spec fn pays_only_a_fee(
    lead: Seq<Condition>,
    fee: u64,
    partner: Bytes32,
    change_ph: Bytes32,
) -> bool {
    &&& 2 <= lead.len() <= 3
    &&& lead[0] == (Condition::ReserveFee { amount: fee })
    &&& lead[1] == (Condition::AssertConcurrentSpend { coin_id: partner })
    &&& lead.len() == 3 ==> (lead[2] matches Condition::CreateCoin { puzzle_hash, amount, hint }
        && puzzle_hash == change_ph && amount > 0 && hint is None)
}

/// What payments come to together.
pub open spec fn value_paid(payments: Seq<(Bytes32, u64)>) -> nat
    decreases payments.len(),
{
    if payments.len() == 0 {
        0
    } else {
        value_paid(payments.drop_last()) + payments.last().1 as nat
    }
}

/// Whether coins are some of a wallet's coins, and no coin that is left out holds more than one of
/// them.
pub open spec fn takes_the_largest(chosen: Seq<WalletCoin>, coins: Seq<WalletCoin>) -> bool {
    &&& chosen.to_multiset().subset_of(coins.to_multiset())
    &&& forall|i: int, j: int|
        0 <= i < chosen.len() && 0 <= j < coins.len() && chosen.to_multiset().count(coins[j])
            < coins.to_multiset().count(coins[j]) ==> (#[trigger] chosen[i]).amount >= (
        #[trigger] coins[j]).amount
}

/// Whether coins are a wallet's largest, within a cap, reach a target, and would not without the
/// last of them.
pub open spec fn draws(
    chosen: Seq<WalletCoin>,
    coins: Seq<WalletCoin>,
    target: nat,
    cap: nat,
) -> bool {
    &&& takes_the_largest(chosen, coins)
    &&& chosen.len() <= cap
    &&& worth(chosen) >= target
    &&& chosen.len() > 0 ==> worth(chosen.drop_last()) < target
}

/// Whether spends pay puzzle hashes in XCH from a wallet: from its own coins, with what is left
/// over back to it, and with nothing lost.
pub open spec fn pays_in_xch<I: SpendInputs>(
    builder: &SdkSpendBuilder<I>,
    identity: IdentityView,
    payments: Seq<(Bytes32, u64)>,
    fee: u64,
    spends: Seq<WalletSpendView>,
) -> bool {
    exists|coins: Seq<WalletCoin>, change_ph: Bytes32, chosen: Seq<WalletCoin>, lead: Seq<Condition>|
        {
            &&& builder.inputs.xch_coins(identity) == Ok::<Seq<WalletCoin>, WalletErrorView>(coins)
            &&& builder.inputs.change_of(identity) == Ok::<Bytes32, WalletErrorView>(change_ph)
            &&& #[trigger] draws(
                chosen,
                coins,
                value_paid(payments) + fee as nat,
                builder.coin_cap as nat,
            )
            &&& #[trigger] spends_together(&builder.inputs, chosen, lead, spends)
            &&& #[trigger] pays(lead, payments, change_ph, fee)
            &&& value_created(lead) + fee == worth(chosen)
        }
}

/// Whether spends pay puzzle hashes in a CAT from a wallet: all of its coins of the asset as one
/// ring, with what is left over back to it, and the fee from its XCH tied to that ring.
pub open spec fn pays_in_cat<I: SpendInputs>(
    builder: &SdkSpendBuilder<I>,
    identity: IdentityView,
    asset_id: Seq<char>,
    payments: Seq<(Bytes32, u64)>,
    fee: u64,
    spends: Seq<WalletSpendView>,
) -> bool {
    exists|
        cats: Seq<WalletCat>,
        change_ph: Bytes32,
        lead: Seq<Condition>,
        ring: Seq<CatInputView>,
        first: Seq<WalletSpendView>,
        rest: Seq<WalletSpendView>,
    |
        {
            &&& builder.inputs.cats_of(identity, asset_id) == Ok::<Seq<WalletCat>, WalletErrorView>(
                cats,
            )
            &&& builder.inputs.change_of(identity) == Ok::<Bytes32, WalletErrorView>(change_ph)
            &&& #[trigger] spends_as_ring(&builder.inputs, cats, lead, ring, first)
            &&& #[trigger] pays(lead, payments, change_ph, 0)
            &&& value_created(lead) == worth(coins_in(cats))
            &&& spends == #[trigger] (first + rest)
            &&& fee == 0 ==> rest.len() == 0
            &&& fee > 0 ==> pays_fee_beside(
                builder,
                identity,
                fee,
                id_of(cats[0].coin),
                change_ph,
                rest,
            )
        }
}

/// Whether spends pay a fee from a wallet's XCH, tied to a partner coin.
pub open spec fn pays_fee_beside<I: SpendInputs>(
    builder: &SdkSpendBuilder<I>,
    identity: IdentityView,
    fee: u64,
    partner: Bytes32,
    change_ph: Bytes32,
    spends: Seq<WalletSpendView>,
) -> bool {
    exists|coins: Seq<WalletCoin>, chosen: Seq<WalletCoin>, lead: Seq<Condition>|
        {
            &&& builder.inputs.xch_coins(identity) == Ok::<Seq<WalletCoin>, WalletErrorView>(coins)
            &&& #[trigger] draws(chosen, coins, fee as nat, builder.coin_cap as nat)
            &&& #[trigger] spends_together(&builder.inputs, chosen, lead, spends)
            &&& pays_only_a_fee(lead, fee, partner, change_ph)
            &&& value_created(lead) + fee == worth(chosen)
        }
}

pub proof fn lemma_worth(coins: Seq<WalletCoin>)
    ensures
        worth(coins) == total_of_coins(coins),
    decreases coins.len(),
{
    if coins.len() > 0 {
        lemma_worth(coins.drop_last());
    }
}

proof fn lemma_value_created(conditions: Seq<Condition>)
    ensures
        value_created(conditions) == created_total(conditions),
    decreases conditions.len(),
{
    if conditions.len() > 0 {
        lemma_value_created(conditions.drop_last());
    }
}

proof fn lemma_value_paid(payments: Seq<(Bytes32, u64)>)
    ensures
        value_paid(payments) == paid_out(payments),
    decreases payments.len(),
{
    if payments.len() > 0 {
        lemma_value_paid(payments.drop_last());
    }
}

proof fn lemma_takes_the_largest(coins: Seq<WalletCoin>, k: int)
    requires
        0 <= k <= coins.len(),
    ensures
        takes_the_largest(high_value_first(coins).take(k), coins),
{
    broadcast use vstd::seq_lib::group_to_multiset_ensures;

    high_value_first_is_ranked(coins);
    let ordered = high_value_first(coins);
    let chosen = ordered.take(k);
    let rest = ordered.skip(k);
    assert(chosen + rest =~= ordered);
    vstd::seq_lib::lemma_multiset_commutative(chosen, rest);
    assert forall|i: int, j: int|
        0 <= i < chosen.len() && 0 <= j < coins.len() && chosen.to_multiset().count(coins[j])
            < coins.to_multiset().count(coins[j]) implies (#[trigger] chosen[i]).amount >= (
    #[trigger] coins[j]).amount by {
        assert(rest.to_multiset().count(coins[j]) > 0);
        assert(rest.contains(coins[j]));
        let m = choose|m: int| 0 <= m < rest.len() && rest[m] == coins[j];
        assert(ordered[i] == chosen[i]);
        assert(ordered[k + m] == coins[j]);
    }
}

proof fn lemma_group<I: SpendInputs>(
    inputs: &I,
    coins: Seq<WalletCoin>,
    lead: Seq<Condition>,
    n: nat,
)
    requires
        n <= coins.len(),
    ensures
        group_spends(inputs, coins, lead, n) matches Ok(spends) ==> spends.len() == n && forall|
            i: int,
        |
            0 <= i < n ==> (inputs.key_of((#[trigger] coins[i]).puzzle_hash) matches Some(key)
                && standard_spend_of(key, coins[i], carried(coins, lead, i)) == Ok::<
                WalletSpendView,
                super::driver::DriverFaultView,
            >(spends[i])),
    decreases n,
{
    if n > 0 {
        lemma_group(inputs, coins, lead, (n - 1) as nat);
        if let Ok(spends) = group_spends(inputs, coins, lead, n) {
            let front = group_spends(inputs, coins, lead, (n - 1) as nat)->Ok_0;
            assert forall|i: int| 0 <= i < n implies (inputs.key_of(
                (#[trigger] coins[i]).puzzle_hash,
            ) matches Some(key) && standard_spend_of(key, coins[i], carried(coins, lead, i)) == Ok::<
                WalletSpendView,
                super::driver::DriverFaultView,
            >(spends[i])) by {
                if i < n - 1 {
                    assert(spends[i] == front[i]);
                }
            }
        }
    }
}

proof fn lemma_together<I: SpendInputs>(
    inputs: &I,
    coins: Seq<WalletCoin>,
    lead: Seq<Condition>,
    spends: Seq<WalletSpendView>,
)
    requires
        coins.len() > 0,
        group_spends(inputs, coins, lead, coins.len()) == Ok::<Seq<WalletSpendView>, WalletErrorView>(
            spends,
        ),
    ensures
        spends_together(inputs, coins, lead, spends),
{
    lemma_group(inputs, coins, lead, coins.len());
}

proof fn lemma_pays(
    destinations: Seq<(Bytes32, u64)>,
    change_ph: Bytes32,
    change: int,
    fee: u64,
)
    requires
        0 <= change <= u64::MAX,
    ensures
        pays(
            payment_conditions(destinations, change_ph, change, fee),
            destinations,
            change_ph,
            fee,
        ),
{
    let lead = payment_conditions(destinations, change_ph, change, fee);
    let payments = destinations.map_values(|d: (Bytes32, u64)| payment(d));
    let n = payments.len() as int;
    assert(payments.len() == destinations.len());
    assert forall|i: int| 0 <= i < destinations.len() implies #[trigger] lead[i] == (
    Condition::CreateCoin {
        puzzle_hash: destinations[i].0,
        amount: destinations[i].1,
        hint: Some(destinations[i].0),
    }) by {
        assert(lead[i] == payments[i]);
    }
    let back = change_condition(change_ph, change);
    let reserved = fee_condition(fee);
    assert(lead.len() == n + back.len() + reserved.len());
    assert forall|i: int| n <= i < lead.len() implies match #[trigger] lead[i] {
        Condition::CreateCoin { puzzle_hash, amount, hint } => i == n && puzzle_hash == change_ph
            && amount > 0 && hint is None,
        Condition::ReserveFee { amount } => i == lead.len() - 1 && amount == fee && fee > 0,
        Condition::AssertConcurrentSpend { .. } => false,
    } by {
        if i < n + back.len() {
            assert(lead[i] == back[i - n]);
        } else {
            assert(lead[i] == reserved[i - n - back.len()]);
        }
    }
    if fee > 0 {
        assert(lead.last() == reserved[0]);
    }
}

pub proof fn lemma_drawn(coins: Seq<WalletCoin>, target: nat, cap: nat, asset: Seq<char>)
    ensures
        chosen_coins(coins, target, cap, asset) matches Ok(chosen) ==> draws(
            chosen,
            coins,
            target,
            cap,
        ) && (target > 0 ==> chosen.len() > 0) && worth(chosen) == total_of_coins(chosen),
{
    a_selection_is_minimal(coins, target, cap);
    if let SelectionView::Selected { coins: chosen, .. } = selection_of(coins, target, cap) {
        let ordered = high_value_first(coins);
        high_value_first_is_ranked(coins);
        lemma_total_of_permutation(ordered, coins);
        lemma_needed_count(ordered, target);
        lemma_takes_the_largest(coins, needed_count(ordered, target) as int);
        lemma_worth(chosen);
        if chosen.len() > 0 {
            lemma_worth(chosen.drop_last());
        }
    }
}

pub proof fn lemma_sealed(spends: Seq<WalletSpendView>, network: Network, summary: SummaryView)
    ensures
        sealed(spends, network, summary) matches Ok(unsigned) ==> unsigned.coin_spends == spends
            && unsigned.summary == summary && lists_its_signatures(unsigned, network),
{
    if let Ok(unsigned) = sealed(spends, network, summary) {
        let found = signatures_needed(spends, domain_of(network))->Ok_0;
        assert(all_bls(found));
        assert forall|i: int| 0 <= i < found.len() implies (#[trigger] found[i])
            == ExtractedSignatureView::Bls(unsigned.required_signatures[i]) by {
            assert(bls_only(found)[i] == found[i]->Bls_0);
        }
    }
}

pub proof fn lemma_sealed_payment(
    spends: Seq<WalletSpendView>,
    network: Network,
    recipient: Bytes32,
    amount: u64,
    asset_id: Option<Seq<char>>,
    fee: u64,
)
    ensures
        sealed_payment(spends, network, recipient, amount, asset_id, fee) matches Ok(unsigned) ==> {
            &&& unsigned.coin_spends == spends
            &&& lists_its_signatures(unsigned, network)
            &&& shows_one_payment(unsigned.summary, recipient, amount, asset_id, fee)
        },
{
    lemma_sealed(spends, network, plain_summary(Seq::empty(), fee));
}

proof fn lemma_paid_in_xch<I: SpendInputs>(
    builder: &SdkSpendBuilder<I>,
    identity: IdentityView,
    destinations: Seq<(Bytes32, u64)>,
    fee: u64,
    summary: SummaryView,
)
    requires
        xch_fits(&builder.inputs, identity),
        paid_out(destinations) + fee > 0,
    ensures
        pay_xch(
            builder,
            identity,
            destinations,
            paid_out(destinations) + fee as nat,
            fee,
            summary,
        ) matches Ok(unsigned) ==> {
            &&& pays_in_xch(
                builder,
                identity,
                destinations,
                fee,
                unsigned.coin_spends,
            )
            &&& unsigned.summary == summary
            &&& lists_its_signatures(unsigned, builder.network)
        },
{
    let target = paid_out(destinations) + fee as nat;
    let cap = builder.coin_cap as nat;
    if let Ok(unsigned) = pay_xch(builder, identity, destinations, target, fee, summary) {
        let change_ph = builder.inputs.change_of(identity)->Ok_0;
        let coins = builder.inputs.xch_coins(identity)->Ok_0;
        let chosen = chosen_coins(coins, target, cap, "XCH"@)->Ok_0;
        lemma_drawn(coins, target, cap, "XCH"@);
        lemma_selection_fits(coins, target, cap);
        a_payment_conserves_value(coins, destinations, change_ph, fee, cap);
        a_selection_is_minimal(coins, target, cap);
        let change = total_of_coins(chosen) - target;
        let lead = payment_conditions(destinations, change_ph, change, fee);
        lemma_pays(destinations, change_ph, change, fee);
        lemma_value_created(lead);
        lemma_value_paid(destinations);
        let spends = group_spends(&builder.inputs, chosen, lead, chosen.len())->Ok_0;
        lemma_together(&builder.inputs, chosen, lead, spends);
        lemma_sealed(spends, builder.network, summary);
        assert(draws(chosen, coins, target, cap));
        assert(spends_together(&builder.inputs, chosen, lead, spends));
        assert(pays(lead, destinations, change_ph, fee));
    }
}

/// A send pays its recipient: the lead coin creates a coin of the amount for the puzzle hash that
/// the address decodes to, hinted to it; whatever else is created goes back to the wallet; the
/// fee is reserved and nothing is lost. The summary shows that payment.
pub proof fn a_send_pays_its_recipient<I: SpendInputs>(
    builder: &SdkSpendBuilder<I>,
    request: SendXchRequest,
)
    requires
        xch_fits(&builder.inputs, request.identity@),
    ensures
        send_xch_outcome(builder, request) matches Ok(unsigned) ==> {
            &&& address_puzzle_hash(request.to@) matches Ok(recipient)
            &&& pays_in_xch(
                builder,
                request.identity@,
                seq![(recipient, request.amount.0)],
                request.fee.0,
                unsigned.coin_spends,
            )
            &&& shows(
                unsigned.summary,
                seq![
                    SpendOutputView {
                        address: request.to@,
                        amount: request.amount.0,
                        asset_id: None,
                    },
                ],
                request.fee.0,
            )
            &&& lists_its_signatures(unsigned, builder.network)
        },
{
    if let Ok(unsigned) = send_xch_outcome(builder, request) {
        let recipient = address_puzzle_hash(request.to@)->Ok_0;
        let payments = seq![(recipient, request.amount.0)];
        assert(payments.drop_last() =~= Seq::empty());
        reveal_with_fuel(paid_out, 2);
        lemma_paid_in_xch(
            builder,
            request.identity@,
            payments,
            request.fee.0,
            unsigned.summary,
        );
    }
}

/// Only a wallet that is short is refused as short: where the amount, the fee and the address are
/// in order, a send fails for want of funds if the wallet's coins do not reach what it takes; if
/// they do, and the cap lets all of them in, only the writing of the spend can still fail.
pub proof fn only_a_short_wallet_is_refused<I: SpendInputs>(
    builder: &SdkSpendBuilder<I>,
    request: SendXchRequest,
    coins: Seq<WalletCoin>,
)
    requires
        builder.inputs.xch_coins(request.identity@) == Ok::<Seq<WalletCoin>, WalletErrorView>(coins),
        builder.inputs.change_of(request.identity@) is Ok,
        address_puzzle_hash(request.to@) is Ok,
        0 < request.amount.0 + request.fee.0 <= u64::MAX,
    ensures
        worth(coins) < request.amount.0 + request.fee.0 ==> (send_xch_outcome(
            builder,
            request,
        ) matches Err(error) && error.code == WalletErrorCode::InsufficientFunds),
        worth(coins) >= request.amount.0 + request.fee.0 && coins.len() <= builder.coin_cap ==> (
        send_xch_outcome(builder, request) matches Err(error) ==> error.code
            == WalletErrorCode::SpendValidationFailed),
{
    let target = (request.amount.0 + request.fee.0) as nat;
    let cap = builder.coin_cap as nat;
    lemma_worth(coins);
    high_value_first_is_ranked(coins);
    let ordered = high_value_first(coins);
    lemma_total_of_permutation(ordered, coins);
    if worth(coins) >= target && coins.len() <= cap {
        assert(at_most(ordered, cap) =~= ordered);
        let chosen = chosen_coins(coins, target, cap, "XCH"@)->Ok_0;
        let change_ph = builder.inputs.change_of(request.identity@)->Ok_0;
        let recipient = address_puzzle_hash(request.to@)->Ok_0;
        lemma_group_fault(
            &builder.inputs,
            chosen,
            payment_conditions(
                seq![(recipient, request.amount.0)],
                change_ph,
                total_of_coins(chosen) - target,
                request.fee.0,
            ),
            chosen.len(),
        );
    }
}

pub proof fn lemma_group_fault<I: SpendInputs>(
    inputs: &I,
    coins: Seq<WalletCoin>,
    lead: Seq<Condition>,
    n: nat,
)
    ensures
        group_spends(inputs, coins, lead, n) matches Err(error) ==> error.code
            == WalletErrorCode::SpendValidationFailed,
    decreases n,
{
    if n > 0 {
        lemma_group_fault(inputs, coins, lead, (n - 1) as nat);
    }
}

proof fn lemma_ring<I: SpendInputs>(
    inputs: &I,
    cats: Seq<WalletCat>,
    lead: Seq<Condition>,
    spends: Seq<WalletSpendView>,
)
    requires
        cats.len() > 0,
        ring_spends(inputs, cats, lead) == Ok::<Seq<WalletSpendView>, WalletErrorView>(spends),
    ensures
        spends_as_ring(inputs, cats, lead, ring_inputs(inputs, cats, lead), spends),
{
    let ring = ring_inputs(inputs, cats, lead);
    assert forall|i: int| 0 <= i < cats.len() implies {
        &&& (#[trigger] ring[i]).cat == cats[i]
        &&& inputs.key_of(cats[i].p2_puzzle_hash) == Some(ring[i].key)
        &&& i == 0 ==> ring[i].conditions == lead
        &&& i > 0 ==> ring[i].conditions.len() == 0
    } by {
        assert(inputs.key_of(cats[i].p2_puzzle_hash) is Some);
    }
}

proof fn lemma_fee_paid<I: SpendInputs>(
    builder: &SdkSpendBuilder<I>,
    identity: IdentityView,
    fee: u64,
    change_ph: Bytes32,
    partner: Bytes32,
)
    requires
        fee > 0,
        xch_fits(&builder.inputs, identity),
    ensures
        fee_spends(builder, identity, fee, change_ph, partner) matches Ok(spends)
            ==> pays_fee_beside(builder, identity, fee, partner, change_ph, spends),
{
    let cap = builder.coin_cap as nat;
    if let Ok(spends) = fee_spends(builder, identity, fee, change_ph, partner) {
        let coins = builder.inputs.xch_coins(identity)->Ok_0;
        let chosen = chosen_coins(coins, fee as nat, cap, "XCH (fee)"@)->Ok_0;
        lemma_drawn(coins, fee as nat, cap, "XCH (fee)"@);
        lemma_selection_fits(coins, fee as nat, cap);
        a_selection_is_minimal(coins, fee as nat, cap);
        a_fee_payment_conserves_value(coins, fee, partner, change_ph, cap);
        let change = total_of_coins(chosen) - fee;
        let lead = fee_conditions(fee, partner, change_ph, change);
        lemma_value_created(lead);
        lemma_together(&builder.inputs, chosen, lead, spends);
        let back = change_condition(change_ph, change);
        assert(lead.len() == 2 + back.len());
        if change > 0 {
            assert(lead[2] == back[0]);
        }
        assert(draws(chosen, coins, fee as nat, cap));
        assert(spends_together(&builder.inputs, chosen, lead, spends));
    }
}

proof fn lemma_paid_in_cat<I: SpendInputs>(
    builder: &SdkSpendBuilder<I>,
    identity: IdentityView,
    asset_id: Seq<char>,
    cats: Seq<WalletCat>,
    destinations: Seq<(Bytes32, u64)>,
    change_ph: Bytes32,
    fee: u64,
    summary: SummaryView,
)
    requires
        builder.inputs.cats_of(identity, asset_id) == Ok::<Seq<WalletCat>, WalletErrorView>(cats),
        builder.inputs.change_of(identity) == Ok::<Bytes32, WalletErrorView>(change_ph),
        cats.len() > 0,
        paid_out(destinations) <= total_of_coins(cat_coins(cats)) <= u64::MAX,
        fee > 0 ==> xch_fits(&builder.inputs, identity),
    ensures
        pay_cat(
            builder,
            identity,
            cats,
            destinations,
            change_ph,
            paid_out(destinations),
            fee,
            summary,
        ) matches Ok(unsigned) ==> {
            &&& pays_in_cat(builder, identity, asset_id, destinations, fee, unsigned.coin_spends)
            &&& unsigned.summary == summary
            &&& lists_its_signatures(unsigned, builder.network)
        },
{
    let payout = paid_out(destinations);
    let change = total_of_coins(cat_coins(cats)) - payout;
    let lead = payment_conditions(destinations, change_ph, change, 0);
    if let Ok(unsigned) = pay_cat(
        builder,
        identity,
        cats,
        destinations,
        change_ph,
        payout,
        fee,
        summary,
    ) {
        let first = ring_spends(&builder.inputs, cats, lead)->Ok_0;
        let ring = ring_inputs(&builder.inputs, cats, lead);
        lemma_ring(&builder.inputs, cats, lead, first);
        lemma_pays(destinations, change_ph, change, 0);
        lemma_value_created(lead);
        assert(coins_in(cats) =~= cat_coins(cats));
        lemma_worth(cat_coins(cats));
        a_cat_payment_conserves_value(cats, destinations, change_ph);
        let partner = id_of(cats[0].coin);
        let rest = if fee == 0 {
            Seq::empty()
        } else {
            fee_spends(builder, identity, fee, change_ph, partner)->Ok_0
        };
        if fee == 0 {
            assert(first + rest =~= first);
        } else {
            lemma_fee_paid(builder, identity, fee, change_ph, partner);
        }
        lemma_sealed(first + rest, builder.network, summary);
        assert(spends_as_ring(&builder.inputs, cats, lead, ring, first));
        assert(pays(lead, destinations, change_ph, 0));
    }
}

/// A CAT send pays its recipient: the lead coin of the ring creates a coin of exactly the amount
/// for the puzzle hash that the address decodes to, and whatever else it creates goes back to the
/// wallet. The fee comes from the wallet's XCH, tied to the ring.
pub proof fn a_cat_send_pays_its_recipient<I: SpendInputs>(
    builder: &SdkSpendBuilder<I>,
    request: SendCatRequest,
)
    requires
        cat_fits(&builder.inputs, request.identity@, request.asset_id@),
        request.fee.0 > 0 ==> xch_fits(&builder.inputs, request.identity@),
    ensures
        send_cat_outcome(builder, request) matches Ok(unsigned) ==> {
            &&& request.amount.0 > 0
            &&& address_puzzle_hash(request.to@) matches Ok(recipient)
            &&& pays_in_cat(
                builder,
                request.identity@,
                request.asset_id@,
                seq![(recipient, request.amount.0)],
                request.fee.0,
                unsigned.coin_spends,
            )
            &&& shows(
                unsigned.summary,
                seq![
                    SpendOutputView {
                        address: request.to@,
                        amount: request.amount.0,
                        asset_id: Some(request.asset_id@),
                    },
                ],
                request.fee.0,
            )
            &&& lists_its_signatures(unsigned, builder.network)
        },
{
    if let Ok(unsigned) = send_cat_outcome(builder, request) {
        let recipient = address_puzzle_hash(request.to@)->Ok_0;
        let payments = seq![(recipient, request.amount.0)];
        assert(payments.drop_last() =~= Seq::empty());
        reveal_with_fuel(paid_out, 2);
        lemma_paid_in_cat(
            builder,
            request.identity@,
            request.asset_id@,
            builder.inputs.cats_of(request.identity@, request.asset_id@)->Ok_0,
            payments,
            builder.inputs.change_of(request.identity@)->Ok_0,
            request.fee.0,
            unsigned.summary,
        );
    }
}

/// A CAT send fails for want of the asset if the wallet holds less than the amount, where the amount
/// and the address are in order; if it holds enough and pays no fee, only the writing of the spend
/// can still fail.
pub proof fn only_a_short_wallet_is_refused_a_cat_send<I: SpendInputs>(
    builder: &SdkSpendBuilder<I>,
    request: SendCatRequest,
    cats: Seq<WalletCat>,
)
    requires
        builder.inputs.cats_of(request.identity@, request.asset_id@) == Ok::<
            Seq<WalletCat>,
            WalletErrorView,
        >(cats),
        builder.inputs.change_of(request.identity@) is Ok,
        address_puzzle_hash(request.to@) is Ok,
        request.amount.0 > 0,
    ensures
        worth(coins_in(cats)) < request.amount.0 ==> (send_cat_outcome(
            builder,
            request,
        ) matches Err(error) && error.code == WalletErrorCode::InsufficientFunds),
        worth(coins_in(cats)) >= request.amount.0 && request.fee.0 == 0 ==> (send_cat_outcome(
            builder,
            request,
        ) matches Err(error) ==> error.code == WalletErrorCode::SpendValidationFailed),
{
    assert(coins_in(cats) =~= cat_coins(cats));
    lemma_worth(cat_coins(cats));
    if cats.len() == 0 {
        assert(cat_coins(cats) =~= Seq::empty());
    }
}

/// Whether payments are those of legs: each leg's amount, which is not zero, to the puzzle hash
/// that its address decodes to.
pub open spec fn pays_legs(payments: Seq<(Bytes32, u64)>, legs: Seq<SendLeg>) -> bool {
    &&& payments.len() == legs.len()
    &&& legs.len() > 0
    &&& forall|i: int|
        0 <= i < legs.len() ==> {
            &&& (#[trigger] payments[i]).1 == legs[i].amount.0
            &&& payments[i].1 > 0
            &&& address_puzzle_hash(legs[i].to@) == Ok::<Bytes32, Seq<char>>(payments[i].0)
        }
}

/// Whether output lines show legs, one line each.
pub open spec fn shows_legs(
    lines: Seq<SpendOutputView>,
    legs: Seq<SendLeg>,
    asset_id: Option<Seq<char>>,
) -> bool {
    &&& lines.len() == legs.len()
    &&& forall|i: int|
        0 <= i < legs.len() ==> {
            &&& (#[trigger] lines[i]).address == legs[i].to@
            &&& lines[i].amount == legs[i].amount.0
            &&& lines[i].asset_id == asset_id
        }
}

/// A multi-send pays every leg its amount, to the puzzle hash that the leg's address decodes to,
/// and shows every leg.
pub proof fn a_multi_send_pays_its_recipients<I: SpendInputs>(
    builder: &SdkSpendBuilder<I>,
    request: MultiSendXchRequest,
)
    requires
        xch_fits(&builder.inputs, request.identity@),
    ensures
        multi_send_xch_outcome(builder, request) matches Ok(unsigned) ==> {
            &&& exists|payments: Seq<(Bytes32, u64)>|
                {
                    &&& #[trigger] pays_legs(payments, request.legs@)
                    &&& pays_in_xch(
                        builder,
                        request.identity@,
                        payments,
                        request.fee.0,
                        unsigned.coin_spends,
                    )
                }
            &&& shows_legs(unsigned.summary.outputs, request.legs@, None)
            &&& shows(unsigned.summary, unsigned.summary.outputs, request.fee.0)
            &&& lists_its_signatures(unsigned, builder.network)
        },
{
    if let Ok(unsigned) = multi_send_xch_outcome(builder, request) {
        let payments = destinations_of(request.legs@)->Ok_0;
        a_multi_send_pays_every_leg(request.legs@);
        assert(payments[0].1 > 0);
        lemma_value_of_first(payments);
        lemma_paid_in_xch(
            builder,
            request.identity@,
            payments,
            request.fee.0,
            unsigned.summary,
        );
        assert(pays_legs(payments, request.legs@));
    }
}

proof fn lemma_value_of_first(payments: Seq<(Bytes32, u64)>)
    requires
        payments.len() > 0,
    ensures
        paid_out(payments) >= payments[0].1,
    decreases payments.len(),
{
    if payments.len() > 1 {
        lemma_value_of_first(payments.drop_last());
    }
}

/// A CAT multi-send pays every leg its amount, to the puzzle hash that the leg's address decodes
/// to, and shows every leg.
pub proof fn a_cat_multi_send_pays_its_recipients<I: SpendInputs>(
    builder: &SdkSpendBuilder<I>,
    request: MultiSendCatRequest,
)
    requires
        cat_fits(&builder.inputs, request.identity@, request.asset_id@),
        request.fee.0 > 0 ==> xch_fits(&builder.inputs, request.identity@),
    ensures
        multi_send_cat_outcome(builder, request) matches Ok(unsigned) ==> {
            &&& exists|payments: Seq<(Bytes32, u64)>|
                {
                    &&& #[trigger] pays_legs(payments, request.legs@)
                    &&& pays_in_cat(
                        builder,
                        request.identity@,
                        request.asset_id@,
                        payments,
                        request.fee.0,
                        unsigned.coin_spends,
                    )
                }
            &&& shows_legs(unsigned.summary.outputs, request.legs@, Some(request.asset_id@))
            &&& shows(unsigned.summary, unsigned.summary.outputs, request.fee.0)
            &&& lists_its_signatures(unsigned, builder.network)
        },
{
    if let Ok(unsigned) = multi_send_cat_outcome(builder, request) {
        let payments = destinations_of(request.legs@)->Ok_0;
        a_multi_send_pays_every_leg(request.legs@);
        lemma_paid_in_cat(
            builder,
            request.identity@,
            request.asset_id@,
            builder.inputs.cats_of(request.identity@, request.asset_id@)->Ok_0,
            payments,
            builder.inputs.change_of(request.identity@)->Ok_0,
            request.fee.0,
            unsigned.summary,
        );
        assert(pays_legs(payments, request.legs@));
    }
}

/// A merge turns the wallet's largest coins, at least two and otherwise no more than the cap, into
/// one coin of the wallet that holds all of their value but the fee.
pub proof fn a_combine_makes_one_coin<I: SpendInputs>(
    builder: &SdkSpendBuilder<I>,
    request: CombineXchRequest,
)
    requires
        merged_fits(builder, request.identity@),
    ensures
        combine_outcome(builder, request) matches Ok(unsigned) ==> {
            &&& builder.inputs.xch_coins(request.identity@) matches Ok(coins)
            &&& builder.inputs.change_of(request.identity@) matches Ok(change_ph)
            &&& coins.len() >= 2
            &&& exists|merged: Seq<WalletCoin>, lead: Seq<Condition>|
                {
                    &&& takes_the_largest(merged, coins)
                    &&& 2 <= merged.len() <= coins.len()
                    &&& merged.len() <= builder.coin_cap || merged.len() == 2
                    &&& merged.len() < coins.len() ==> merged.len() >= builder.coin_cap
                    &&& #[trigger] spends_together(
                        &builder.inputs,
                        merged,
                        lead,
                        unsigned.coin_spends,
                    )
                    &&& pays(lead, Seq::empty(), change_ph, request.fee.0)
                    &&& value_created(lead) > 0
                    &&& value_created(lead) + request.fee.0 == worth(merged)
                }
            &&& shows(unsigned.summary, Seq::empty(), request.fee.0)
            &&& lists_its_signatures(unsigned, builder.network)
        },
{
    if let Ok(unsigned) = combine_outcome(builder, request) {
        let fee = request.fee.0;
        let change_ph = builder.inputs.change_of(request.identity@)->Ok_0;
        let coins = builder.inputs.xch_coins(request.identity@)->Ok_0;
        let cap = builder.coin_cap as nat;
        let merged = consolidation_of(coins, cap);
        let total = total_of_coins(merged);
        high_value_first_is_ranked(coins);
        let most: nat = if cap < 2 {
            2
        } else {
            cap
        };
        if most < coins.len() {
            assert(merged =~= high_value_first(coins).take(most as int));
        } else {
            assert(merged =~= high_value_first(coins).take(coins.len() as int));
        }
        lemma_takes_the_largest(coins, merged.len() as int);
        let lead = combine_conditions(change_ph, (total - fee) as u64, fee);
        a_combine_conserves_value(change_ph, total as u64, fee);
        lemma_value_created(lead);
        lemma_worth(merged);
        lemma_together(&builder.inputs, merged, lead, unsigned.coin_spends);
        lemma_sealed(unsigned.coin_spends, builder.network, unsigned.summary);
        assert(lead[0] == (Condition::CreateCoin {
            puzzle_hash: change_ph,
            amount: (total - fee) as u64,
            hint: None,
        }));
        if fee > 0 {
            assert(lead.last() == fee_condition(fee)[0]);
        }
        assert(pays(lead, Seq::empty(), change_ph, fee));
        assert(spends_together(&builder.inputs, merged, lead, unsigned.coin_spends));
    }
}

/// Whether conditions make a number of coins for the wallet, none of them empty and all of them
/// alike but for what does not divide, which the first one takes, and reserve the fee.
pub open spec fn parts_evenly(
    lead: Seq<Condition>,
    parts: nat,
    change_ph: Bytes32,
    fee: u64,
) -> bool {
    &&& lead.len() == if fee > 0 {
        parts + 1
    } else {
        parts
    }
    &&& fee > 0 ==> lead.last() == (Condition::ReserveFee { amount: fee })
    &&& forall|i: int|
        0 <= i < parts ==> (#[trigger] lead[i] matches Condition::CreateCoin {
            puzzle_hash,
            amount,
            hint,
        } && puzzle_hash == change_ph && amount > 0 && hint is None)
    &&& forall|i: int, j: int|
        0 < i < parts && 0 < j < parts ==> #[trigger] lead[i] == #[trigger] lead[j]
    &&& parts > 1 ==> 0 <= lead[0]->CreateCoin_amount - lead[1]->CreateCoin_amount < parts
}

/// A split turns the wallet's largest coin into as many coins of the wallet as were asked for, even
/// but for what does not divide, and loses nothing but the fee.
pub proof fn a_split_makes_even_coins<I: SpendInputs>(
    builder: &SdkSpendBuilder<I>,
    request: SplitXchRequest,
)
    ensures
        split_outcome(builder, request) matches Ok(unsigned) ==> {
            &&& builder.inputs.xch_coins(request.identity@) matches Ok(coins)
            &&& builder.inputs.change_of(request.identity@) matches Ok(change_ph)
            &&& exists|coin: WalletCoin, lead: Seq<Condition>|
                {
                    &&& coins.contains(coin)
                    &&& forall|i: int|
                        0 <= i < coins.len() ==> (#[trigger] coins[i]).amount <= coin.amount
                    &&& #[trigger] spends_together(
                        &builder.inputs,
                        seq![coin],
                        lead,
                        unsigned.coin_spends,
                    )
                    &&& request.parts >= 2
                    &&& parts_evenly(lead, request.parts as nat, change_ph, request.fee.0)
                    &&& value_created(lead) + request.fee.0 == coin.amount
                }
            &&& shows(unsigned.summary, Seq::empty(), request.fee.0)
            &&& lists_its_signatures(unsigned, builder.network)
        },
{
    if let Ok(unsigned) = split_outcome(builder, request) {
        let fee = request.fee.0;
        let parts = request.parts as nat;
        let change_ph = builder.inputs.change_of(request.identity@)->Ok_0;
        let coins = builder.inputs.xch_coins(request.identity@)->Ok_0;
        let coin = largest_of(coins);
        let divisible = (coin.amount - fee) as nat;
        let lead = split_conditions(change_ph, divisible, parts, fee);
        the_largest_coin_is_split(coins);
        a_split_keeps_every_mojo(change_ph, divisible, parts, fee);
        lemma_value_created(lead);
        lemma_together(&builder.inputs, seq![coin], lead, unsigned.coin_spends);
        lemma_sealed(unsigned.coin_spends, builder.network, unsigned.summary);
        let made = part_conditions(change_ph, divisible, parts);
        assert forall|i: int| 0 <= i < parts implies #[trigger] lead[i] == (Condition::CreateCoin {
            puzzle_hash: change_ph,
            amount: part_amount(divisible, parts, i) as u64,
            hint: None,
        }) by {
            assert(lead[i] == made[i]);
        }
        assert forall|i: int| 0 <= i < parts implies 1 <= #[trigger] part_amount(
            divisible,
            parts,
            i,
        ) <= u64::MAX by {}
        assert(part_amount(divisible, parts, 0) - part_amount(divisible, parts, 1) == divisible
            % parts);
        if fee > 0 {
            assert(lead.last() == fee_condition(fee)[0]);
        }
        assert(parts_evenly(lead, parts, change_ph, fee));
        assert(spends_together(&builder.inputs, seq![coin], lead, unsigned.coin_spends));
    }
}

/// Whether a coin ranks behind another one: it holds less, or as much under an id that comes later
/// in byte order, which the first byte that differs decides.
pub open spec fn ranks_behind(coin: WalletCoin, other: WalletCoin) -> bool {
    ||| coin.amount < other.amount
    ||| coin.amount == other.amount && exists|i: int|
        0 <= i < 32 && (#[trigger] id_of(coin)@[i]) > id_of(other)@[i] && forall|k: int|
            0 <= k < i ==> (#[trigger] id_of(coin)@[k]) == id_of(other)@[k]
}

proof fn lemma_first_difference(a: Seq<u8>, b: Seq<u8>)
    requires
        a.len() == b.len(),
        !bytes_before(b, a),
    ensures
        a == b || exists|i: int|
            0 <= i < a.len() && (#[trigger] b[i]) > a[i] && forall|k: int|
                0 <= k < i ==> (#[trigger] b[k]) == a[k],
    decreases a.len(),
{
    if a.len() == 0 {
        assert(a =~= b);
    } else if a[0] == b[0] {
        let (x, y) = (a.drop_first(), b.drop_first());
        lemma_first_difference(x, y);
        if x == y {
            assert(a =~= b) by {
                assert forall|k: int| 0 <= k < a.len() implies a[k] == b[k] by {
                    if k > 0 {
                        assert(a[k] == x[k - 1] && b[k] == y[k - 1]);
                    }
                }
            }
        } else {
            let i = choose|i: int|
                0 <= i < x.len() && (#[trigger] y[i]) > x[i] && forall|k: int|
                    0 <= k < i ==> (#[trigger] y[k]) == x[k];
            assert(b[i + 1] > a[i + 1]);
            assert forall|k: int| 0 <= k < i + 1 implies (#[trigger] b[k]) == a[k] by {
                if k > 0 {
                    assert(y[k - 1] == x[k - 1]);
                }
            }
        }
    } else {
        assert(b[0] > a[0]);
    }
}

/// A coin that does not rank before another one ranks behind it, or has the same amount and id.
pub proof fn lemma_not_before(coin: WalletCoin, other: WalletCoin)
    requires
        !ranks_before(coin, other),
    ensures
        ranks_behind(coin, other) || (coin.amount == other.amount && id_of(coin) == id_of(other)),
{
    if coin.amount == other.amount {
        let a = id_of(other)@;
        let b = id_of(coin)@;
        lemma_first_difference(a, b);
        lemma_bytes32_view(id_of(other), id_of(coin));
        if a != b {
            let k = choose|k: int|
                0 <= k < a.len() && (#[trigger] b[k]) > a[k] && forall|m: int|
                    0 <= m < k ==> (#[trigger] b[m]) == a[m];
            assert(id_of(coin)@[k] > id_of(other)@[k]);
        }
    }
}

/// Coins are drawn from the largest down, and of equal ones the one with the smaller id first: of
/// two coins in the order of drawing, the later one ranks behind the earlier one or has the same
/// amount and id.
pub proof fn coins_are_drawn_from_the_largest_down(coins: Seq<WalletCoin>, i: int, j: int)
    requires
        0 <= i < j < coins.len(),
    ensures
        ranks_behind(high_value_first(coins)[j], high_value_first(coins)[i]) || (high_value_first(
            coins,
        )[j].amount == high_value_first(coins)[i].amount && id_of(high_value_first(coins)[j])
            == id_of(high_value_first(coins)[i])),
{
    high_value_first_is_ranked(coins);
    lemma_not_before(high_value_first(coins)[j], high_value_first(coins)[i]);
}

/// What a selection reports is what it saw: the worth of the chosen coins and what is left over the
/// target, or, where it chose none, the worth of all coins, the target, and the cap that stood in
/// the way.
pub proof fn a_selection_reports_what_it_saw(coins: Seq<WalletCoin>, target: nat, cap: nat)
    requires
        coins.len() <= u32::MAX,
    ensures
        match selection_of(coins, target, cap) {
            SelectionView::Selected { coins: chosen, total, change } => {
                &&& draws(chosen, coins, target, cap)
                &&& total == worth(chosen)
                &&& change == worth(chosen) - target
            },
            SelectionView::InsufficientFunds { available_total, required } => {
                &&& available_total == worth(coins)
                &&& required == target
                &&& worth(coins) < target
            },
            SelectionView::NeedsConsolidation {
                available_coin_count,
                available_total,
                required,
                cap: limit,
            } => {
                &&& available_coin_count == coins.len()
                &&& available_total == worth(coins)
                &&& required == target
                &&& limit == cap
                &&& worth(coins) >= target
                &&& coins.len() > cap
                &&& forall|chosen: Seq<WalletCoin>|
                    chosen.len() <= cap && #[trigger] chosen.to_multiset().subset_of(
                        coins.to_multiset(),
                    ) ==> worth(chosen) < target
            },
        },
{
    lemma_worth(coins);
    lemma_drawn(coins, target, cap, Seq::empty());
    a_selection_is_minimal(coins, target, cap);
    high_value_first_is_ranked(coins);
    let ordered = high_value_first(coins);
    lemma_total_of_permutation(ordered, coins);
    if let SelectionView::Selected { coins: chosen, .. } = selection_of(coins, target, cap) {
        lemma_worth(chosen);
    } else if selection_of(coins, target, cap) is NeedsConsolidation {
        assert forall|chosen: Seq<WalletCoin>|
            chosen.len() <= cap && #[trigger] chosen.to_multiset().subset_of(
                coins.to_multiset(),
            ) implies worth(chosen) < target by {
            lemma_worth(chosen);
            lemma_largest_are_worth_most(ordered, chosen, cap);
        }
    }
}

/// No choice of coins within a cap is worth more than the largest ones.
proof fn lemma_largest_are_worth_most(ordered: Seq<WalletCoin>, chosen: Seq<WalletCoin>, cap: nat)
    requires
        is_ranked(ordered),
        chosen.len() <= cap,
        chosen.to_multiset().subset_of(ordered.to_multiset()),
    ensures
        total_of_coins(chosen) <= total_of_coins(at_most(ordered, cap)),
    decreases ordered.len(),
{
    broadcast use vstd::seq_lib::group_to_multiset_ensures;

    if ordered.len() == 0 {
        if chosen.len() > 0 {
            assert(chosen.contains(chosen[0]));
            assert(chosen.to_multiset().count(chosen[0]) > 0);
            assert(ordered.to_multiset().count(chosen[0]) > 0);
        }
    } else {
        let front = ordered.drop_last();
        let last = ordered.last();
        assert(ordered =~= front.push(last));
        assert(is_ranked(front)) by {
            assert forall|i: int, j: int| 0 <= i < j < front.len() implies !ranks_before(
                #[trigger] front[j],
                #[trigger] front[i],
            ) by {
                assert(front[j] == ordered[j] && front[i] == ordered[i]);
            }
        }
        let full = chosen.to_multiset().count(last) == ordered.to_multiset().count(last);
        if !full {
            assert(chosen.to_multiset().subset_of(front.to_multiset()));
            lemma_largest_are_worth_most(front, chosen, cap);
            lemma_at_most_grows(ordered, cap);
        } else {
            assert(ordered.contains(last));
            assert(chosen.to_multiset().count(last) > 0);
            let at = choose|at: int| 0 <= at < chosen.len() && chosen[at] == last;
            let rest = chosen.remove(at);
            lemma_total_without(chosen, at);
            assert(rest.to_multiset() =~= chosen.to_multiset().remove(last));
            assert(rest.to_multiset().subset_of(front.to_multiset()));
            lemma_largest_are_worth_most(front, rest, (cap - 1) as nat);
            if cap - 1 < front.len() {
                let taken = ordered.take(cap as int);
                assert(at_most(ordered, cap) =~= taken);
                assert(taken.drop_last() =~= at_most(front, (cap - 1) as nat));
                if cap < ordered.len() {
                    assert(!ranks_before(ordered[ordered.len() - 1], ordered[cap - 1]));
                }
                assert(taken.last().amount >= last.amount);
            } else {
                assert(at_most(ordered, cap) =~= ordered);
                assert(at_most(front, (cap - 1) as nat) =~= front);
            }
        }
    }
}

proof fn lemma_at_most_grows(ordered: Seq<WalletCoin>, cap: nat)
    requires
        ordered.len() > 0,
    ensures
        total_of_coins(at_most(ordered.drop_last(), cap)) <= total_of_coins(at_most(ordered, cap)),
{
    let front = ordered.drop_last();
    if cap < front.len() {
        assert(front.take(cap as int) =~= ordered.take(cap as int));
    } else if cap == front.len() {
        assert(ordered.take(cap as int) =~= front);
    }
}

} // verus!
