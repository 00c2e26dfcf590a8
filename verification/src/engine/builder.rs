//! Unsigned-spend construction: the single-destination sends.
//!
//! A build picks the input coins, lists the conditions that the lead coin carries, has the
//! drivers write the coin spends and extracts the signatures that they need. It never signs. A
//! build that would not conserve value, or that would need no signature, fails.

use vstd::prelude::*;
use vstd::string::*;

use super::driver::{
    address_puzzle_hash, cat_inputs_view, cat_ring, cat_ring_of, decode_bech32, describe_fault,
    driver_fault_text, extract_signatures, extracted_view, mainnet_agg_sig_me, mainnet_domain,
    signatures_needed, standard_spend, standard_spend_of, testnet_agg_sig_me, testnet_domain,
    CatInput, CatInputView, Condition, ExtractedSignature, ExtractedSignatureView,
};
use super::parse::{address_of, encode_address};
use super::selection::{
    a_selection_is_minimal, high_value_first, high_value_first_is_ranked, select_for_spend,
    selection_of, sum_of_coins, SelectionOutcome, SelectionView,
};
use crate::text::{decimal, decimal_text, joined, joined3};
use crate::types::chain::{
    cat_coins, id_of, spends_view, total_of_coins, Bytes32, PublicKey, WalletCat, WalletCoin,
    WalletSpend, WalletSpendView,
};
use crate::types::error::{
    invalid, short_of_funds, spend_fault, WalletError, WalletErrorCode, WalletErrorView,
    WalletResult,
};
use crate::types::identity::{IdentityRef, IdentityView};
use crate::types::request::{SendCatRequest, SendXchRequest};
use crate::types::spend::{
    signatures_view, RequiredSignature, RequiredSignatureView, UnsignedSpend, UnsignedSpendView,
};
use crate::types::value::{
    optional_asset, outputs_view, plain_summary, Address, Amount, AssetId, Network, SpendOutput, SpendOutputView,
    SummaryView, TransactionSummary,
};

verus! {

/// What a call returned, over views.
pub open spec fn unsigned_view(result: WalletResult<UnsignedSpend>) -> Result<
    UnsignedSpendView,
    WalletErrorView,
> {
    match result {
        Ok(unsigned) => Ok(unsigned@),
        Err(error) => Err(error@),
    }
}

/// What a provider answered, over views.
pub open spec fn coins_view(result: WalletResult<Vec<WalletCoin>>) -> Result<
    Seq<WalletCoin>,
    WalletErrorView,
> {
    match result {
        Ok(coins) => Ok(coins@),
        Err(error) => Err(error@),
    }
}

/// What a provider answered, over views.
pub open spec fn cats_view(result: WalletResult<Vec<WalletCat>>) -> Result<
    Seq<WalletCat>,
    WalletErrorView,
> {
    match result {
        Ok(cats) => Ok(cats@),
        Err(error) => Err(error@),
    }
}

/// What a provider answered, over views.
pub open spec fn hash_view(result: WalletResult<Bytes32>) -> Result<Bytes32, WalletErrorView> {
    match result {
        Ok(hash) => Ok(hash),
        Err(error) => Err(error@),
    }
}

/// What a call that spends coins returned, over views.
pub open spec fn spends_result(result: WalletResult<Vec<WalletSpend>>) -> Result<
    Seq<WalletSpendView>,
    WalletErrorView,
> {
    match result {
        Ok(spends) => Ok(spends_view(spends@)),
        Err(error) => Err(error@),
    }
}

/// The public material that the engine builds against: coins, synthetic public keys and the
/// change address of a wallet. It never carries a secret.
///
/// A provider answers from one snapshot of the wallet: asked the same thing twice, it answers
/// the same.
pub trait SpendInputs {
    /// What [`SpendInputs::spendable_xch`] answers.
    closed spec fn xch_coins(&self, identity: IdentityView) -> Result<Seq<WalletCoin>, WalletErrorView> {
        arbitrary()
    }

    /// What [`SpendInputs::spendable_cat`] answers.
    closed spec fn cats_of(&self, identity: IdentityView, asset_id: Seq<char>) -> Result<
        Seq<WalletCat>,
        WalletErrorView,
    > {
        arbitrary()
    }

    /// What [`SpendInputs::synthetic_key`] answers.
    closed spec fn key_of(&self, puzzle_hash: Bytes32) -> Option<PublicKey> {
        arbitrary()
    }

    /// What [`SpendInputs::change_puzzle_hash`] answers.
    closed spec fn change_of(&self, identity: IdentityView) -> Result<Bytes32, WalletErrorView> {
        arbitrary()
    }

    /// The unspent XCH coins that the identity controls.
    fn spendable_xch(&self, identity: &IdentityRef) -> (result: WalletResult<Vec<WalletCoin>>)
        ensures
            coins_view(result) == self.xch_coins(identity@),
    ;

    /// The unspent CAT coins of an asset that the identity controls.
    fn spendable_cat(&self, identity: &IdentityRef, asset_id: &AssetId) -> (result: WalletResult<
        Vec<WalletCat>,
    >)
        ensures
            cats_view(result) == self.cats_of(identity@, asset_id@),
    ;

    /// The synthetic public key that controls a puzzle hash, if the wallet holds it.
    fn synthetic_key(&self, puzzle_hash: &Bytes32) -> (key: Option<PublicKey>)
        ensures
            key == self.key_of(*puzzle_hash),
    ;

    /// The puzzle hash that change returns to.
    fn change_puzzle_hash(&self, identity: &IdentityRef) -> (result: WalletResult<Bytes32>)
        ensures
            hash_view(result) == self.change_of(identity@),
    ;
}

/// The XCH coins of an identity add up to an amount that fits a machine word.
pub open spec fn xch_fits<I: SpendInputs>(inputs: &I, identity: IdentityView) -> bool {
    inputs.xch_coins(identity) matches Ok(coins) ==> total_of_coins(coins) <= u64::MAX
}

/// The CAT coins of an identity add up to an amount that fits a machine word.
pub open spec fn cat_fits<I: SpendInputs>(
    inputs: &I,
    identity: IdentityView,
    asset_id: Seq<char>,
) -> bool {
    inputs.cats_of(identity, asset_id) matches Ok(cats) ==> total_of_coins(cat_coins(cats))
        <= u64::MAX
}

/// The coins that spends are of.
pub open spec fn spent_coins(spends: Seq<WalletSpendView>) -> Seq<WalletCoin> {
    spends.map_values(|s: WalletSpendView| s.coin)
}

/// Builds unsigned spends from a provider's public material.
pub struct SdkSpendBuilder<I: SpendInputs> {
    /// The provider.
    pub inputs: I,
    /// The network, which decides the aggregate-signature domain.
    pub network: Network,
    /// The most input coins that a spend may draw.
    pub coin_cap: usize,
}

/// The aggregate-signature domain of a network. The simulator shares the testnet domain.
pub open spec fn domain_of(network: Network) -> Seq<u8> {
    match network {
        Network::Mainnet => mainnet_domain(),
        Network::Testnet => testnet_domain(),
        Network::Simulator => testnet_domain(),
    }
}

/// The signature descriptors of extracted BLS signatures.
pub open spec fn bls_only(found: Seq<ExtractedSignatureView>) -> Seq<RequiredSignatureView> {
    found.map_values(|f: ExtractedSignatureView| f->Bls_0)
}

/// Whether every extracted signature is a BLS signature.
pub open spec fn all_bls(found: Seq<ExtractedSignatureView>) -> bool {
    forall|i: int| 0 <= i < found.len() ==> (#[trigger] found[i]) is Bls
}

/// The signatures that coin spends need on a network.
pub open spec fn required_of(spends: Seq<WalletSpendView>, network: Network) -> Result<
    Seq<RequiredSignatureView>,
    WalletErrorView,
> {
    match signatures_needed(spends, domain_of(network)) {
        Err(fault) => Err(spend_fault("required-signature extraction: "@ + fault)),
        Ok(found) => if all_bls(found) {
            Ok(bls_only(found))
        } else {
            Err(spend_fault("unexpected secp signature in a wallet spend"@))
        },
    }
}

/// Coin spends made ready for review: with the signatures that they need, of which there is at
/// least one, and a summary.
pub open spec fn sealed(
    spends: Seq<WalletSpendView>,
    network: Network,
    summary: SummaryView,
) -> Result<UnsignedSpendView, WalletErrorView> {
    match required_of(spends, network) {
        Err(error) => Err(error),
        Ok(required) => if spends.len() == 0 {
            Err(spend_fault("spend produced no coin spends"@))
        } else if required.len() == 0 {
            Err(spend_fault("spend requires no signatures"@))
        } else {
            Ok(UnsignedSpendView { coin_spends: spends, required_signatures: required, summary })
        },
    }
}

/// Coin spends that pay one recipient, made ready for review: the summary shows the recipient's
/// `xch1…` address.
pub open spec fn sealed_payment(
    spends: Seq<WalletSpendView>,
    network: Network,
    recipient: Bytes32,
    amount: u64,
    asset_id: Option<Seq<char>>,
    fee: u64,
) -> Result<UnsignedSpendView, WalletErrorView> {
    match sealed(spends, network, plain_summary(Seq::empty(), fee)) {
        Err(error) => Err(error),
        Ok(unsigned) => match address_of(recipient) {
            Err(error) => Err(error),
            Ok(address) => Ok(
                UnsignedSpendView {
                    summary: plain_summary(
                        seq![SpendOutputView { address, amount, asset_id }],
                        fee,
                    ),
                    ..unsigned
                },
            ),
        },
    }
}

/// The spend of one coin under the wallet's key for it.
pub open spec fn keyed_spend<I: SpendInputs>(
    inputs: &I,
    coin: WalletCoin,
    conditions: Seq<Condition>,
) -> Result<WalletSpendView, WalletErrorView> {
    match inputs.key_of(coin.puzzle_hash) {
        None => Err(spend_fault("no public key for an input coin's puzzle hash"@)),
        Some(key) => match standard_spend_of(key, coin, conditions) {
            Err(fault) => Err(spend_fault(driver_fault_text(fault, "standard spend: "@))),
            Ok(spend) => Ok(spend),
        },
    }
}

/// What the coin at a position of a group carries: the lead coin the given conditions, every
/// other coin only that the lead coin is spent with it.
pub open spec fn carried(coins: Seq<WalletCoin>, lead: Seq<Condition>, i: int) -> Seq<Condition> {
    if i == 0 {
        lead
    } else {
        seq![Condition::AssertConcurrentSpend { coin_id: id_of(coins[0]) }]
    }
}

/// The spends of the first `n` coins of a group, in order; the first failure decides.
pub open spec fn group_spends<I: SpendInputs>(
    inputs: &I,
    coins: Seq<WalletCoin>,
    lead: Seq<Condition>,
    n: nat,
) -> Result<Seq<WalletSpendView>, WalletErrorView>
    decreases n,
{
    if n == 0 {
        Ok(Seq::empty())
    } else {
        match group_spends(inputs, coins, lead, (n - 1) as nat) {
            Err(error) => Err(error),
            Ok(spends) => match keyed_spend(inputs, coins[n - 1], carried(coins, lead, n - 1)) {
                Err(error) => Err(error),
                Ok(spend) => Ok(spends.push(spend)),
            },
        }
    }
}

/// The text of a selection that did not succeed.
pub open spec fn selection_fault(outcome: SelectionView, asset: Seq<char>) -> Seq<char> {
    match outcome {
        SelectionView::NeedsConsolidation { available_total, required, cap, .. } => asset
            + " needs consolidation: "@ + decimal(available_total)
            + " available across too many coins to reach "@ + decimal(required) + " within the "@
            + decimal(cap) + "-coin cap"@,
        SelectionView::InsufficientFunds { available_total, required } => "insufficient "@ + asset
            + ": have "@ + decimal(available_total) + ", need "@ + decimal(required),
        SelectionView::Selected { .. } => Seq::empty(),
    }
}

/// The coins that a spend draws, or why there are none.
pub open spec fn chosen_coins(
    coins: Seq<WalletCoin>,
    target: nat,
    cap: nat,
    asset: Seq<char>,
) -> Result<Seq<WalletCoin>, WalletErrorView> {
    match selection_of(coins, target, cap) {
        SelectionView::Selected { coins: chosen, .. } => Ok(chosen),
        outcome => Err(short_of_funds(selection_fault(outcome, asset))),
    }
}

/// The puzzle hash of an address, or the error that refuses it.
pub open spec fn destination_of(address: Seq<char>) -> Result<Bytes32, WalletErrorView> {
    match address_puzzle_hash(address) {
        Ok(puzzle_hash) => Ok(puzzle_hash),
        Err(fault) => Err(invalid("bad address "@ + address + ": "@ + fault)),
    }
}

/// One hinted payment.
pub open spec fn payment(destination: (Bytes32, u64)) -> Condition {
    Condition::CreateCoin {
        puzzle_hash: destination.0,
        amount: destination.1,
        hint: Some(destination.0),
    }
}

/// A coin back to the wallet, when there is anything to return.
pub open spec fn change_condition(change_ph: Bytes32, change: int) -> Seq<Condition> {
    if change > 0 {
        seq![Condition::CreateCoin { puzzle_hash: change_ph, amount: change as u64, hint: None }]
    } else {
        Seq::empty()
    }
}

/// The fee, when there is one.
pub open spec fn fee_condition(fee: u64) -> Seq<Condition> {
    if fee > 0 {
        seq![Condition::ReserveFee { amount: fee }]
    } else {
        Seq::empty()
    }
}

/// What the lead coin of a payment carries: each payment, the change and the fee.
pub open spec fn payment_conditions(
    destinations: Seq<(Bytes32, u64)>,
    change_ph: Bytes32,
    change: int,
    fee: u64,
) -> Seq<Condition> {
    destinations.map_values(|d: (Bytes32, u64)| payment(d)) + change_condition(change_ph, change)
        + fee_condition(fee)
}

/// What the lead coin of a separate fee payment carries.
pub open spec fn fee_conditions(
    fee: u64,
    partner: Bytes32,
    change_ph: Bytes32,
    change: int,
) -> Seq<Condition> {
    seq![
        Condition::ReserveFee { amount: fee },
        Condition::AssertConcurrentSpend { coin_id: partner },
    ] + change_condition(change_ph, change)
}

/// The spends of a payment from chosen coins.
pub open spec fn payment_spends<I: SpendInputs>(
    inputs: &I,
    chosen: Seq<WalletCoin>,
    destinations: Seq<(Bytes32, u64)>,
    change_ph: Bytes32,
    target: nat,
    fee: u64,
) -> Result<Seq<WalletSpendView>, WalletErrorView> {
    group_spends(
        inputs,
        chosen,
        payment_conditions(destinations, change_ph, total_of_coins(chosen) - target, fee),
        chosen.len(),
    )
}

/// The XCH coins of an identity that a spend of an amount draws, or why there are none.
pub open spec fn drawn_xch<I: SpendInputs>(
    builder: &SdkSpendBuilder<I>,
    identity: IdentityView,
    target: nat,
    asset: Seq<char>,
) -> Result<Seq<WalletCoin>, WalletErrorView> {
    match builder.inputs.xch_coins(identity) {
        Err(error) => Err(error),
        Ok(coins) => chosen_coins(coins, target, builder.coin_cap as nat, asset),
    }
}

/// Whether spends are of all of a wallet's coins of a CAT asset, in order, and then of the XCH
/// coins that a fee draws.
pub open spec fn draws_cats<I: SpendInputs>(
    builder: &SdkSpendBuilder<I>,
    identity: IdentityView,
    asset_id: Seq<char>,
    fee: u64,
    spends: Seq<WalletSpendView>,
) -> bool {
    &&& builder.inputs.cats_of(identity, asset_id) matches Ok(cats)
    &&& if fee == 0 {
        spent_coins(spends) == cat_coins(cats)
    } else {
        drawn_xch(builder, identity, fee as nat, "XCH (fee)"@) matches Ok(extra) && spent_coins(
            spends,
        ) == cat_coins(cats) + extra
    }
}

/// The outcome of paying XCH destinations: change address, coins, selection and spends, in that
/// order, and the first failure decides.
pub open spec fn pay_xch<I: SpendInputs>(
    builder: &SdkSpendBuilder<I>,
    identity: IdentityView,
    destinations: Seq<(Bytes32, u64)>,
    target: nat,
    fee: u64,
    summary: SummaryView,
) -> Result<UnsignedSpendView, WalletErrorView> {
    match builder.inputs.change_of(identity) {
        Err(error) => Err(error),
        Ok(change_ph) => match builder.inputs.xch_coins(identity) {
            Err(error) => Err(error),
            Ok(coins) => match chosen_coins(coins, target, builder.coin_cap as nat, "XCH"@) {
                Err(error) => Err(error),
                Ok(chosen) => match payment_spends(
                    &builder.inputs,
                    chosen,
                    destinations,
                    change_ph,
                    target,
                    fee,
                ) {
                    Err(error) => Err(error),
                    Ok(spends) => sealed(spends, builder.network, summary),
                },
            },
        },
    }
}

/// The outcome of [`SdkSpendBuilder::build_send_xch`].
pub open spec fn send_xch_outcome<I: SpendInputs>(
    builder: &SdkSpendBuilder<I>,
    request: SendXchRequest,
) -> Result<UnsignedSpendView, WalletErrorView> {
    let amount = request.amount.0;
    let fee = request.fee.0;
    let target = (amount + fee) as nat;
    if target > u64::MAX {
        Err(invalid("amount + fee overflows"@))
    } else if target == 0 {
        Err(invalid("a spend must move a non-zero amount"@))
    } else {
        match destination_of(request.to@) {
            Err(error) => Err(error),
            Ok(destination) => pay_xch(
                builder,
                request.identity@,
                seq![(destination, amount)],
                target,
                fee,
                plain_summary(
                    seq![SpendOutputView { address: request.to@, amount, asset_id: None }],
                    fee,
                ),
            ),
        }
    }
}

/// The CAT inputs of a ring: every coin under the wallet's key for its inner puzzle, the first
/// with the given conditions and the rest with none.
pub open spec fn ring_inputs<I: SpendInputs>(
    inputs: &I,
    cats: Seq<WalletCat>,
    lead: Seq<Condition>,
) -> Seq<CatInputView> {
    Seq::new(
        cats.len(),
        |i: int|
            CatInputView {
                cat: cats[i],
                key: inputs.key_of(cats[i].p2_puzzle_hash)->0,
                conditions: if i == 0 {
                    lead
                } else {
                    Seq::empty()
                },
            },
    )
}

/// Whether the wallet holds a key for the inner puzzle of every CAT coin.
pub open spec fn holds_keys<I: SpendInputs>(inputs: &I, cats: Seq<WalletCat>) -> bool {
    forall|i: int| 0 <= i < cats.len() ==> inputs.key_of((#[trigger] cats[i]).p2_puzzle_hash) is Some
}

/// The spends of a CAT ring.
pub open spec fn ring_spends<I: SpendInputs>(
    inputs: &I,
    cats: Seq<WalletCat>,
    lead: Seq<Condition>,
) -> Result<Seq<WalletSpendView>, WalletErrorView> {
    if !holds_keys(inputs, cats) {
        Err(spend_fault("no public key for a CAT coin's inner puzzle hash"@))
    } else {
        match cat_ring_of(ring_inputs(inputs, cats, lead)) {
            Err(fault) => Err(spend_fault(driver_fault_text(fault, "cat spend_all: "@))),
            Ok(spends) => Ok(spends),
        }
    }
}

/// The spends that pay a fee from the wallet's XCH, tied to a partner coin.
pub open spec fn fee_spends<I: SpendInputs>(
    builder: &SdkSpendBuilder<I>,
    identity: IdentityView,
    fee: u64,
    change_ph: Bytes32,
    partner: Bytes32,
) -> Result<Seq<WalletSpendView>, WalletErrorView> {
    match builder.inputs.xch_coins(identity) {
        Err(error) => Err(error),
        Ok(coins) => match chosen_coins(coins, fee as nat, builder.coin_cap as nat, "XCH (fee)"@) {
            Err(error) => Err(error),
            Ok(chosen) => group_spends(
                &builder.inputs,
                chosen,
                fee_conditions(fee, partner, change_ph, total_of_coins(chosen) - fee),
                chosen.len(),
            ),
        },
    }
}

/// The outcome of paying CAT destinations from all of a wallet's coins of the asset, the fee
/// from its XCH.
pub open spec fn pay_cat<I: SpendInputs>(
    builder: &SdkSpendBuilder<I>,
    identity: IdentityView,
    cats: Seq<WalletCat>,
    destinations: Seq<(Bytes32, u64)>,
    change_ph: Bytes32,
    payout: nat,
    fee: u64,
    summary: SummaryView,
) -> Result<UnsignedSpendView, WalletErrorView> {
    let change = total_of_coins(cat_coins(cats)) - payout;
    match ring_spends(
        &builder.inputs,
        cats,
        payment_conditions(destinations, change_ph, change, 0),
    ) {
        Err(error) => Err(error),
        Ok(ring) => if fee == 0 {
            sealed(ring, builder.network, summary)
        } else {
            match fee_spends(builder, identity, fee, change_ph, id_of(cats[0].coin)) {
                Err(error) => Err(error),
                Ok(extra) => sealed(ring + extra, builder.network, summary),
            }
        },
    }
}

/// The outcome of [`SdkSpendBuilder::build_send_cat`].
pub open spec fn send_cat_outcome<I: SpendInputs>(
    builder: &SdkSpendBuilder<I>,
    request: SendCatRequest,
) -> Result<UnsignedSpendView, WalletErrorView> {
    let amount = request.amount.0;
    let fee = request.fee.0;
    if amount == 0 {
        Err(invalid("a CAT send must move a non-zero amount"@))
    } else {
        match destination_of(request.to@) {
            Err(error) => Err(error),
            Ok(destination) => match builder.inputs.change_of(request.identity@) {
                Err(error) => Err(error),
                Ok(change_ph) => match builder.inputs.cats_of(request.identity@, request.asset_id@) {
                    Err(error) => Err(error),
                    Ok(cats) => if cats.len() == 0 {
                        Err(short_of_funds("no spendable "@ + request.asset_id@ + " coins"@))
                    } else if total_of_coins(cat_coins(cats)) < amount {
                        Err(
                            short_of_funds(
                                "insufficient CAT: have "@ + decimal(
                                    total_of_coins(cat_coins(cats)),
                                ) + ", need "@ + decimal(amount as nat),
                            ),
                        )
                    } else {
                        pay_cat(
                            builder,
                            request.identity@,
                            cats,
                            seq![(destination, amount)],
                            change_ph,
                            amount as nat,
                            fee,
                            plain_summary(
                                seq![
                                    SpendOutputView {
                                        address: request.to@,
                                        amount,
                                        asset_id: Some(request.asset_id@),
                                    },
                                ],
                                fee,
                            ),
                        )
                    },
                },
            },
        }
    }
}

impl<I: SpendInputs> SdkSpendBuilder<I> {
    /// A builder over a provider, for a network, with a coin cap.
    pub fn new(inputs: I, network: Network, coin_cap: usize) -> (builder: Self)
        ensures
            builder == (SdkSpendBuilder { inputs, network, coin_cap }),
    {
        SdkSpendBuilder { inputs, network, coin_cap }
    }

    /// The aggregate-signature domain of the builder's network.
    pub fn agg_sig_me(&self) -> (domain: Bytes32)
        ensures
            domain@ == domain_of(self.network),
    {
        match self.network {
            Network::Mainnet => mainnet_agg_sig_me(),
            Network::Testnet => testnet_agg_sig_me(),
            Network::Simulator => testnet_agg_sig_me(),
        }
    }

    /// Spends a coin under the wallet's key for it. A coin without a key fails.
    pub(crate) fn spend_standard(&self, coin: &WalletCoin, conditions: &Vec<Condition>) -> (result:
        WalletResult<WalletSpend>)
        ensures
            match result {
                Ok(spend) => keyed_spend(&self.inputs, *coin, conditions@) == Ok::<
                    WalletSpendView,
                    WalletErrorView,
                >(spend@) && spend.coin == *coin,
                Err(error) => keyed_spend(&self.inputs, *coin, conditions@) == Err::<
                    WalletSpendView,
                    WalletErrorView,
                >(error@),
            },
    {
        match self.inputs.synthetic_key(&coin.puzzle_hash) {
            None => Err(
                spend_failed("no public key for an input coin's puzzle hash".to_owned()),
            ),
            Some(key) => match standard_spend(&key, coin, conditions) {
                Ok(spend) => Ok(spend),
                Err(fault) => Err(spend_failed(describe_fault(&fault, "standard spend: "))),
            },
        }
    }

    /// Spends a group of coins together: the lead coin carries the conditions, every other coin
    /// asserts that the lead coin is spent with it.
    pub(crate) fn spend_group(&self, coins: &Vec<WalletCoin>, lead: Vec<Condition>) -> (result:
        WalletResult<Vec<WalletSpend>>)
        ensures
            spends_result(result) == group_spends(&self.inputs, coins@, lead@, coins@.len()),
            result matches Ok(spends) ==> spends@.len() == coins@.len() && forall|i: int|
                0 <= i < coins@.len() ==> (#[trigger] spends@[i]).coin == coins@[i],
    {
        let mut spends: Vec<WalletSpend> = Vec::new();
        let ghost lead_view = lead@;
        let mut carried_now = lead;
        let mut i: usize = 0;
        assert(spends_view(spends@) =~= Seq::empty());
        while i < coins.len()
            invariant
                i <= coins.len(),
                lead_view == lead@,
                spends@.len() == i,
                forall|k: int| 0 <= k < i ==> (#[trigger] spends@[k]).coin == coins@[k],
                carried_now@ == carried(coins@, lead_view, i as int),
                group_spends(&self.inputs, coins@, lead_view, i as nat) == Ok::<
                    Seq<WalletSpendView>,
                    WalletErrorView,
                >(spends_view(spends@)),
            decreases coins.len() - i,
        {
            match self.spend_standard(&coins[i], &carried_now) {
                Err(error) => {
                    proof {
                        lemma_group_failure(
                            &self.inputs,
                            coins@,
                            lead_view,
                            i as nat + 1,
                            coins@.len(),
                        );
                    }
                    return Err(error);
                },
                Ok(spend) => {
                    let ghost before = spends@;
                    spends.push(spend);
                    assert(spends_view(spends@) =~= spends_view(before).push(spend@));
                },
            }
            carried_now = Vec::new();
            carried_now.push(Condition::AssertConcurrentSpend { coin_id: coins[0].coin_id() });
            i = i + 1;
            assert(carried_now@ =~= carried(coins@, lead_view, i as int));
        }
        Ok(spends)
    }

    /// Extracts the signatures that coin spends need. A secp signature has no place in a wallet
    /// spend and fails.
    pub fn required_signatures(&self, coin_spends: &Vec<WalletSpend>) -> (result: WalletResult<
        Vec<RequiredSignature>,
    >)
        ensures
            match result {
                Ok(required) => required_of(spends_view(coin_spends@), self.network) == Ok::<
                    Seq<RequiredSignatureView>,
                    WalletErrorView,
                >(signatures_view(required@)),
                Err(error) => required_of(spends_view(coin_spends@), self.network) == Err::<
                    Seq<RequiredSignatureView>,
                    WalletErrorView,
                >(error@),
            },
    {
        match extract_signatures(coin_spends, &self.agg_sig_me()) {
            Err(fault) => Err(
                spend_failed(joined("required-signature extraction: ", fault.as_str())),
            ),
            Ok(found) => bls_signatures(found),
        }
    }

    /// Makes coin spends ready for review: extracts the signatures that they need and refuses a
    /// spend without any.
    pub fn finish_unsigned(&self, coin_spends: Vec<WalletSpend>, summary: TransactionSummary) -> (result:
        WalletResult<UnsignedSpend>)
        ensures
            unsigned_view(result) == sealed(spends_view(coin_spends@), self.network, summary@),
    {
        match self.required_signatures(&coin_spends) {
            Err(error) => Err(error),
            Ok(required_signatures) => match ensure_signed_offline(
                &coin_spends,
                &required_signatures,
            ) {
                Err(error) => Err(error),
                Ok(()) => Ok(UnsignedSpend { coin_spends, required_signatures, summary }),
            },
        }
    }

    /// Makes coin spends that pay one recipient ready for review.
    pub fn finish_paying(
        &self,
        coin_spends: Vec<WalletSpend>,
        recipient: &Bytes32,
        amount: Amount,
        asset_id: Option<AssetId>,
        fee: Amount,
    ) -> (result: WalletResult<UnsignedSpend>)
        ensures
            unsigned_view(result) == sealed_payment(
                spends_view(coin_spends@),
                self.network,
                *recipient,
                amount.0,
                optional_asset(asset_id),
                fee.0,
            ),
    {
        let none: Vec<SpendOutput> = Vec::new();
        assert(outputs_view(none@) =~= Seq::empty());
        let unsigned = match self.finish_unsigned(
            coin_spends,
            TransactionSummary::new(none, fee),
        ) {
            Ok(unsigned) => unsigned,
            Err(error) => return Err(error),
        };
        match encode_address(recipient) {
            Err(error) => Err(error),
            Ok(address) => {
                let outputs = vec![SpendOutput { address, amount, asset_id }];
                assert(outputs_view(outputs@) =~= seq![outputs@[0]@]);
                Ok(
                    UnsignedSpend {
                        coin_spends: unsigned.coin_spends,
                        required_signatures: unsigned.required_signatures,
                        summary: TransactionSummary::new(outputs, fee),
                    },
                )
            },
        }
    }

    /// Pays XCH destinations from the wallet's coins.
    pub(crate) fn pay_xch_destinations(
        &self,
        identity: &IdentityRef,
        destinations: &Vec<(Bytes32, u64)>,
        target: u64,
        fee: u64,
        summary: TransactionSummary,
    ) -> (result: WalletResult<UnsignedSpend>)
        requires
            xch_fits(&self.inputs, identity@),
            target > 0,
            paid_out(destinations@) + fee == target,
        ensures
            unsigned_view(result) == pay_xch(
                self,
                identity@,
                destinations@,
                target as nat,
                fee,
                summary@,
            ),
            result matches Ok(unsigned) ==> drawn_xch(self, identity@, target as nat, "XCH"@)
                == Ok::<Seq<WalletCoin>, WalletErrorView>(spent_coins(unsigned@.coin_spends)),
    {
        let change_ph = match self.inputs.change_puzzle_hash(identity) {
            Ok(change_ph) => change_ph,
            Err(error) => return Err(error),
        };
        let coins = match self.inputs.spendable_xch(identity) {
            Ok(coins) => coins,
            Err(error) => return Err(error),
        };
        let selected = match select_or_fail(coins.as_slice(), target, self.coin_cap, "XCH") {
            Ok(selected) => selected,
            Err(error) => return Err(error),
        };
        let total: u64 = sum_of_coins(selected.as_slice());
        let change: u64 = total - target;
        let conditions = paying_conditions(destinations, &change_ph, change, fee);
        let coin_spends = match self.spend_group(&selected, conditions) {
            Ok(coin_spends) => coin_spends,
            Err(error) => return Err(error),
        };
        match assert_conserved(total, target - fee + change, fee) {
            Ok(()) => {},
            Err(error) => return Err(error),
        }
        assert(spent_coins(spends_view(coin_spends@)) =~= selected@);
        self.finish_unsigned(coin_spends, summary)
    }

    /// Builds an unsigned XCH send.
    pub fn build_send_xch(&self, request: SendXchRequest) -> (result: WalletResult<UnsignedSpend>)
        requires
            0 < request.amount.0 + request.fee.0 <= u64::MAX ==> xch_fits(
                &self.inputs,
                request.identity@,
            ),
        ensures
            unsigned_view(result) == send_xch_outcome(self, request),
            result matches Ok(unsigned) ==> drawn_xch(
                self,
                request.identity@,
                (request.amount.0 + request.fee.0) as nat,
                "XCH"@,
            ) == Ok::<Seq<WalletCoin>, WalletErrorView>(spent_coins(unsigned@.coin_spends)),
    {
        let amount: u64 = request.amount.mojos();
        let fee: u64 = request.fee.mojos();
        let target: u64 = match checked_target(amount, fee) {
            Ok(target) => target,
            Err(error) => return Err(error),
        };
        let destination = match decode_address(&request.to) {
            Ok(destination) => destination,
            Err(error) => return Err(error),
        };
        let mut destinations: Vec<(Bytes32, u64)> = Vec::new();
        destinations.push((destination, amount));
        proof {
            assert(destinations@ =~= seq![(destination, amount)]);
            assert(destinations@.drop_last() =~= Seq::empty());
            reveal_with_fuel(paid_out, 2);
        }
        let summary = single_output(request.to, request.amount, None, request.fee);
        self.pay_xch_destinations(&request.identity, &destinations, target, fee, summary)
    }

    /// Builds the ring inputs of CAT coins: the lead coin carries the conditions, the value of
    /// the others flows through the ring.
    pub(crate) fn cat_ring_inputs(&self, cats: &Vec<WalletCat>, lead: Vec<Condition>) -> (result:
        WalletResult<Vec<CatInput>>)
        ensures
            match result {
                Ok(inputs) => holds_keys(&self.inputs, cats@) && cat_inputs_view(inputs@)
                    == ring_inputs(&self.inputs, cats@, lead@),
                Err(error) => !holds_keys(&self.inputs, cats@) && error@ == spend_fault(
                    "no public key for a CAT coin's inner puzzle hash"@,
                ),
            },
    {
        let mut inputs: Vec<CatInput> = Vec::new();
        let ghost lead_view = lead@;
        let mut conditions = lead;
        let mut i: usize = 0;
        while i < cats.len()
            invariant
                i <= cats.len(),
                inputs@.len() == i,
                i == 0 ==> conditions@ == lead_view,
                i > 0 ==> conditions@ == Seq::<Condition>::empty(),
                forall|k: int|
                    0 <= k < i ==> self.inputs.key_of((#[trigger] cats@[k]).p2_puzzle_hash) is Some,
                forall|k: int|
                    0 <= k < i ==> (#[trigger] inputs@[k])@ == ring_inputs(
                        &self.inputs,
                        cats@,
                        lead_view,
                    )[k],
            decreases cats.len() - i,
        {
            let key = match self.inputs.synthetic_key(&cats[i].p2_puzzle_hash) {
                Some(key) => key,
                None => {
                    assert(self.inputs.key_of(cats@[i as int].p2_puzzle_hash) is None);
                    return Err(
                        spend_failed("no public key for a CAT coin's inner puzzle hash".to_owned()),
                    );
                },
            };
            inputs.push(CatInput { cat: cats[i], key, conditions });
            conditions = Vec::new();
            i = i + 1;
        }
        assert(cat_inputs_view(inputs@) =~= ring_inputs(&self.inputs, cats@, lead_view));
        Ok(inputs)
    }

    /// Spends CAT coins as one ring.
    pub(crate) fn spend_ring(&self, cats: &Vec<WalletCat>, lead: Vec<Condition>) -> (result:
        WalletResult<Vec<WalletSpend>>)
        ensures
            spends_result(result) == ring_spends(&self.inputs, cats@, lead@),
            result matches Ok(spends) ==> spends@.len() == cats@.len() && forall|i: int|
                0 <= i < cats@.len() ==> (#[trigger] spends@[i]).coin == cats@[i].coin,
    {
        let ring = match self.cat_ring_inputs(cats, lead) {
            Ok(ring) => ring,
            Err(error) => return Err(error),
        };
        match cat_ring(&ring) {
            Ok(spends) => {
                proof {
                    assert(ring@.len() == cat_inputs_view(ring@).len());
                    assert forall|i: int| 0 <= i < cats@.len() implies (
                    #[trigger] spends@[i]).coin == cats@[i].coin by {
                        assert(cat_inputs_view(ring@)[i].cat == cats@[i]);
                        assert(ring@[i].cat == cats@[i]);
                    }
                }
                Ok(spends)
            },
            Err(fault) => Err(spend_failed(describe_fault(&fault, "cat spend_all: "))),
        }
    }

    /// Pays a fee from the wallet's XCH, tied to a partner coin so that both are spent or
    /// neither is.
    pub(crate) fn add_xch_fee(
        &self,
        identity: &IdentityRef,
        fee: u64,
        change_ph: &Bytes32,
        partner: &Bytes32,
    ) -> (result: WalletResult<Vec<WalletSpend>>)
        requires
            xch_fits(&self.inputs, identity@),
        ensures
            spends_result(result) == fee_spends(self, identity@, fee, *change_ph, *partner),
            result matches Ok(spends) ==> drawn_xch(self, identity@, fee as nat, "XCH (fee)"@)
                == Ok::<Seq<WalletCoin>, WalletErrorView>(spent_coins(spends_view(spends@))),
    {
        let coins = match self.inputs.spendable_xch(identity) {
            Ok(coins) => coins,
            Err(error) => return Err(error),
        };
        let selected = match select_or_fail(coins.as_slice(), fee, self.coin_cap, "XCH (fee)") {
            Ok(selected) => selected,
            Err(error) => return Err(error),
        };
        let total: u64 = sum_of_coins(selected.as_slice());
        let change: u64 = total - fee;
        let mut conditions: Vec<Condition> = Vec::new();
        conditions.push(Condition::ReserveFee { amount: fee });
        conditions.push(Condition::AssertConcurrentSpend { coin_id: *partner });
        if change > 0 {
            conditions.push(
                Condition::CreateCoin { puzzle_hash: *change_ph, amount: change, hint: None },
            );
        }
        assert(conditions@ =~= fee_conditions(fee, *partner, *change_ph, change as int));
        let spends = match self.spend_group(&selected, conditions) {
            Ok(spends) => spends,
            Err(error) => return Err(error),
        };
        assert(spent_coins(spends_view(spends@)) =~= selected@);
        Ok(spends)
    }

    /// Pays CAT destinations from CAT coins that hold enough, the fee from the wallet's XCH.
    pub(crate) fn pay_cat_destinations(
        &self,
        identity: &IdentityRef,
        cats: &Vec<WalletCat>,
        destinations: &Vec<(Bytes32, u64)>,
        change_ph: &Bytes32,
        payout: u64,
        fee: u64,
        summary: TransactionSummary,
    ) -> (result: WalletResult<UnsignedSpend>)
        requires
            fee > 0 ==> xch_fits(&self.inputs, identity@),
            cats@.len() > 0,
            payout <= total_of_coins(cat_coins(cats@)) <= u64::MAX,
        ensures
            unsigned_view(result) == pay_cat(
                self,
                identity@,
                cats@,
                destinations@,
                *change_ph,
                payout as nat,
                fee,
                summary@,
            ),
            result matches Ok(unsigned) ==> if fee == 0 {
                spent_coins(unsigned@.coin_spends) == cat_coins(cats@)
            } else {
                drawn_xch(self, identity@, fee as nat, "XCH (fee)"@) matches Ok(extra)
                    && spent_coins(unsigned@.coin_spends) == cat_coins(cats@) + extra
            },
    {
        let total: u64 = sum_of_cats(cats);
        let change: u64 = total - payout;
        let conditions = paying_conditions(destinations, change_ph, change, 0);
        let mut coin_spends = match self.spend_ring(cats, conditions) {
            Ok(coin_spends) => coin_spends,
            Err(error) => return Err(error),
        };
        let ghost ring = spends_view(coin_spends@);
        assert(spent_coins(ring) =~= cat_coins(cats@));
        if fee > 0 {
            match self.add_xch_fee(identity, fee, change_ph, &cats[0].coin.coin_id()) {
                Err(error) => return Err(error),
                Ok(extra) => {
                    let ghost extra_view = spends_view(extra@);
                    let mut more = extra;
                    coin_spends.append(&mut more);
                    assert(spends_view(coin_spends@) =~= ring + extra_view);
                    assert(spent_coins(ring + extra_view) =~= spent_coins(ring) + spent_coins(
                        extra_view,
                    ));
                },
            }
        }
        match assert_conserved(total, payout + change, 0) {
            Ok(()) => {},
            Err(error) => return Err(error),
        }
        self.finish_unsigned(coin_spends, summary)
    }

    /// Builds an unsigned CAT send.
    pub fn build_send_cat(&self, request: SendCatRequest) -> (result: WalletResult<UnsignedSpend>)
        requires
            request.amount.0 > 0 && request.fee.0 > 0 ==> xch_fits(
                &self.inputs,
                request.identity@,
            ),
            request.amount.0 > 0 ==> cat_fits(
                &self.inputs,
                request.identity@,
                request.asset_id@,
            ),
        ensures
            unsigned_view(result) == send_cat_outcome(self, request),
            result matches Ok(unsigned) ==> draws_cats(
                self,
                request.identity@,
                request.asset_id@,
                request.fee.0,
                unsigned@.coin_spends,
            ),
    {
        let amount: u64 = request.amount.mojos();
        let fee: u64 = request.fee.mojos();
        if amount == 0 {
            return Err(
                WalletError::invalid_input("a CAT send must move a non-zero amount".to_owned()),
            );
        }
        let destination = match decode_address(&request.to) {
            Ok(destination) => destination,
            Err(error) => return Err(error),
        };
        let change_ph = match self.inputs.change_puzzle_hash(&request.identity) {
            Ok(change_ph) => change_ph,
            Err(error) => return Err(error),
        };
        let cats = match self.inputs.spendable_cat(&request.identity, &request.asset_id) {
            Ok(cats) => cats,
            Err(error) => return Err(error),
        };
        if cats.len() == 0 {
            return Err(
                WalletError::new(
                    WalletErrorCode::InsufficientFunds,
                    joined3("no spendable ", request.asset_id.0.as_str(), " coins"),
                ),
            );
        }
        let total: u64 = sum_of_cats(&cats);
        if total < amount {
            let mut message = joined("insufficient CAT: have ", decimal_text(total).as_str());
            message.append(", need ");
            message.append(decimal_text(amount).as_str());
            return Err(WalletError::new(WalletErrorCode::InsufficientFunds, message));
        }
        let mut destinations: Vec<(Bytes32, u64)> = Vec::new();
        destinations.push((destination, amount));
        assert(destinations@ =~= seq![(destination, amount)]);
        let ghost asset_view = request.asset_id@;
        let summary = single_output(
            request.to,
            request.amount,
            Some(request.asset_id),
            request.fee,
        );
        self.pay_cat_destinations(
            &request.identity,
            &cats,
            &destinations,
            &change_ph,
            amount,
            fee,
            summary,
        )
    }
}

proof fn lemma_group_failure<I: SpendInputs>(
    inputs: &I,
    coins: Seq<WalletCoin>,
    lead: Seq<Condition>,
    i: nat,
    n: nat,
)
    requires
        i <= n,
        group_spends(inputs, coins, lead, i) is Err,
    ensures
        group_spends(inputs, coins, lead, n) == group_spends(inputs, coins, lead, i),
    decreases n - i,
{
    if i < n {
        lemma_group_failure(inputs, coins, lead, i, (n - 1) as nat);
    }
}

/// What destinations receive in total.
pub open spec fn paid_out(destinations: Seq<(Bytes32, u64)>) -> nat
    decreases destinations.len(),
{
    if destinations.len() == 0 {
        0
    } else {
        paid_out(destinations.drop_last()) + destinations.last().1 as nat
    }
}

/// What a condition moves into new coins.
pub open spec fn created(condition: Condition) -> nat {
    match condition {
        Condition::CreateCoin { amount, .. } => amount as nat,
        _ => 0,
    }
}

/// What conditions move into new coins in total.
pub open spec fn created_total(conditions: Seq<Condition>) -> nat
    decreases conditions.len(),
{
    if conditions.len() == 0 {
        0
    } else {
        created_total(conditions.drop_last()) + created(conditions.last())
    }
}

/// The totals of two condition lists add up.
pub proof fn lemma_created_total_joined(a: Seq<Condition>, b: Seq<Condition>)
    ensures
        created_total(a + b) == created_total(a) + created_total(b),
    decreases b.len(),
{
    if b.len() == 0 {
        assert(a + b =~= a);
    } else {
        lemma_created_total_joined(a, b.drop_last());
        assert((a + b).drop_last() =~= a + b.drop_last());
    }
}

proof fn lemma_created_by_payments(destinations: Seq<(Bytes32, u64)>)
    ensures
        created_total(destinations.map_values(|d: (Bytes32, u64)| payment(d))) == paid_out(
            destinations,
        ),
    decreases destinations.len(),
{
    let conditions = destinations.map_values(|d: (Bytes32, u64)| payment(d));
    if destinations.len() > 0 {
        lemma_created_by_payments(destinations.drop_last());
        assert(conditions.drop_last() =~= destinations.drop_last().map_values(
            |d: (Bytes32, u64)| payment(d),
        ));
    }
}

/// The change and the fee of a condition list create exactly the change.
pub proof fn lemma_created_by_rest(change_ph: Bytes32, change: int, fee: u64)
    requires
        0 <= change <= u64::MAX,
    ensures
        created_total(change_condition(change_ph, change)) == change,
        created_total(fee_condition(fee)) == 0,
{
    let returned = change_condition(change_ph, change);
    let reserved = fee_condition(fee);
    if returned.len() > 0 {
        assert(returned.drop_last() =~= Seq::empty());
    }
    if reserved.len() > 0 {
        assert(reserved.drop_last() =~= Seq::empty());
    }
    reveal_with_fuel(created_total, 2);
}

/// A payment conserves value: the new coins and the fee together are worth exactly the chosen
/// coins.
pub proof fn a_payment_conserves_value(
    coins: Seq<WalletCoin>,
    destinations: Seq<(Bytes32, u64)>,
    change_ph: Bytes32,
    fee: u64,
    cap: nat,
)
    requires
        total_of_coins(coins) <= u64::MAX,
    ensures
        selection_of(coins, paid_out(destinations) + fee as nat, cap) matches SelectionView::Selected {
            coins: chosen,
            change,
            ..
        } ==> created_total(payment_conditions(destinations, change_ph, change, fee)) + fee
            == total_of_coins(chosen),
{
    let target = paid_out(destinations) + fee as nat;
    a_selection_is_minimal(coins, target, cap);
    if let SelectionView::Selected { coins: chosen, change, .. } = selection_of(
        coins,
        target,
        cap,
    ) {
        lemma_selection_fits(coins, target, cap);
        let payments = destinations.map_values(|d: (Bytes32, u64)| payment(d));
        lemma_created_by_payments(destinations);
        lemma_created_by_rest(change_ph, change, fee);
        lemma_created_total_joined(payments, change_condition(change_ph, change));
        lemma_created_total_joined(
            payments + change_condition(change_ph, change),
            fee_condition(fee),
        );
    }
}

/// A separate fee payment conserves value: what the fee coins hold beyond the fee comes back.
pub proof fn a_fee_payment_conserves_value(
    coins: Seq<WalletCoin>,
    fee: u64,
    partner: Bytes32,
    change_ph: Bytes32,
    cap: nat,
)
    requires
        total_of_coins(coins) <= u64::MAX,
    ensures
        selection_of(coins, fee as nat, cap) matches SelectionView::Selected {
            coins: chosen,
            change,
            ..
        } ==> created_total(fee_conditions(fee, partner, change_ph, change)) + fee
            == total_of_coins(chosen),
{
    a_selection_is_minimal(coins, fee as nat, cap);
    if let SelectionView::Selected { coins: chosen, change, .. } = selection_of(
        coins,
        fee as nat,
        cap,
    ) {
        lemma_selection_fits(coins, fee as nat, cap);
        let head = seq![
            Condition::ReserveFee { amount: fee },
            Condition::AssertConcurrentSpend { coin_id: partner },
        ];
        assert(head.drop_last() =~= seq![Condition::ReserveFee { amount: fee }]);
        assert(head.drop_last().drop_last() =~= Seq::empty());
        reveal_with_fuel(created_total, 3);
        lemma_created_by_rest(change_ph, change, fee);
        lemma_created_total_joined(head, change_condition(change_ph, change));
    }
}

/// A CAT payment conserves the asset: what the destinations and the change receive is what the
/// ring holds.
pub proof fn a_cat_payment_conserves_value(
    cats: Seq<WalletCat>,
    destinations: Seq<(Bytes32, u64)>,
    change_ph: Bytes32,
)
    requires
        paid_out(destinations) <= total_of_coins(cat_coins(cats)) <= u64::MAX,
    ensures
        created_total(
            payment_conditions(
                destinations,
                change_ph,
                total_of_coins(cat_coins(cats)) - paid_out(destinations),
                0,
            ),
        ) == total_of_coins(cat_coins(cats)),
{
    let change = total_of_coins(cat_coins(cats)) - paid_out(destinations);
    let payments = destinations.map_values(|d: (Bytes32, u64)| payment(d));
    lemma_created_by_payments(destinations);
    lemma_created_by_rest(change_ph, change, 0);
    lemma_created_total_joined(payments, change_condition(change_ph, change));
    lemma_created_total_joined(payments + change_condition(change_ph, change), fee_condition(0));
}

/// A build that succeeds spends exactly the chosen coins, one spend each.
pub proof fn a_group_spends_each_coin_once<I: SpendInputs>(
    inputs: &I,
    coins: Seq<WalletCoin>,
    lead: Seq<Condition>,
    n: nat,
)
    requires
        n <= coins.len(),
    ensures
        group_spends(inputs, coins, lead, n) matches Ok(spends) ==> spends.len() == n,
    decreases n,
{
    if n > 0 {
        a_group_spends_each_coin_once(inputs, coins, lead, (n - 1) as nat);
    }
}

/// What leaves a build for signing always needs at least one signature and spends at least one
/// coin.
pub proof fn a_sealed_spend_needs_signing(
    spends: Seq<WalletSpendView>,
    network: Network,
    summary: SummaryView,
)
    ensures
        sealed(spends, network, summary) matches Ok(unsigned) ==> unsigned.coin_spends.len() > 0
            && unsigned.required_signatures.len() > 0 && unsigned.coin_spends == spends
            && unsigned.summary == summary,
{
}

/// A selection holds no more than all the coins.
pub proof fn lemma_selection_fits(coins: Seq<WalletCoin>, target: nat, cap: nat)
    requires
        total_of_coins(coins) <= u64::MAX,
    ensures
        selection_of(coins, target, cap) matches SelectionView::Selected {
            coins: chosen,
            total,
            change,
        } ==> total_of_coins(chosen) <= total_of_coins(coins) && total == total_of_coins(chosen)
            && 0 <= change <= u64::MAX,
{
    a_selection_is_minimal(coins, target, cap);
    if selection_of(coins, target, cap) is Selected {
        let ordered = high_value_first(coins);
        high_value_first_is_ranked(coins);
        super::selection::lemma_total_of_permutation(ordered, coins);
        let k = super::selection::needed_count(ordered, target) as int;
        super::selection::lemma_needed_count(ordered, target);
        super::selection::lemma_total_of_prefix(ordered, k, ordered.len() as int);
        assert(ordered.take(ordered.len() as int) =~= ordered);
    }
}

/// Keeps the BLS signatures of a list that holds nothing else.
pub(crate) fn bls_signatures(found: Vec<ExtractedSignature>) -> (result: WalletResult<
    Vec<RequiredSignature>,
>)
    ensures
        match result {
            Ok(required) => all_bls(extracted_view(found@)) && signatures_view(
                required@,
            ) == bls_only(extracted_view(found@)),
            Err(error) => !all_bls(extracted_view(found@)) && error@ == spend_fault(
                "unexpected secp signature in a wallet spend"@,
            ),
        },
{
    let ghost view = extracted_view(found@);
    let mut required: Vec<RequiredSignature> = Vec::new();
    for item in items: found
        invariant
            items.seq() == found@,
            view == extracted_view(found@),
            required@.len() == items.index(),
            forall|k: int| 0 <= k < items.index() ==> (#[trigger] view[k]) is Bls,
            forall|k: int|
                0 <= k < items.index() ==> (#[trigger] required@[k])@ == view[k]->Bls_0,
    {
        assert(view[items.index()] == item@);
        match item {
            ExtractedSignature::Bls(signature) => required.push(signature),
            ExtractedSignature::Secp => return Err(
                spend_failed("unexpected secp signature in a wallet spend".to_owned()),
            ),
        }
    }
    assert(signatures_view(required@) =~= bls_only(view));
    Ok(required)
}

/// A summary with one output line and a fee.
pub(crate) fn single_output(
    address: Address,
    amount: Amount,
    asset_id: Option<AssetId>,
    fee: Amount,
) -> (summary: TransactionSummary)
    ensures
        summary@ == plain_summary(
            seq![
                SpendOutputView {
                    address: address@,
                    amount: amount.0,
                    asset_id: crate::types::value::optional_asset(asset_id),
                },
            ],
            fee.0,
        ),
{
    let mut outputs: Vec<SpendOutput> = Vec::new();
    let output = SpendOutput { address, amount, asset_id };
    let ghost line = output@;
    outputs.push(output);
    assert(outputs_view(outputs@) =~= seq![line]);
    TransactionSummary::new(outputs, fee)
}

/// The conditions that the lead coin of a payment carries.
pub(crate) fn paying_conditions(
    destinations: &Vec<(Bytes32, u64)>,
    change_ph: &Bytes32,
    change: u64,
    fee: u64,
) -> (conditions: Vec<Condition>)
    ensures
        conditions@ == payment_conditions(destinations@, *change_ph, change as int, fee),
{
    let mut conditions: Vec<Condition> = Vec::new();
    let mut i: usize = 0;
    while i < destinations.len()
        invariant
            i <= destinations.len(),
            conditions@.len() == i,
            forall|k: int|
                0 <= k < i ==> #[trigger] conditions@[k] == payment(destinations@[k]),
        decreases destinations.len() - i,
    {
        let (puzzle_hash, amount) = destinations[i];
        conditions.push(Condition::CreateCoin { puzzle_hash, amount, hint: Some(puzzle_hash) });
        i = i + 1;
    }
    if change > 0 {
        conditions.push(
            Condition::CreateCoin { puzzle_hash: *change_ph, amount: change, hint: None },
        );
    }
    if fee > 0 {
        conditions.push(Condition::ReserveFee { amount: fee });
    }
    assert(conditions@ =~= payment_conditions(destinations@, *change_ph, change as int, fee));
    conditions
}

/// The sum of the CAT coins' amounts.
pub(crate) fn sum_of_cats(cats: &Vec<WalletCat>) -> (total: u64)
    requires
        total_of_coins(cat_coins(cats@)) <= u64::MAX,
    ensures
        total == total_of_coins(cat_coins(cats@)),
{
    let coins = underlying_coins(cats);
    sum_of_coins(coins.as_slice())
}

/// The coins underneath CATs.
pub(crate) fn underlying_coins(cats: &Vec<WalletCat>) -> (coins: Vec<WalletCoin>)
    ensures
        coins@ == cat_coins(cats@),
{
    let mut coins: Vec<WalletCoin> = Vec::new();
    let mut i: usize = 0;
    while i < cats.len()
        invariant
            i <= cats.len(),
            coins@.len() == i,
            forall|k: int| 0 <= k < i ==> #[trigger] coins@[k] == cats@[k].coin,
        decreases cats.len() - i,
    {
        coins.push(cats[i].coin);
        i = i + 1;
    }
    assert(coins@ =~= cat_coins(cats@));
    coins
}

/// The CAT coins of one asset.
pub open spec fn of_asset(cats: Seq<WalletCat>, asset: Bytes32) -> Seq<WalletCat> {
    cats.filter(|c: WalletCat| c.asset_id == asset)
}

/// Picks the CAT coins of one asset, in their order.
pub(crate) fn cats_of_asset(cats: &Vec<WalletCat>, asset: &Bytes32) -> (mine: Vec<WalletCat>)
    ensures
        mine@ == of_asset(cats@, *asset),
{
    let mut mine: Vec<WalletCat> = Vec::new();
    let mut i: usize = 0;
    assert(of_asset(cats@.take(0), *asset) =~= Seq::empty()) by {
        reveal(Seq::filter);
    }
    while i < cats.len()
        invariant
            i <= cats@.len(),
            mine@ == of_asset(cats@.take(i as int), *asset),
        decreases cats@.len() - i,
    {
        proof {
            reveal(Seq::filter);
            assert(cats@.take(i as int + 1).drop_last() =~= cats@.take(i as int));
        }
        if cats[i].asset_id.same(asset) {
            mine.push(cats[i]);
        }
        i = i + 1;
    }
    assert(cats@.take(i as int) =~= cats@);
    mine
}

/// Leaving coins out never raises a total.
pub(crate) proof fn lemma_filtered_total(cats: Seq<WalletCat>, keep: spec_fn(WalletCat) -> bool)
    ensures
        total_of_coins(cat_coins(cats.filter(keep))) <= total_of_coins(cat_coins(cats)),
    decreases cats.len(),
{
    reveal(Seq::filter);
    if cats.len() > 0 {
        let front = cats.drop_last();
        lemma_filtered_total(front, keep);
        assert(cat_coins(cats).drop_last() =~= cat_coins(front));
        if keep(cats.last()) {
            assert(cat_coins(cats.filter(keep)).drop_last() =~= cat_coins(front.filter(keep)));
        }
    }
}

/// The value that a send must cover: the amount plus the fee, which is neither zero nor too
/// large for a machine word.
pub fn checked_target(amount: u64, fee: u64) -> (result: WalletResult<u64>)
    ensures
        match result {
            Ok(target) => target == amount + fee && target > 0,
            Err(error) => if amount + fee > u64::MAX {
                error@ == invalid("amount + fee overflows"@)
            } else {
                amount + fee == 0 && error@ == invalid("a spend must move a non-zero amount"@)
            },
        },
{
    match amount.checked_add(fee) {
        None => Err(WalletError::invalid_input("amount + fee overflows".to_owned())),
        Some(target) => if target == 0 {
            Err(WalletError::invalid_input("a spend must move a non-zero amount".to_owned()))
        } else {
            Ok(target)
        },
    }
}

/// Selects coins that cover `target`. Both ways of not reaching it are
/// [`WalletErrorCode::InsufficientFunds`]; the message tells them apart.
pub fn select_or_fail(coins: &[WalletCoin], target: u64, cap: usize, asset: &str) -> (result:
    WalletResult<Vec<WalletCoin>>)
    requires
        total_of_coins(coins@) <= u64::MAX,
    ensures
        match result {
            Ok(chosen) => {
                &&& chosen_coins(coins@, target as nat, cap as nat, asset@) == Ok::<
                    Seq<WalletCoin>,
                    WalletErrorView,
                >(chosen@)
                &&& target <= total_of_coins(chosen@) <= u64::MAX
                &&& target > 0 ==> chosen@.len() > 0
            },
            Err(error) => chosen_coins(coins@, target as nat, cap as nat, asset@) == Err::<
                Seq<WalletCoin>,
                WalletErrorView,
            >(error@),
        },
{
    proof {
        a_selection_is_minimal(coins@, target as nat, cap as nat);
        lemma_selection_fits(coins@, target as nat, cap as nat);
    }
    match select_for_spend(coins, target, cap) {
        SelectionOutcome::Selected { coins: chosen, .. } => Ok(chosen),
        SelectionOutcome::NeedsConsolidation { available_total, required, cap, .. } => {
            let mut message = joined3(
                asset,
                " needs consolidation: ",
                decimal_text(available_total).as_str(),
            );
            message.append(" available across too many coins to reach ");
            message.append(decimal_text(required).as_str());
            message.append(" within the ");
            message.append(decimal_text(cap as u64).as_str());
            message.append("-coin cap");
            Err(WalletError::new(WalletErrorCode::InsufficientFunds, message))
        },
        SelectionOutcome::InsufficientFunds { available_total, required } => {
            let mut message = joined3("insufficient ", asset, ": have ");
            message.append(decimal_text(available_total).as_str());
            message.append(", need ");
            message.append(decimal_text(required).as_str());
            Err(WalletError::new(WalletErrorCode::InsufficientFunds, message))
        },
    }
}

/// Decodes an address to its puzzle hash.
pub fn decode_address(address: &Address) -> (result: WalletResult<Bytes32>)
    ensures
        hash_view(result) == destination_of(address@),
{
    match decode_bech32(address.0.as_str()) {
        Ok(puzzle_hash) => Ok(puzzle_hash),
        Err(fault) => {
            let mut message = joined3("bad address ", address.0.as_str(), ": ");
            message.append(fault.as_str());
            Err(WalletError::invalid_input(message))
        },
    }
}

/// Refuses a spend whose inputs are not exactly its outputs and its fee.
pub fn assert_conserved(inputs: u64, outputs: u64, fee: u64) -> (result: WalletResult<()>)
    ensures
        match result {
            Ok(()) => inputs == outputs + fee,
            Err(error) => inputs != outputs + fee && error@ == spend_fault(
                if outputs + fee > u64::MAX {
                    "output + fee overflow"@
                } else {
                    "value not conserved: inputs "@ + decimal(inputs as nat)
                        + " != outputs+fee "@ + decimal((outputs + fee) as nat)
                },
            ),
        },
{
    match outputs.checked_add(fee) {
        None => Err(spend_failed("output + fee overflow".to_owned())),
        Some(out) => if inputs != out {
            let mut message = joined3(
                "value not conserved: inputs ",
                decimal_text(inputs).as_str(),
                " != outputs+fee ",
            );
            message.append(decimal_text(out).as_str());
            Err(spend_failed(message))
        } else {
            Ok(())
        },
    }
}

/// Refuses a spend without coin spends, and one that needs no signature.
pub fn ensure_signed_offline(
    coin_spends: &Vec<WalletSpend>,
    required: &Vec<RequiredSignature>,
) -> (result: WalletResult<()>)
    ensures
        match result {
            Ok(()) => coin_spends@.len() > 0 && required@.len() > 0,
            Err(error) => if coin_spends@.len() == 0 {
                error@ == spend_fault("spend produced no coin spends"@)
            } else {
                required@.len() == 0 && error@ == spend_fault("spend requires no signatures"@)
            },
        },
{
    if coin_spends.len() == 0 {
        return Err(spend_failed("spend produced no coin spends".to_owned()));
    }
    if required.len() == 0 {
        return Err(spend_failed("spend requires no signatures".to_owned()));
    }
    Ok(())
}

/// A [`WalletErrorCode::SpendValidationFailed`] error.
pub fn spend_failed(message: String) -> (error: WalletError)
    ensures
        error == (WalletError { code: WalletErrorCode::SpendValidationFailed, message }),
{
    WalletError::new(WalletErrorCode::SpendValidationFailed, message)
}

} // verus!
