//! Unsigned-spend construction: many destinations at once, and reshaping the wallet's own coins.
//!
//! Every build here keeps what the single sends keep: value is conserved exactly, and a spend
//! that needs no signature never leaves.

use vstd::arithmetic::div_mod::lemma_fundamental_div_mod;
use vstd::prelude::*;
use vstd::string::*;

use super::builder::{
    assert_conserved, cat_fits, created_total, decode_address, destination_of, drawn_xch,
    draws_cats, fee_condition, group_spends, lemma_created_by_rest, lemma_created_total_joined,
    paid_out, pay_cat, pay_xch, sealed, spent_coins, sum_of_cats, unsigned_view, xch_fits,
    SdkSpendBuilder, SpendInputs,
};
use super::driver::Condition;
use super::selection::{
    consolidation_of, ranks_before, select_for_consolidation, sum_of_coins,
};
use crate::text::{decimal, decimal_text, joined, joined3};
use crate::types::chain::{
    cat_coins, spends_view, total_of_coins, Bytes32, WalletCoin, WalletSpend,
};
use crate::types::error::{
    invalid, short_of_funds, WalletError, WalletErrorCode, WalletErrorView, WalletResult,
};
use crate::types::identity::IdentityView;
use crate::types::request::{
    CombineXchRequest, MultiSendCatRequest, MultiSendXchRequest, SendLeg, SplitXchRequest,
};
use crate::types::spend::{UnsignedSpend, UnsignedSpendView};
use crate::types::value::{
    outputs_view, plain_summary, Amount, AssetId, SpendOutput, SpendOutputView, TransactionSummary,
};

verus! {

/// The puzzle hash and amount of one leg, or why it is refused.
pub open spec fn leg_resolved(leg: SendLeg) -> Result<(Bytes32, u64), WalletErrorView> {
    if leg.amount.0 == 0 {
        Err(invalid("destination "@ + leg.to@ + " was given a zero amount"@))
    } else {
        match destination_of(leg.to@) {
            Ok(puzzle_hash) => Ok((puzzle_hash, leg.amount.0)),
            Err(error) => Err(error),
        }
    }
}

/// The first `n` legs resolved, in order; the first refusal decides.
pub open spec fn legs_resolved(legs: Seq<SendLeg>, n: nat) -> Result<
    Seq<(Bytes32, u64)>,
    WalletErrorView,
>
    decreases n,
{
    if n == 0 {
        Ok(Seq::empty())
    } else {
        match legs_resolved(legs, (n - 1) as nat) {
            Err(error) => Err(error),
            Ok(destinations) => match leg_resolved(legs[n - 1]) {
                Err(error) => Err(error),
                Ok(destination) => Ok(destinations.push(destination)),
            },
        }
    }
}

/// All legs resolved. There must be at least one.
pub open spec fn destinations_of(legs: Seq<SendLeg>) -> Result<
    Seq<(Bytes32, u64)>,
    WalletErrorView,
> {
    if legs.len() == 0 {
        Err(invalid("a multi-send must have at least one destination"@))
    } else {
        legs_resolved(legs, legs.len())
    }
}

/// What the legs pay out in total.
pub open spec fn legs_total(legs: Seq<SendLeg>) -> nat
    decreases legs.len(),
{
    if legs.len() == 0 {
        0
    } else {
        legs_total(legs.drop_last()) + legs.last().amount.0 as nat
    }
}

/// Whether there are legs, each pays something, and what they pay fits a machine word: where it is
/// not so, they are refused before any coin is read.
pub open spec fn legs_pay(legs: Seq<SendLeg>) -> bool {
    &&& legs.len() > 0
    &&& forall|i: int| 0 <= i < legs.len() ==> (#[trigger] legs[i]).amount.0 > 0
    &&& legs_total(legs) <= u64::MAX
}

/// One output line per leg.
pub open spec fn leg_lines(legs: Seq<SendLeg>, asset_id: Option<Seq<char>>) -> Seq<
    SpendOutputView,
> {
    legs.map_values(
        |leg: SendLeg| SpendOutputView { address: leg.to@, amount: leg.amount.0, asset_id },
    )
}

/// The outcome of [`SdkSpendBuilder::build_multi_send_xch`].
pub open spec fn multi_send_xch_outcome<I: SpendInputs>(
    builder: &SdkSpendBuilder<I>,
    request: MultiSendXchRequest,
) -> Result<UnsignedSpendView, WalletErrorView> {
    let legs = request.legs@;
    let fee = request.fee.0;
    match destinations_of(legs) {
        Err(error) => Err(error),
        Ok(destinations) => if legs_total(legs) > u64::MAX {
            Err(invalid("multi-send total overflows"@))
        } else if legs_total(legs) + fee > u64::MAX {
            Err(invalid("legs + fee overflows"@))
        } else {
            pay_xch(
                builder,
                request.identity@,
                destinations,
                legs_total(legs) + fee as nat,
                fee,
                plain_summary(leg_lines(legs, None), fee),
            )
        },
    }
}

/// The outcome of [`SdkSpendBuilder::build_multi_send_cat`].
pub open spec fn multi_send_cat_outcome<I: SpendInputs>(
    builder: &SdkSpendBuilder<I>,
    request: MultiSendCatRequest,
) -> Result<UnsignedSpendView, WalletErrorView> {
    let legs = request.legs@;
    let fee = request.fee.0;
    match destinations_of(legs) {
        Err(error) => Err(error),
        Ok(destinations) => if legs_total(legs) > u64::MAX {
            Err(invalid("multi-send total overflows"@))
        } else {
            match builder.inputs.change_of(request.identity@) {
                Err(error) => Err(error),
                Ok(change_ph) => match builder.inputs.cats_of(request.identity@, request.asset_id@) {
                    Err(error) => Err(error),
                    Ok(cats) => if cats.len() == 0 || total_of_coins(cat_coins(cats)) < legs_total(
                        legs,
                    ) {
                        Err(
                            short_of_funds(
                                "insufficient "@ + request.asset_id@ + ": have "@ + decimal(
                                    total_of_coins(cat_coins(cats)),
                                ) + ", need "@ + decimal(legs_total(legs)),
                            ),
                        )
                    } else {
                        pay_cat(
                            builder,
                            request.identity@,
                            cats,
                            destinations,
                            change_ph,
                            legs_total(legs),
                            fee,
                            plain_summary(leg_lines(legs, Some(request.asset_id@)), fee),
                        )
                    },
                },
            }
        },
    }
}

/// The coins that a merge takes in add up to an amount that fits a machine word.
pub open spec fn merged_fits<I: SpendInputs>(
    builder: &SdkSpendBuilder<I>,
    identity: IdentityView,
) -> bool {
    builder.inputs.xch_coins(identity) matches Ok(coins) ==> coins.len() >= 2 ==> total_of_coins(
        consolidation_of(coins, builder.coin_cap as nat),
    ) <= u64::MAX
}

/// What the lead coin of a merge carries.
pub open spec fn combine_conditions(change_ph: Bytes32, merged: u64, fee: u64) -> Seq<Condition> {
    seq![Condition::CreateCoin { puzzle_hash: change_ph, amount: merged, hint: None }]
        + fee_condition(fee)
}

/// The outcome of [`SdkSpendBuilder::build_combine_xch`].
pub open spec fn combine_outcome<I: SpendInputs>(
    builder: &SdkSpendBuilder<I>,
    request: CombineXchRequest,
) -> Result<UnsignedSpendView, WalletErrorView> {
    let fee = request.fee.0;
    match builder.inputs.change_of(request.identity@) {
        Err(error) => Err(error),
        Ok(change_ph) => match builder.inputs.xch_coins(request.identity@) {
            Err(error) => Err(error),
            Ok(coins) => {
                let merging = consolidation_of(coins, builder.coin_cap as nat);
                let total = total_of_coins(merging);
                if coins.len() < 2 {
                    Err(invalid("consolidation requires at least two coins"@))
                } else if total <= fee {
                    Err(
                        short_of_funds(
                            "combining "@ + decimal(total) + " mojos cannot also pay a "@ + decimal(
                                fee as nat,
                            ) + " mojo fee"@,
                        ),
                    )
                } else {
                    match group_spends(
                        &builder.inputs,
                        merging,
                        combine_conditions(change_ph, (total - fee) as u64, fee),
                        merging.len(),
                    ) {
                        Err(error) => Err(error),
                        Ok(spends) => sealed(
                            spends,
                            builder.network,
                            plain_summary(Seq::empty(), fee),
                        ),
                    }
                }
            },
        },
    }
}

/// The coin that holds the most; of equal ones the one with the smallest id.
pub open spec fn largest_of(coins: Seq<WalletCoin>) -> WalletCoin
    recommends
        coins.len() > 0,
    decreases coins.len(),
{
    if coins.len() <= 1 {
        coins[0]
    } else {
        let best = largest_of(coins.drop_last());
        if ranks_before(best, coins.last()) {
            best
        } else {
            coins.last()
        }
    }
}

/// The amount of the part at a position: all parts are equal, and the first also takes what the
/// division leaves over.
pub open spec fn part_amount(divisible: nat, parts: nat, i: int) -> nat {
    if i == 0 {
        divisible / parts + divisible % parts
    } else {
        divisible / parts
    }
}

/// The new coins of a split.
pub open spec fn part_conditions(change_ph: Bytes32, divisible: nat, parts: nat) -> Seq<Condition> {
    Seq::new(
        parts,
        |i: int|
            Condition::CreateCoin {
                puzzle_hash: change_ph,
                amount: part_amount(divisible, parts, i) as u64,
                hint: None,
            },
    )
}

/// What the coin of a split carries.
pub open spec fn split_conditions(
    change_ph: Bytes32,
    divisible: nat,
    parts: nat,
    fee: u64,
) -> Seq<Condition> {
    part_conditions(change_ph, divisible, parts) + fee_condition(fee)
}

/// The outcome of [`SdkSpendBuilder::build_split_xch`].
pub open spec fn split_outcome<I: SpendInputs>(
    builder: &SdkSpendBuilder<I>,
    request: SplitXchRequest,
) -> Result<UnsignedSpendView, WalletErrorView> {
    let fee = request.fee.0;
    let parts = request.parts as nat;
    if parts < 2 {
        Err(invalid("a split must produce at least two coins"@))
    } else {
        match builder.inputs.change_of(request.identity@) {
            Err(error) => Err(error),
            Ok(change_ph) => match builder.inputs.xch_coins(request.identity@) {
                Err(error) => Err(error),
                Ok(coins) => {
                    let coin = largest_of(coins);
                    if coins.len() == 0 {
                        Err(short_of_funds("no spendable XCH coin to split"@))
                    } else if coin.amount - fee < parts {
                        Err(
                            short_of_funds(
                                decimal(coin.amount as nat) + " mojos cannot pay a "@ + decimal(
                                    fee as nat,
                                ) + " mojo fee and still split "@ + decimal(parts) + " ways"@,
                            ),
                        )
                    } else {
                        match group_spends(
                            &builder.inputs,
                            seq![coin],
                            split_conditions(change_ph, (coin.amount - fee) as nat, parts, fee),
                            1,
                        ) {
                            Err(error) => Err(error),
                            Ok(spends) => sealed(
                                spends,
                                builder.network,
                                plain_summary(Seq::empty(), fee),
                            ),
                        }
                    }
                },
            },
        }
    }
}

impl<I: SpendInputs> SdkSpendBuilder<I> {
    /// Builds one spend that pays a set of XCH destinations.
    pub fn build_multi_send_xch(&self, request: MultiSendXchRequest) -> (result: WalletResult<
        UnsignedSpend,
    >)
        requires
            legs_pay(request.legs@) && legs_total(request.legs@) + request.fee.0 <= u64::MAX
                ==> xch_fits(&self.inputs, request.identity@),
        ensures
            unsigned_view(result) == multi_send_xch_outcome(self, request),
            result matches Ok(unsigned) ==> drawn_xch(
                self,
                request.identity@,
                legs_total(request.legs@) + request.fee.0 as nat,
                "XCH"@,
            ) == Ok::<Seq<WalletCoin>, WalletErrorView>(spent_coins(unsigned@.coin_spends)),
    {
        let fee: u64 = request.fee.mojos();
        let destinations = match resolve_legs(&request.legs) {
            Ok(destinations) => destinations,
            Err(error) => return Err(error),
        };
        let payout: u64 = match total_of(&request.legs) {
            Ok(payout) => payout,
            Err(error) => return Err(error),
        };
        let target: u64 = match payout.checked_add(fee) {
            Some(target) => target,
            None => return Err(WalletError::invalid_input("legs + fee overflows".to_owned())),
        };
        proof {
            a_multi_send_pays_every_leg(request.legs@);
            lemma_legs_pay(request.legs@);
        }
        let summary = TransactionSummary::new(lines_of(&request.legs, &None), request.fee);
        self.pay_xch_destinations(&request.identity, &destinations, target, fee, summary)
    }

    /// Builds one spend that pays a set of destinations of one CAT asset.
    pub fn build_multi_send_cat(&self, request: MultiSendCatRequest) -> (result: WalletResult<
        UnsignedSpend,
    >)
        requires
            legs_pay(request.legs@) && request.fee.0 > 0 ==> xch_fits(
                &self.inputs,
                request.identity@,
            ),
            legs_pay(request.legs@) ==> cat_fits(
                &self.inputs,
                request.identity@,
                request.asset_id@,
            ),
        ensures
            unsigned_view(result) == multi_send_cat_outcome(self, request),
            result matches Ok(unsigned) ==> draws_cats(
                self,
                request.identity@,
                request.asset_id@,
                request.fee.0,
                unsigned@.coin_spends,
            ),
    {
        let fee: u64 = request.fee.mojos();
        let destinations = match resolve_legs(&request.legs) {
            Ok(destinations) => destinations,
            Err(error) => return Err(error),
        };
        let payout: u64 = match total_of(&request.legs) {
            Ok(payout) => payout,
            Err(error) => return Err(error),
        };
        proof {
            lemma_legs_pay(request.legs@);
        }
        let change_ph = match self.inputs.change_puzzle_hash(&request.identity) {
            Ok(change_ph) => change_ph,
            Err(error) => return Err(error),
        };
        let cats = match self.inputs.spendable_cat(&request.identity, &request.asset_id) {
            Ok(cats) => cats,
            Err(error) => return Err(error),
        };
        let total: u64 = sum_of_cats(&cats);
        if cats.len() == 0 || total < payout {
            let mut message = joined3("insufficient ", request.asset_id.0.as_str(), ": have ");
            message.append(decimal_text(total).as_str());
            message.append(", need ");
            message.append(decimal_text(payout).as_str());
            return Err(WalletError::new(WalletErrorCode::InsufficientFunds, message));
        }
        let asset_id = Some(request.asset_id.clone());
        let summary = TransactionSummary::new(lines_of(&request.legs, &asset_id), request.fee);
        self.pay_cat_destinations(
            &request.identity,
            &cats,
            &destinations,
            &change_ph,
            payout,
            fee,
            summary,
        )
    }

    /// Builds a spend that merges the wallet's largest XCH coins into one.
    pub fn build_combine_xch(&self, request: CombineXchRequest) -> (result: WalletResult<
        UnsignedSpend,
    >)
        requires
            merged_fits(self, request.identity@),
        ensures
            unsigned_view(result) == combine_outcome(self, request),
            result matches Ok(unsigned) ==> (self.inputs.xch_coins(request.identity@) matches Ok(
                coins,
            ) && spent_coins(unsigned@.coin_spends) == consolidation_of(
                coins,
                self.coin_cap as nat,
            )),
    {
        let fee: u64 = request.fee.mojos();
        let change_ph = match self.inputs.change_puzzle_hash(&request.identity) {
            Ok(change_ph) => change_ph,
            Err(error) => return Err(error),
        };
        let coins = match self.inputs.spendable_xch(&request.identity) {
            Ok(coins) => coins,
            Err(error) => return Err(error),
        };
        let selected = match select_for_consolidation(coins.as_slice(), self.coin_cap) {
            Ok(selected) => selected,
            Err(error) => return Err(error),
        };
        let total: u64 = sum_of_coins(selected.as_slice());
        if total <= fee {
            let mut message = joined3(
                "combining ",
                decimal_text(total).as_str(),
                " mojos cannot also pay a ",
            );
            message.append(decimal_text(fee).as_str());
            message.append(" mojo fee");
            return Err(WalletError::new(WalletErrorCode::InsufficientFunds, message));
        }
        let merged: u64 = total - fee;
        let mut conditions: Vec<Condition> = Vec::new();
        conditions.push(
            Condition::CreateCoin { puzzle_hash: change_ph, amount: merged, hint: None },
        );
        if fee > 0 {
            conditions.push(Condition::ReserveFee { amount: fee });
        }
        assert(conditions@ =~= combine_conditions(change_ph, merged, fee));
        let coin_spends = match self.spend_group(&selected, conditions) {
            Ok(coin_spends) => coin_spends,
            Err(error) => return Err(error),
        };
        match assert_conserved(total, merged, fee) {
            Ok(()) => {},
            Err(error) => return Err(error),
        }
        assert(spent_coins(spends_view(coin_spends@)) =~= selected@);
        self.finish_self_directed(coin_spends, request.fee)
    }

    /// Builds a spend that splits the wallet's largest XCH coin into equal parts. What the
    /// division leaves over goes to the first part.
    pub fn build_split_xch(&self, request: SplitXchRequest) -> (result: WalletResult<UnsignedSpend>)
        ensures
            unsigned_view(result) == split_outcome(self, request),
            result matches Ok(unsigned) ==> (self.inputs.xch_coins(request.identity@) matches Ok(
                coins,
            ) && spent_coins(unsigned@.coin_spends) == seq![largest_of(coins)]),
    {
        let fee: u64 = request.fee.mojos();
        let parts: u64 = request.parts as u64;
        if parts < 2 {
            return Err(
                WalletError::invalid_input("a split must produce at least two coins".to_owned()),
            );
        }
        let change_ph = match self.inputs.change_puzzle_hash(&request.identity) {
            Ok(change_ph) => change_ph,
            Err(error) => return Err(error),
        };
        let coins = match self.inputs.spendable_xch(&request.identity) {
            Ok(coins) => coins,
            Err(error) => return Err(error),
        };
        let selected = match largest_spendable(&coins) {
            Ok(selected) => selected,
            Err(error) => return Err(error),
        };
        let total: u64 = selected.amount;
        if total < fee || total - fee < parts {
            let mut message = joined(decimal_text(total).as_str(), " mojos cannot pay a ");
            message.append(decimal_text(fee).as_str());
            message.append(" mojo fee and still split ");
            message.append(decimal_text(parts).as_str());
            message.append(" ways");
            return Err(WalletError::new(WalletErrorCode::InsufficientFunds, message));
        }
        let divisible: u64 = total - fee;
        let conditions = splitting_conditions(&change_ph, divisible, parts, fee);
        let mut group: Vec<WalletCoin> = Vec::new();
        group.push(selected);
        assert(group@ =~= seq![selected]);
        let coin_spends = match self.spend_group(&group, conditions) {
            Ok(coin_spends) => coin_spends,
            Err(error) => return Err(error),
        };
        match assert_conserved(total, divisible, fee) {
            Ok(()) => {},
            Err(error) => return Err(error),
        }
        assert(spent_coins(spends_view(coin_spends@)) =~= group@);
        self.finish_self_directed(coin_spends, request.fee)
    }

    /// Finishes a spend whose whole value stays with the wallet. It pays nobody, so its summary
    /// lists the fee and nothing else.
    pub(crate) fn finish_self_directed(&self, coin_spends: Vec<WalletSpend>, fee: Amount) -> (result:
        WalletResult<UnsignedSpend>)
        ensures
            unsigned_view(result) == sealed(
                spends_view(coin_spends@),
                self.network,
                plain_summary(Seq::empty(), fee.0),
            ),
    {
        let outputs: Vec<SpendOutput> = Vec::new();
        assert(outputs_view(outputs@) =~= Seq::empty());
        self.finish_unsigned(coin_spends, TransactionSummary::new(outputs, fee))
    }
}

/// Resolved legs pay out what the legs say.
proof fn lemma_legs_total(legs: Seq<SendLeg>, n: nat)
    requires
        n <= legs.len(),
    ensures
        legs_resolved(legs, n) matches Ok(destinations) ==> destinations.len() == n && paid_out(
            destinations,
        ) == legs_total(legs.take(n as int)),
    decreases n,
{
    if n > 0 {
        lemma_legs_total(legs, (n - 1) as nat);
        assert(legs.take(n as int).drop_last() =~= legs.take(n - 1));
        if let Ok(destinations) = legs_resolved(legs, n) {
            let front = legs_resolved(legs, (n - 1) as nat)->Ok_0;
            assert(destinations.drop_last() =~= front);
        }
    }
}

proof fn lemma_legs_total_of_prefix(legs: Seq<SendLeg>, i: int, j: int)
    requires
        0 <= i <= j <= legs.len(),
    ensures
        legs_total(legs.take(i)) <= legs_total(legs.take(j)),
    decreases j - i,
{
    if i < j {
        lemma_legs_total_of_prefix(legs, i, j - 1);
        assert(legs.take(j).drop_last() =~= legs.take(j - 1));
    }
}

proof fn lemma_legs_failure(legs: Seq<SendLeg>, i: nat, n: nat)
    requires
        i <= n,
        legs_resolved(legs, i) is Err,
    ensures
        legs_resolved(legs, n) == legs_resolved(legs, i),
    decreases n - i,
{
    if i < n {
        lemma_legs_failure(legs, i, (n - 1) as nat);
    }
}

/// A multi-send pays every leg its own amount, in order, and all of them together what the legs
/// add up to.
pub proof fn a_multi_send_pays_every_leg(legs: Seq<SendLeg>)
    ensures
        destinations_of(legs) matches Ok(destinations) ==> {
            &&& destinations.len() == legs.len()
            &&& paid_out(destinations) == legs_total(legs)
            &&& forall|i: int|
                0 <= i < legs.len() ==> (#[trigger] destinations[i]).1 == legs[i].amount.0
                    && legs[i].amount.0 > 0 && destination_of(legs[i].to@) == Ok::<
                    Bytes32,
                    WalletErrorView,
                >(destinations[i].0)
        },
{
    if legs.len() > 0 {
        lemma_legs_total(legs, legs.len());
        assert(legs.take(legs.len() as int) =~= legs);
        lemma_legs_pointwise(legs, legs.len());
    }
}

/// Legs that resolve pay something each.
proof fn lemma_legs_pay(legs: Seq<SendLeg>)
    requires
        destinations_of(legs) is Ok,
        legs_total(legs) <= u64::MAX,
    ensures
        legs_pay(legs),
{
    a_multi_send_pays_every_leg(legs);
    let destinations = destinations_of(legs)->Ok_0;
    assert forall|i: int| 0 <= i < legs.len() implies (#[trigger] legs[i]).amount.0 > 0 by {
        assert(destinations[i].1 == legs[i].amount.0);
    }
}

proof fn lemma_legs_pointwise(legs: Seq<SendLeg>, n: nat)
    requires
        n <= legs.len(),
    ensures
        legs_resolved(legs, n) matches Ok(destinations) ==> destinations.len() == n && forall|i: int|
            0 <= i < n ==> (#[trigger] destinations[i]).1 == legs[i].amount.0 && legs[i].amount.0
                > 0 && destination_of(legs[i].to@) == Ok::<Bytes32, WalletErrorView>(
                destinations[i].0,
            ),
    decreases n,
{
    if n > 0 {
        lemma_legs_pointwise(legs, (n - 1) as nat);
        if let Ok(destinations) = legs_resolved(legs, n) {
            let front = legs_resolved(legs, (n - 1) as nat)->Ok_0;
            assert forall|i: int| 0 <= i < n implies (#[trigger] destinations[i]).1
                == legs[i].amount.0 && legs[i].amount.0 > 0 && destination_of(legs[i].to@) == Ok::<
                Bytes32,
                WalletErrorView,
            >(destinations[i].0) by {
                if i < n - 1 {
                    assert(destinations[i] == front[i]);
                }
            }
        }
    }
}

/// A merge conserves value and leaves exactly one coin.
pub proof fn a_combine_conserves_value(change_ph: Bytes32, total: u64, fee: u64)
    requires
        fee < total,
    ensures
        created_total(combine_conditions(change_ph, (total - fee) as u64, fee)) + fee == total,
        forall|i: int|
            0 <= i < combine_conditions(change_ph, (total - fee) as u64, fee).len() ==> ((
            #[trigger] combine_conditions(change_ph, (total - fee) as u64, fee)[i]) is CreateCoin
                <==> i == 0),
{
    let merged = (total - fee) as u64;
    let head = seq![Condition::CreateCoin { puzzle_hash: change_ph, amount: merged, hint: None }];
    assert(head.drop_last() =~= Seq::empty());
    reveal_with_fuel(created_total, 2);
    lemma_created_by_rest(change_ph, 0, fee);
    lemma_created_total_joined(head, fee_condition(fee));
}

#[verifier::spinoff_prover]
proof fn lemma_parts_total(change_ph: Bytes32, divisible: nat, parts: nat, n: nat)
    requires
        n <= parts,
        2 <= parts <= divisible <= u64::MAX,
    ensures
        created_total(part_conditions(change_ph, divisible, parts).take(n as int)) == if n == 0 {
            0
        } else {
            n * (divisible / parts) + divisible % parts
        },
    decreases n,
{
    let all = part_conditions(change_ph, divisible, parts);
    lemma_part_fits(divisible, parts);
    if n > 0 {
        lemma_parts_total(change_ph, divisible, parts, (n - 1) as nat);
        assert(all.take(n as int).drop_last() =~= all.take(n - 1));
        assert(all.take(n as int).last() == all[n - 1]);
        assert(part_amount(divisible, parts, n - 1) as u64 == part_amount(divisible, parts, n - 1));
        let each = divisible / parts;
        assert(n * each == (n - 1) * each + each) by (nonlinear_arith);
        if n == 1 {
            assert(all.take(0) =~= Seq::empty());
            assert(0 * each == 0);
        }
    }
}

proof fn lemma_part_fits(divisible: nat, parts: nat)
    requires
        2 <= parts <= divisible <= u64::MAX,
    ensures
        divisible / parts >= 1,
        divisible / parts + divisible % parts <= divisible,
        divisible == parts * (divisible / parts) + divisible % parts,
{
    let d = divisible as int;
    let p = parts as int;
    lemma_fundamental_div_mod(d, p);
    assert(0 <= d % p < p) by (nonlinear_arith)
        requires
            p > 0,
    ;
    assert(d / p >= 1) by (nonlinear_arith)
        requires
            d == p * (d / p) + d % p,
            0 <= d % p < p,
            d >= p,
            p > 0,
    ;
    assert(d / p + d % p <= d) by (nonlinear_arith)
        requires
            d == p * (d / p) + d % p,
            p >= 1,
            d / p >= 0,
            d >= 0,
    ;
}

/// A split makes exactly the requested number of coins, none of them empty, and keeps every
/// mojo: the parts add up to what is divided.
pub proof fn a_split_keeps_every_mojo(change_ph: Bytes32, divisible: nat, parts: nat, fee: u64)
    requires
        2 <= parts <= divisible <= u64::MAX,
    ensures
        part_conditions(change_ph, divisible, parts).len() == parts,
        created_total(split_conditions(change_ph, divisible, parts, fee)) == divisible,
        forall|i: int|
            0 <= i < parts ==> 1 <= #[trigger] part_amount(divisible, parts, i) <= u64::MAX,
{
    let all = part_conditions(change_ph, divisible, parts);
    lemma_part_fits(divisible, parts);
    lemma_parts_total(change_ph, divisible, parts, parts);
    assert(all.take(parts as int) =~= all);
    lemma_created_by_rest(change_ph, 0, fee);
    lemma_created_total_joined(all, fee_condition(fee));
}

/// No coin ranks before the one that a split reshapes.
pub proof fn the_largest_coin_is_split(coins: Seq<WalletCoin>)
    requires
        coins.len() > 0,
    ensures
        coins.contains(largest_of(coins)),
        forall|i: int| 0 <= i < coins.len() ==> (#[trigger] coins[i]).amount <= largest_of(coins).amount,
    decreases coins.len(),
{
    if coins.len() > 1 {
        the_largest_coin_is_split(coins.drop_last());
        let front = coins.drop_last();
        let best = largest_of(front);
        let at = choose|i: int| 0 <= i < front.len() && front[i] == best;
        assert(coins[at] == best);
        assert(coins[coins.len() - 1] == coins.last());
        assert forall|i: int| 0 <= i < coins.len() implies (#[trigger] coins[i]).amount
            <= largest_of(coins).amount by {
            if i < front.len() {
                assert(front[i] == coins[i]);
            }
        }
    } else {
        assert(coins[0] == largest_of(coins));
    }
}

/// One output line per leg.
fn lines_of(legs: &Vec<SendLeg>, asset_id: &Option<AssetId>) -> (lines: Vec<SpendOutput>)
    ensures
        outputs_view(lines@) == leg_lines(
            legs@,
            crate::types::value::optional_asset(*asset_id),
        ),
{
    let mut lines: Vec<SpendOutput> = Vec::new();
    let mut i: usize = 0;
    let ghost asset_view = crate::types::value::optional_asset(*asset_id);
    while i < legs.len()
        invariant
            i <= legs.len(),
            lines@.len() == i,
            asset_view == crate::types::value::optional_asset(*asset_id),
            forall|k: int|
                0 <= k < i ==> (#[trigger] lines@[k])@ == leg_lines(legs@, asset_view)[k],
        decreases legs.len() - i,
    {
        lines.push(
            SpendOutput {
                address: legs[i].to.clone(),
                amount: legs[i].amount,
                asset_id: crate::types::value::clone_asset(asset_id),
            },
        );
        i = i + 1;
    }
    assert(outputs_view(lines@) =~= leg_lines(legs@, asset_view));
    lines
}

/// The conditions that the coin of a split carries.
fn splitting_conditions(change_ph: &Bytes32, divisible: u64, parts: u64, fee: u64) -> (conditions:
    Vec<Condition>)
    requires
        2 <= parts <= divisible,
    ensures
        conditions@ == split_conditions(*change_ph, divisible as nat, parts as nat, fee),
{
    let each: u64 = divisible / parts;
    let remainder: u64 = divisible % parts;
    proof {
        lemma_part_fits(divisible as nat, parts as nat);
    }
    let mut conditions: Vec<Condition> = Vec::new();
    let mut index: u64 = 0;
    while index < parts
        invariant
            2 <= parts <= divisible,
            index <= parts,
            each == divisible as nat / parts as nat,
            remainder == divisible as nat % parts as nat,
            each + remainder <= divisible,
            conditions@.len() == index,
            forall|k: int|
                0 <= k < index ==> #[trigger] conditions@[k] == part_conditions(
                    *change_ph,
                    divisible as nat,
                    parts as nat,
                )[k],
        decreases parts - index,
    {
        let amount: u64 = if index == 0 {
            each + remainder
        } else {
            each
        };
        conditions.push(Condition::CreateCoin { puzzle_hash: *change_ph, amount, hint: None });
        index = index + 1;
    }
    if fee > 0 {
        conditions.push(Condition::ReserveFee { amount: fee });
    }
    assert(conditions@ =~= split_conditions(*change_ph, divisible as nat, parts as nat, fee));
    conditions
}

/// Resolves every leg to its puzzle hash and amount. An empty list and a zero leg are refused: a
/// destination that the caller listed is never dropped silently.
pub fn resolve_legs(legs: &Vec<SendLeg>) -> (result: WalletResult<Vec<(Bytes32, u64)>>)
    ensures
        match result {
            Ok(destinations) => destinations_of(legs@) == Ok::<
                Seq<(Bytes32, u64)>,
                WalletErrorView,
            >(destinations@),
            Err(error) => destinations_of(legs@) == Err::<Seq<(Bytes32, u64)>, WalletErrorView>(
                error@,
            ),
        },
{
    if legs.len() == 0 {
        return Err(
            WalletError::invalid_input(
                "a multi-send must have at least one destination".to_owned(),
            ),
        );
    }
    let mut destinations: Vec<(Bytes32, u64)> = Vec::new();
    let mut i: usize = 0;
    while i < legs.len()
        invariant
            i <= legs.len(),
            legs_resolved(legs@, i as nat) == Ok::<Seq<(Bytes32, u64)>, WalletErrorView>(
                destinations@,
            ),
            legs@.len() > 0,
        decreases legs.len() - i,
    {
        let amount: u64 = legs[i].amount.mojos();
        if amount == 0 {
            proof {
                lemma_legs_failure(legs@, i as nat + 1, legs@.len());
            }
            return Err(
                WalletError::invalid_input(
                    joined3("destination ", legs[i].to.0.as_str(), " was given a zero amount"),
                ),
            );
        }
        match decode_address(&legs[i].to) {
            Ok(puzzle_hash) => destinations.push((puzzle_hash, amount)),
            Err(error) => {
                proof {
                    lemma_legs_failure(legs@, i as nat + 1, legs@.len());
                }
                return Err(error);
            },
        }
        i = i + 1;
    }
    Ok(destinations)
}

/// What the legs pay out in total, if it fits a machine word.
pub fn total_of(legs: &Vec<SendLeg>) -> (result: WalletResult<u64>)
    ensures
        match result {
            Ok(total) => total == legs_total(legs@),
            Err(error) => legs_total(legs@) > u64::MAX && error@ == invalid(
                "multi-send total overflows"@,
            ),
        },
{
    let mut total: u64 = 0;
    let mut i: usize = 0;
    while i < legs.len()
        invariant
            i <= legs.len(),
            total == legs_total(legs@.take(i as int)),
        decreases legs.len() - i,
    {
        proof {
            assert(legs@.take(i as int + 1).drop_last() =~= legs@.take(i as int));
        }
        match total.checked_add(legs[i].amount.mojos()) {
            Some(sum) => total = sum,
            None => {
                proof {
                    lemma_legs_total_of_prefix(legs@, i as int + 1, legs@.len() as int);
                    assert(legs@.take(legs@.len() as int) =~= legs@);
                }
                return Err(WalletError::invalid_input("multi-send total overflows".to_owned()));
            },
        }
        i = i + 1;
    }
    assert(legs@.take(i as int) =~= legs@);
    Ok(total)
}

/// The wallet's largest coin; of equal ones the one with the smallest id.
pub fn largest_spendable(coins: &Vec<WalletCoin>) -> (result: WalletResult<WalletCoin>)
    ensures
        match result {
            Ok(coin) => coins@.len() > 0 && coin == largest_of(coins@),
            Err(error) => coins@.len() == 0 && error@ == short_of_funds(
                "no spendable XCH coin to split"@,
            ),
        },
{
    if coins.len() == 0 {
        return Err(
            WalletError::new(
                WalletErrorCode::InsufficientFunds,
                "no spendable XCH coin to split".to_owned(),
            ),
        );
    }
    let mut best: WalletCoin = coins[0];
    let mut i: usize = 1;
    assert(coins@.take(1) =~= seq![coins@[0]]);
    while i < coins.len()
        invariant
            1 <= i <= coins.len(),
            best == largest_of(coins@.take(i as int)),
        decreases coins.len() - i,
    {
        assert(coins@.take(i as int + 1).drop_last() =~= coins@.take(i as int));
        if !super::selection::is_ranked_before(&best, &coins[i]) {
            best = coins[i];
        }
        i = i + 1;
    }
    assert(coins@.take(i as int) =~= coins@);
    Ok(best)
}

} // verus!
