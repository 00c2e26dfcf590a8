//! Covered options: mint, transfer and exercise.
//!
//! A mint locks XCH in an option singleton. Its funding coin has no change output, so what the
//! coin holds beyond the locked value and the singleton goes to the farmer; the caller bounds
//! that. Transfer and exercise are checked and answered with
//! [`WalletErrorCode::NotImplemented`].

use vstd::prelude::*;
use vstd::string::*;

use super::build_offers::unimplemented;
use super::builder::{
    sealed_payment, spend_failed, spent_coins, unsigned_view, SdkSpendBuilder, SpendInputs,
};
use super::option_driver::{
    mint_option, minted_of, MintTerms, MintedIds, OptionFault, OptionFaultView,
};
use super::parse::{hex32_of, parse_puzzle_hash};
use super::selection::sum_of_coins;
use crate::text::{decimal, decimal_text, hex_encode, hex_text, joined, joined3};
use crate::types::chain::{
    id_of, spends_view, total_of_coins, Bytes32, WalletCoin, WalletSpend, WalletSpendView,
};
use crate::types::error::{
    invalid, short_of_funds, spend_fault, WalletError, WalletErrorCode, WalletErrorView,
    WalletResult,
};
use crate::types::identity::{IdentityRef, IdentityView};
use crate::types::options::{
    ExerciseOptionRequest, HandleView, MintOptionRequest, MintedOption, MintedView, OptionHandle,
    OptionStrike, TransferOptionRequest,
};
use crate::types::spend::{UnsignedSpend, UnsignedSpendView};
use crate::types::value::{Amount, Network, Puzzlehash};

verus! {

/// The smallest of the first `n` coins that covers an amount; of equal ones the first.
pub open spec fn smallest_covering(coins: Seq<WalletCoin>, needed: u64, n: nat) -> Option<
    WalletCoin,
>
    decreases n,
{
    if n == 0 {
        None
    } else {
        let coin = coins[n - 1];
        match smallest_covering(coins, needed, (n - 1) as nat) {
            None => if coin.amount >= needed {
                Some(coin)
            } else {
                None
            },
            Some(best) => if needed <= coin.amount < best.amount {
                Some(coin)
            } else {
                Some(best)
            },
        }
    }
}

/// Where no coin covers an amount, the coins add up to an amount that fits a machine word.
pub open spec fn shortage_fits<I: SpendInputs>(
    inputs: &I,
    identity: IdentityView,
    needed: u64,
) -> bool {
    inputs.xch_coins(identity) matches Ok(coins) ==> smallest_covering(coins, needed, coins.len())
        is None ==> total_of_coins(coins) <= u64::MAX
}

/// The coin that funds a mint: the smallest that covers the need, unless it exceeds the ceiling.
pub open spec fn funding_of(coins: Seq<WalletCoin>, needed: u64, fee_ceiling: u64) -> Result<
    WalletCoin,
    WalletErrorView,
> {
    match smallest_covering(coins, needed, coins.len()) {
        None => Err(
            short_of_funds(
                "no single XCH coin covers the option underlying + singleton ("@ + decimal(
                    needed as nat,
                ) + "); largest available across "@ + decimal(coins.len()) + " coins totals "@
                    + decimal(total_of_coins(coins)),
            ),
        ),
        Some(coin) => if coin.amount > fee_ceiling {
            Err(
                short_of_funds(
                    "smallest funding coin ("@ + decimal(coin.amount as nat)
                        + ") exceeds underlying + singleton + max fee ("@ + decimal(
                        fee_ceiling as nat,
                    ) + "); split a coin to that size first (mint has no change output)"@,
                ),
            )
        } else {
            Ok(coin)
        },
    }
}

/// The error that an option fault becomes.
pub open spec fn option_error(fault: OptionFaultView) -> WalletErrorView {
    match fault {
        OptionFaultView::InvalidInput(message) => invalid(message),
        OptionFaultView::Other(text) => spend_fault("dig-options: "@ + text),
    }
}

/// The party that a request names, or the one that stands in for it.
pub open spec fn party_of(
    named: Option<Puzzlehash>,
    otherwise: Result<Bytes32, WalletErrorView>,
) -> Result<Bytes32, WalletErrorView> {
    match named {
        Some(puzzle_hash) => hex32_of(puzzle_hash@, "puzzle hash"@),
        None => otherwise,
    }
}

/// The strike in mojos.
pub open spec fn strike_amount(strike: OptionStrike) -> u64 {
    match strike {
        OptionStrike::Xch { amount } => amount.0,
    }
}

/// A mint made ready for review from what the option driver wrote.
pub open spec fn finished_mint(
    spends: Seq<WalletSpendView>,
    ids: Option<MintedIds>,
    funding: WalletCoin,
    terms: MintTerms,
    network: Network,
) -> Result<MintedView, WalletErrorView> {
    match ids {
        None => Err(spend_fault("dig-options create did not return the created option"@)),
        Some(minted) => match sealed_payment(
            spends,
            network,
            terms.owner_puzzle_hash,
            terms.underlying_amount,
            None,
            (funding.amount - terms.underlying_amount - 1) as u64,
        ) {
            Err(error) => Err(error),
            Ok(unsigned) => Ok(
                MintedView {
                    unsigned,
                    handle: HandleView {
                        launcher_id: hex_text(minted.launcher_id@),
                        creator_puzzle_hash: hex_text(terms.creator_puzzle_hash@),
                        owner_puzzle_hash: hex_text(terms.owner_puzzle_hash@),
                        underlying_amount: terms.underlying_amount,
                        strike: OptionStrike::Xch { amount: Amount(terms.strike_amount) },
                        expiry_seconds: terms.expiry_seconds,
                        underlying_coin_id: hex_text(id_of(minted.underlying_coin)@),
                        funding_coin_id: hex_text(id_of(funding)@),
                    },
                },
            ),
        },
    }
}

/// The parties of a mint: the creator, then the holder, who is the creator unless named.
pub open spec fn parties_of<I: SpendInputs>(inputs: &I, request: MintOptionRequest) -> Result<
    (Bytes32, Bytes32),
    WalletErrorView,
> {
    match party_of(request.creator_puzzle_hash, inputs.change_of(request.identity@)) {
        Err(error) => Err(error),
        Ok(creator) => match party_of(request.owner_puzzle_hash, Ok(creator)) {
            Err(error) => Err(error),
            Ok(owner) => Ok((creator, owner)),
        },
    }
}

/// The coin that a mint draws.
pub open spec fn mint_funding<I: SpendInputs>(inputs: &I, request: MintOptionRequest) -> Result<
    WalletCoin,
    WalletErrorView,
> {
    let needed = request.underlying_amount.0 + 1;
    let ceiling = needed + request.fee.0;
    if needed > u64::MAX {
        Err(invalid("underlying amount overflows"@))
    } else if ceiling > u64::MAX {
        Err(invalid("underlying + fee overflows"@))
    } else {
        match inputs.xch_coins(request.identity@) {
            Err(error) => Err(error),
            Ok(coins) => funding_of(coins, needed as u64, ceiling as u64),
        }
    }
}

/// The outcome of [`SdkSpendBuilder::build_mint_option`].
pub open spec fn mint_outcome<I: SpendInputs>(
    builder: &SdkSpendBuilder<I>,
    request: MintOptionRequest,
) -> Result<MintedView, WalletErrorView> {
    if request.underlying_amount.0 == 0 {
        Err(invalid("an option underlying amount must be non-zero"@))
    } else {
        match parties_of(&builder.inputs, request) {
            Err(error) => Err(error),
            Ok((creator_puzzle_hash, owner_puzzle_hash)) => match mint_funding(
                &builder.inputs,
                request,
            ) {
                Err(error) => Err(error),
                Ok(funding) => match builder.inputs.key_of(funding.puzzle_hash) {
                    None => Err(
                        spend_fault("no public key for the mint funding coin's puzzle hash"@),
                    ),
                    Some(key) => {
                        let terms = MintTerms {
                            creator_puzzle_hash,
                            owner_puzzle_hash,
                            underlying_amount: request.underlying_amount.0,
                            strike_amount: strike_amount(request.strike),
                            expiry_seconds: request.expiry_seconds,
                        };
                        match minted_of(key, funding, terms) {
                            Err(fault) => Err(option_error(fault)),
                            Ok((spends, ids)) => finished_mint(
                                spends,
                                ids,
                                funding,
                                terms,
                                builder.network,
                            ),
                        }
                    },
                },
            },
        }
    }
}

/// What a mint returned, over views.
pub open spec fn minted_view(result: WalletResult<MintedOption>) -> Result<
    MintedView,
    WalletErrorView,
> {
    match result {
        Ok(minted) => Ok(minted@),
        Err(error) => Err(error@),
    }
}

impl<I: SpendInputs> SdkSpendBuilder<I> {
    /// Mints an option: locks XCH from one funding coin and issues the singleton to its holder.
    pub fn build_mint_option(&self, request: MintOptionRequest) -> (result: WalletResult<
        MintedOption,
    >)
        requires
            0 < request.underlying_amount.0 && request.underlying_amount.0 + 1 + request.fee.0
                <= u64::MAX ==> shortage_fits(
                &self.inputs,
                request.identity@,
                (request.underlying_amount.0 + 1) as u64,
            ),
        ensures
            minted_view(result) == mint_outcome(self, request),
            result matches Ok(minted) ==> {
                &&& self.inputs.xch_coins(request.identity@) matches Ok(coins)
                &&& funding_of(
                    coins,
                    (request.underlying_amount.0 + 1) as u64,
                    (request.underlying_amount.0 + 1 + request.fee.0) as u64,
                ) matches Ok(funding)
                &&& spent_coins(minted.unsigned@.coin_spends).contains(funding)
            },
    {
        let underlying: u64 = request.underlying_amount.mojos();
        if underlying == 0 {
            return Err(
                WalletError::invalid_input(
                    "an option underlying amount must be non-zero".to_owned(),
                ),
            );
        }
        let fee_max: u64 = request.fee.mojos();
        let creator_ph = match &request.creator_puzzle_hash {
            Some(puzzle_hash) => parse_puzzle_hash(puzzle_hash),
            None => self.inputs.change_puzzle_hash(&request.identity),
        };
        let creator_ph = match creator_ph {
            Ok(creator_ph) => creator_ph,
            Err(error) => return Err(error),
        };
        let owner_ph = match &request.owner_puzzle_hash {
            Some(puzzle_hash) => match parse_puzzle_hash(puzzle_hash) {
                Ok(owner_ph) => owner_ph,
                Err(error) => return Err(error),
            },
            None => creator_ph,
        };
        let needed: u64 = match underlying.checked_add(1) {
            Some(needed) => needed,
            None => return Err(
                WalletError::invalid_input("underlying amount overflows".to_owned()),
            ),
        };
        let fee_ceiling: u64 = match needed.checked_add(fee_max) {
            Some(fee_ceiling) => fee_ceiling,
            None => return Err(
                WalletError::invalid_input("underlying + fee overflows".to_owned()),
            ),
        };
        let funding = match self.pick_funding_coin(&request.identity, needed, fee_ceiling) {
            Ok(funding) => funding,
            Err(error) => return Err(error),
        };
        let key = match self.inputs.synthetic_key(&funding.puzzle_hash) {
            Some(key) => key,
            None => return Err(
                spend_failed("no public key for the mint funding coin's puzzle hash".to_owned()),
            ),
        };
        let OptionStrike::Xch { amount } = request.strike;
        let terms = MintTerms {
            creator_puzzle_hash: creator_ph,
            owner_puzzle_hash: owner_ph,
            underlying_amount: underlying,
            strike_amount: amount.mojos(),
            expiry_seconds: request.expiry_seconds,
        };
        match mint_option(&key, &funding, &terms) {
            Err(fault) => Err(map_options_error(fault)),
            Ok((coin_spends, ids)) => {
                proof {
                    let i = choose|i: int|
                        0 <= i < coin_spends@.len() && (#[trigger] coin_spends@[i]).coin == funding;
                    assert(spent_coins(spends_view(coin_spends@))[i] == funding);
                }
                self.finish_mint(coin_spends, ids, &funding, &terms)
            },
        }
    }

    /// Makes a written mint ready for review and fills in its handle.
    pub fn finish_mint(
        &self,
        coin_spends: Vec<WalletSpend>,
        ids: Option<MintedIds>,
        funding: &WalletCoin,
        terms: &MintTerms,
    ) -> (result: WalletResult<MintedOption>)
        requires
            funding.amount > terms.underlying_amount,
        ensures
            minted_view(result) == finished_mint(
                spends_view(coin_spends@),
                ids,
                *funding,
                *terms,
                self.network,
            ),
    {
        let minted = match ids {
            Some(minted) => minted,
            None => return Err(
                spend_failed("dig-options create did not return the created option".to_owned()),
            ),
        };
        let underlying_amount = Amount(terms.underlying_amount);
        let fee = Amount(funding.amount - terms.underlying_amount - 1);
        let unsigned = match self.finish_paying(
            coin_spends,
            &terms.owner_puzzle_hash,
            underlying_amount,
            None,
            fee,
        ) {
            Ok(unsigned) => unsigned,
            Err(error) => return Err(error),
        };
        let handle = OptionHandle {
            launcher_id: hex_encode(minted.launcher_id.0.as_slice()),
            creator_puzzle_hash: Puzzlehash(hex_encode(terms.creator_puzzle_hash.0.as_slice())),
            owner_puzzle_hash: Puzzlehash(hex_encode(terms.owner_puzzle_hash.0.as_slice())),
            underlying_amount,
            strike: OptionStrike::Xch { amount: Amount(terms.strike_amount) },
            expiry_seconds: terms.expiry_seconds,
            underlying_coin_id: hex_encode(minted.underlying_coin.coin_id().0.as_slice()),
            funding_coin_id: hex_encode(funding.coin_id().0.as_slice()),
        };
        Ok(MintedOption { unsigned, handle })
    }

    /// Checks a transfer: the new holder is a puzzle hash.
    pub fn build_transfer_option(&self, request: TransferOptionRequest) -> (result: WalletResult<
        UnsignedSpend,
    >)
        ensures
            unsigned_view(result) == Err::<UnsignedSpendView, WalletErrorView>(
                match hex32_of(request.to_puzzle_hash@, "puzzle hash"@) {
                    Err(error) => error,
                    Ok(_) => unimplemented(
                        "option transfer requires a dig_options::transfer builder (release-first, #1123)"@,
                    ),
                },
            ),
    {
        match parse_puzzle_hash(&request.to_puzzle_hash) {
            Err(error) => Err(error),
            Ok(_) => Err(
                WalletError::new(
                    WalletErrorCode::NotImplemented,
                    "option transfer requires a dig_options::transfer builder (release-first, #1123)".to_owned(),
                ),
            ),
        }
    }

    /// Checks an exercise: the holder of the handle is a puzzle hash.
    pub fn build_exercise_option(&self, request: ExerciseOptionRequest) -> (result: WalletResult<
        UnsignedSpend,
    >)
        ensures
            unsigned_view(result) == Err::<UnsignedSpendView, WalletErrorView>(
                match hex32_of(request.handle.owner_puzzle_hash@, "puzzle hash"@) {
                    Err(error) => error,
                    Ok(_) => unimplemented(
                        "option exercise requires a dig_options CreatedOption rehydration helper (release-first, #1123)"@,
                    ),
                },
            ),
    {
        match parse_puzzle_hash(&request.handle.owner_puzzle_hash) {
            Err(error) => Err(error),
            Ok(_) => Err(
                WalletError::new(
                    WalletErrorCode::NotImplemented,
                    "option exercise requires a dig_options CreatedOption rehydration helper (release-first, #1123)".to_owned(),
                ),
            ),
        }
    }

    /// Picks the smallest XCH coin that covers the need, unless what it holds beyond the need
    /// exceeds the fee ceiling.
    fn pick_funding_coin(&self, identity: &IdentityRef, needed: u64, fee_ceiling: u64) -> (result:
        WalletResult<WalletCoin>)
        requires
            shortage_fits(&self.inputs, identity@, needed),
        ensures
            match result {
                Ok(coin) => self.inputs.xch_coins(identity@) matches Ok(coins) && funding_of(
                    coins,
                    needed,
                    fee_ceiling,
                ) == Ok::<WalletCoin, WalletErrorView>(coin) && coin.amount >= needed,
                Err(error) => match self.inputs.xch_coins(identity@) {
                    Err(expected) => error@ == expected,
                    Ok(coins) => funding_of(coins, needed, fee_ceiling) == Err::<
                        WalletCoin,
                        WalletErrorView,
                    >(error@),
                },
            },
    {
        let coins = match self.inputs.spendable_xch(identity) {
            Ok(coins) => coins,
            Err(error) => return Err(error),
        };
        let mut best: Option<WalletCoin> = None;
        let mut i: usize = 0;
        while i < coins.len()
            invariant
                i <= coins@.len(),
                best == smallest_covering(coins@, needed, i as nat),
                best matches Some(coin) ==> coin.amount >= needed,
            decreases coins@.len() - i,
        {
            let coin = coins[i];
            let better: bool = match best {
                None => coin.amount >= needed,
                Some(held) => needed <= coin.amount && coin.amount < held.amount,
            };
            if better {
                best = Some(coin);
            }
            i = i + 1;
        }
        match best {
            None => {
                let total: u64 = sum_of_coins(coins.as_slice());
                let mut message = joined3(
                    "no single XCH coin covers the option underlying + singleton (",
                    decimal_text(needed).as_str(),
                    "); largest available across ",
                );
                message.append(decimal_text(coins.len() as u64).as_str());
                message.append(" coins totals ");
                message.append(decimal_text(total).as_str());
                Err(WalletError::new(WalletErrorCode::InsufficientFunds, message))
            },
            Some(coin) => if coin.amount > fee_ceiling {
                let mut message = joined3(
                    "smallest funding coin (",
                    decimal_text(coin.amount).as_str(),
                    ") exceeds underlying + singleton + max fee (",
                );
                message.append(decimal_text(fee_ceiling).as_str());
                message.append(
                    "); split a coin to that size first (mint has no change output)",
                );
                Err(WalletError::new(WalletErrorCode::InsufficientFunds, message))
            } else {
                Ok(coin)
            },
        }
    }
}

/// Translates an option fault into the wallet's error catalogue.
pub fn map_options_error(fault: OptionFault) -> (error: WalletError)
    ensures
        error@ == option_error(fault@),
{
    match fault {
        OptionFault::InvalidInput(message) => WalletError::invalid_input(message),
        OptionFault::Other(text) => spend_failed(joined("dig-options: ", text.as_str())),
    }
}

/// The coin that funds a mint is one of the wallet's, covers the need, and no coin that covers it
/// is smaller.
pub proof fn the_smallest_covering_coin_funds_a_mint(coins: Seq<WalletCoin>, needed: u64, n: nat)
    requires
        n <= coins.len(),
    ensures
        match smallest_covering(coins, needed, n) {
            Some(best) => {
                &&& best.amount >= needed
                &&& exists|i: int| 0 <= i < n && #[trigger] coins[i] == best
                &&& forall|i: int|
                    0 <= i < n && (#[trigger] coins[i]).amount >= needed ==> best.amount
                        <= coins[i].amount
            },
            None => forall|i: int| 0 <= i < n ==> (#[trigger] coins[i]).amount < needed,
        },
    decreases n,
{
    if n > 0 {
        the_smallest_covering_coin_funds_a_mint(coins, needed, (n - 1) as nat);
        assert(coins[n - 1] == coins[n - 1]);
    }
}

/// A mint never pays the farmer more than the caller allowed: the funding coin is exactly the
/// locked value, the singleton's mojo and a fee within the bound, which the summary shows.
pub proof fn a_mint_fee_is_bounded<I: SpendInputs>(
    builder: &SdkSpendBuilder<I>,
    request: MintOptionRequest,
)
    ensures
        mint_outcome(builder, request) matches Ok(minted) ==> {
            &&& minted.unsigned.summary.fee <= request.fee.0
            &&& mint_funding(&builder.inputs, request) matches Ok(funding) && funding.amount
                == request.underlying_amount.0 + 1 + minted.unsigned.summary.fee
            &&& minted.handle.underlying_amount == request.underlying_amount.0
            &&& minted.handle.expiry_seconds == request.expiry_seconds
            &&& minted.handle.strike == request.strike
        },
{
    if mint_outcome(builder, request) is Ok {
        let coins = builder.inputs.xch_coins(request.identity@)->Ok_0;
        the_smallest_covering_coin_funds_a_mint(
            coins,
            (request.underlying_amount.0 + 1) as u64,
            coins.len(),
        );
    }
}

} // verus!
