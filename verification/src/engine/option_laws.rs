//! What a mint does, stated of what is handed to the option driver.

use vstd::prelude::*;
use vstd::string::*;

use super::build_options::{
    mint_funding, mint_outcome, parties_of, the_smallest_covering_coin_funds_a_mint,
};
use super::builder::{SdkSpendBuilder, SpendInputs};
use super::option_driver::{minted_of, MintTerms, MintedIds, OptionFaultView};
use super::spend_laws::{lemma_sealed_payment, lists_its_signatures, shows_one_payment, spells};
use crate::text::hex_text;
use crate::types::chain::{id_of, Bytes32, WalletCoin, WalletSpendView};
use crate::types::error::{WalletErrorCode, WalletErrorView};
use crate::types::options::{HandleView, MintOptionRequest, OptionStrike};
use crate::types::value::Puzzlehash;

verus! {

/// Whether a puzzle hash is the party that a request names, or the one that stands in where it
/// names none.
pub open spec fn is_the_party(
    party: Bytes32,
    named: Option<Puzzlehash>,
    otherwise: Option<Bytes32>,
) -> bool {
    match named {
        Some(text) => spells(text@, party),
        None => otherwise == Some(party),
    }
}

/// Whether the terms of an option are those that a request asks for: the value to lock, the strike
/// and the expiry of the request, the creator that it names or else the wallet itself, and the
/// holder that it names or else the creator.
pub open spec fn asks_for_terms<I: SpendInputs>(
    inputs: &I,
    request: MintOptionRequest,
    terms: MintTerms,
) -> bool {
    &&& is_the_party(
        terms.creator_puzzle_hash,
        request.creator_puzzle_hash,
        inputs.change_of(request.identity@).ok(),
    )
    &&& is_the_party(
        terms.owner_puzzle_hash,
        request.owner_puzzle_hash,
        Some(terms.creator_puzzle_hash),
    )
    &&& terms.underlying_amount == request.underlying_amount.0
    &&& request.strike matches OptionStrike::Xch { amount } && terms.strike_amount == amount.0
    &&& terms.expiry_seconds == request.expiry_seconds
}

/// Whether a handle shows terms, what was minted from them and the coin that funded it.
pub open spec fn handle_shows(
    handle: HandleView,
    terms: MintTerms,
    ids: MintedIds,
    funding: WalletCoin,
) -> bool {
    &&& handle.launcher_id == hex_text(ids.launcher_id@)
    &&& handle.creator_puzzle_hash == hex_text(terms.creator_puzzle_hash@)
    &&& handle.owner_puzzle_hash == hex_text(terms.owner_puzzle_hash@)
    &&& handle.underlying_amount == terms.underlying_amount
    &&& handle.strike matches OptionStrike::Xch { amount } && amount.0 == terms.strike_amount
    &&& handle.expiry_seconds == terms.expiry_seconds
    &&& handle.underlying_coin_id == hex_text(id_of(ids.underlying_coin)@)
    &&& handle.funding_coin_id == hex_text(id_of(funding)@)
}

/// Whether a coin is the wallet's smallest that covers the locked value and the singleton's mojo,
/// and holds no more beyond them than the fee that a request allows.
pub open spec fn funds_a_mint<I: SpendInputs>(
    inputs: &I,
    request: MintOptionRequest,
    funding: WalletCoin,
) -> bool {
    &&& inputs.xch_coins(request.identity@) matches Ok(coins)
    &&& coins.contains(funding)
    &&& request.underlying_amount.0 + 1 <= funding.amount
    &&& funding.amount <= request.underlying_amount.0 + 1 + request.fee.0
    &&& forall|i: int|
        0 <= i < coins.len() && (#[trigger] coins[i]).amount >= request.underlying_amount.0 + 1
            ==> funding.amount <= coins[i].amount
}

/// A mint writes what was asked for: the spends and ids are what the option driver gives for the
/// terms of the request, from the wallet's own coin under its own key, and the handle shows those
/// same terms and ids. The summary shows the locked value going to the holder, and as the fee all
/// that the coin holds beyond it and the singleton's mojo.
pub proof fn a_mint_writes_the_requested_terms<I: SpendInputs>(
    builder: &SdkSpendBuilder<I>,
    request: MintOptionRequest,
)
    ensures
        mint_outcome(builder, request) matches Ok(minted) ==> {
            &&& request.underlying_amount.0 > 0
            &&& exists|terms: MintTerms, funding: WalletCoin, ids: MintedIds|
                {
                    &&& #[trigger] asks_for_terms(&builder.inputs, request, terms)
                    &&& funds_a_mint(&builder.inputs, request, funding)
                    &&& builder.inputs.key_of(funding.puzzle_hash) matches Some(key)
                    &&& minted_of(key, funding, terms) == Ok::<
                        (Seq<WalletSpendView>, Option<MintedIds>),
                        OptionFaultView,
                    >((minted.unsigned.coin_spends, Some(ids)))
                    &&& #[trigger] handle_shows(minted.handle, terms, ids, funding)
                    &&& shows_one_payment(
                        minted.unsigned.summary,
                        terms.owner_puzzle_hash,
                        request.underlying_amount.0,
                        None,
                        (funding.amount - request.underlying_amount.0 - 1) as u64,
                    )
                }
            &&& lists_its_signatures(minted.unsigned, builder.network)
        },
{
    if let Ok(minted) = mint_outcome(builder, request) {
        let (creator, owner) = parties_of(&builder.inputs, request)->Ok_0;
        let funding = mint_funding(&builder.inputs, request)->Ok_0;
        let key = builder.inputs.key_of(funding.puzzle_hash)->0;
        let coins = builder.inputs.xch_coins(request.identity@)->Ok_0;
        the_smallest_covering_coin_funds_a_mint(
            coins,
            (request.underlying_amount.0 + 1) as u64,
            coins.len(),
        );
        let OptionStrike::Xch { amount } = request.strike;
        let terms = MintTerms {
            creator_puzzle_hash: creator,
            owner_puzzle_hash: owner,
            underlying_amount: request.underlying_amount.0,
            strike_amount: amount.0,
            expiry_seconds: request.expiry_seconds,
        };
        let (spends, made) = minted_of(key, funding, terms)->Ok_0;
        let ids = made->0;
        lemma_sealed_payment(
            spends,
            builder.network,
            owner,
            request.underlying_amount.0,
            None,
            (funding.amount - request.underlying_amount.0 - 1) as u64,
        );
        assert(asks_for_terms(&builder.inputs, request, terms));
        assert(handle_shows(minted.handle, terms, ids, funding));
    }
}

/// Where the amounts fit and the parties can be read, a mint finds a coin to draw on if there is one
/// that funds it, and otherwise fails for want of funds.
pub proof fn only_an_unfunded_mint_is_short<I: SpendInputs>(
    builder: &SdkSpendBuilder<I>,
    request: MintOptionRequest,
    coins: Seq<WalletCoin>,
)
    requires
        builder.inputs.xch_coins(request.identity@) == Ok::<Seq<WalletCoin>, WalletErrorView>(coins),
        parties_of(&builder.inputs, request) is Ok,
        0 < request.underlying_amount.0,
        request.underlying_amount.0 + 1 + request.fee.0 <= u64::MAX,
    ensures
        (exists|coin: WalletCoin| #[trigger] funds_a_mint(&builder.inputs, request, coin))
            ==> mint_funding(&builder.inputs, request) is Ok,
        !(exists|coin: WalletCoin| #[trigger] funds_a_mint(&builder.inputs, request, coin)) ==> (
        mint_outcome(builder, request) matches Err(error) && error.code
            == WalletErrorCode::InsufficientFunds),
{
    let needed = (request.underlying_amount.0 + 1) as u64;
    the_smallest_covering_coin_funds_a_mint(coins, needed, coins.len());
    if exists|coin: WalletCoin| #[trigger] funds_a_mint(&builder.inputs, request, coin) {
        let coin = choose|coin: WalletCoin| #[trigger]
            funds_a_mint(&builder.inputs, request, coin);
        let i = choose|i: int| 0 <= i < coins.len() && coins[i] == coin;
        assert(coins[i].amount >= needed);
    } else if let Ok(funding) = mint_funding(&builder.inputs, request) {
        assert(funds_a_mint(&builder.inputs, request, funding));
    }
}

} // verus!
