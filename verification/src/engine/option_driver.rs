//! The call into `dig_options`, which writes the spends of an option mint.

use dig_options::{OptionTerms, OptionType, Owner};
use chia_wallet_sdk::driver::SpendContext;
use vstd::prelude::*;

use super::driver::{bls_key, plain_coin, plain_spends, protocol_coin};
use crate::types::chain::{
    id_of, spends_view, Bytes32, PublicKey, WalletCoin, WalletSpend, WalletSpendView,
};

verus! {

/// A fault of `dig_options` in its own type.
#[verifier::external_type_specification]
#[verifier::external_body]
pub struct ExOptionError(dig_options::Error);

/// The terms of an option in the type of `dig_options`.
#[verifier::external_type_specification]
#[verifier::external_body]
pub struct ExOptionTerms(dig_options::OptionTerms);

/// The terms of an option to mint.
#[derive(Debug, Clone, Copy, PartialEq, Eq)]
pub struct MintTerms {
    /// Who gets the locked value back after the expiry.
    pub creator_puzzle_hash: Bytes32,
    /// The first holder.
    pub owner_puzzle_hash: Bytes32,
    /// The value to lock, in mojos.
    pub underlying_amount: u64,
    /// The strike in mojos.
    pub strike_amount: u64,
    /// When the option expires, in Unix seconds.
    pub expiry_seconds: u64,
}

/// The ids that a mint fixes.
#[derive(Debug, Clone, Copy, PartialEq, Eq)]
pub struct MintedIds {
    /// The launcher id of the option.
    pub launcher_id: Bytes32,
    /// The coin that holds the locked value.
    pub underlying_coin: WalletCoin,
}

/// What `dig_options` can refuse a mint with.
#[derive(Debug, PartialEq, Eq)]
pub enum OptionFault {
    /// The input cannot be minted.
    InvalidInput(String),
    /// The spend could not be written; the text is the fault as it renders itself.
    Other(String),
}

/// What an [`OptionFault`] says.
pub enum OptionFaultView {
    /// The input cannot be minted.
    InvalidInput(Seq<char>),
    /// The spend could not be written.
    Other(Seq<char>),
}

impl View for OptionFault {
    type V = OptionFaultView;

    open spec fn view(&self) -> OptionFaultView {
        match self {
            OptionFault::InvalidInput(text) => OptionFaultView::InvalidInput(text@),
            OptionFault::Other(text) => OptionFaultView::Other(text@),
        }
    }
}

/// Reads a fault of `dig_options`.
#[verifier::external_body]
fn plain_fault(error: dig_options::Error) -> OptionFault {
    match error {
        dig_options::Error::InvalidInput(text) => OptionFault::InvalidInput(text),
        dig_options::Error::Driver(fault) => OptionFault::Other(format!("driver error: {fault}")),
        dig_options::Error::Signer(fault) => OptionFault::Other(format!("signer error: {fault}")),
    }
}

/// Writes the terms of a mint in the type of `dig_options`.
#[verifier::external_body]
fn outside_terms(terms: &MintTerms) -> dig_options::OptionTerms {
    OptionTerms {
        creator_puzzle_hash: terms.creator_puzzle_hash.0.into(),
        owner_puzzle_hash: terms.owner_puzzle_hash.0.into(),
        underlying_amount: terms.underlying_amount,
        strike_type: OptionType::Xch { amount: terms.strike_amount },
        expiry_seconds: terms.expiry_seconds,
    }
}

/// The spends of a mint and the ids that it fixes, or why it is refused.
pub uninterp spec fn minted_of(
    key: PublicKey,
    funding: WalletCoin,
    terms: MintTerms,
) -> Result<(Seq<WalletSpendView>, Option<MintedIds>), OptionFaultView>;

/// Mints an option from one funding coin.
///
/// Calls `dig_options::create` in a fresh context with the key as a standard owner. It locks the
/// underlying amount in a coin that the funding coin creates, spends the funding coin, and always
/// names the created option. It refuses a zero underlying amount and a funding coin that does not
/// cover the underlying amount and one mojo more. A key whose bytes are no point on the curve is a
/// failure too.
#[verifier::external_body]
pub(crate) fn mint_option(key: &PublicKey, funding: &WalletCoin, terms: &MintTerms) -> (result:
    Result<(Vec<WalletSpend>, Option<MintedIds>), OptionFault>)
    ensures
        match result {
            Ok((spends, ids)) => {
                &&& minted_of(*key, *funding, *terms) == Ok::<
                    (Seq<WalletSpendView>, Option<MintedIds>),
                    OptionFaultView,
                >((spends_view(spends@), ids))
                &&& terms.underlying_amount > 0
                &&& funding.amount > terms.underlying_amount
                &&& ids matches Some(minted) && minted.underlying_coin.parent_coin_info == id_of(
                    *funding,
                ) && minted.underlying_coin.amount == terms.underlying_amount
                &&& exists|i: int| 0 <= i < spends@.len() && (#[trigger] spends@[i]).coin == *funding
            },
            Err(fault) => minted_of(*key, *funding, *terms) == Err::<
                (Seq<WalletSpendView>, Option<MintedIds>),
                OptionFaultView,
            >(fault@),
        },
{
    let mut ctx = SpendContext::new();
    let key = bls_key(key).map_err(OptionFault::Other)?;
    let made = dig_options::create(&mut ctx, &Owner::Standard(key), protocol_coin(funding), &outside_terms(terms));
    let made = made.map_err(plain_fault)?;
    let ids = made.created.map(|created| MintedIds {
        launcher_id: Bytes32(created.option.info.launcher_id.to_bytes()),
        underlying_coin: plain_coin(&created.underlying_coin),
    });
    Ok((plain_spends(made.coin_spends), ids))
}

} // verus!
