//! Option contracts: requests, handles and the on-chain state.

use vstd::prelude::*;

use super::identity::IdentityRef;
use super::spend::{UnsignedSpend, UnsignedSpendView};
use super::value::{Amount, Puzzlehash};

verus! {

/// What a holder pays to exercise an option.
#[derive(Debug, Clone, Copy, PartialEq, Eq, Structural)]
pub enum OptionStrike {
    /// Native XCH.
    Xch {
        /// The amount in mojos.
        amount: Amount,
    },
}

/// A request to mint an option.
#[derive(Debug, Clone, PartialEq, Eq)]
pub struct MintOptionRequest {
    /// The minting identity.
    pub identity: IdentityRef,
    /// The creator, who receives the strike; the wallet's change address when absent.
    pub creator_puzzle_hash: Option<Puzzlehash>,
    /// The first holder; the creator when absent.
    pub owner_puzzle_hash: Option<Puzzlehash>,
    /// The value to lock.
    pub underlying_amount: Amount,
    /// The strike.
    pub strike: OptionStrike,
    /// When the option expires, in Unix seconds.
    pub expiry_seconds: u64,
    /// The most that may be paid to the farmer.
    pub fee: Amount,
}

/// What a creator keeps to reclaim or describe a minted option.
#[derive(Debug, Clone, PartialEq, Eq)]
pub struct OptionHandle {
    /// The option's launcher id (hex).
    pub launcher_id: String,
    /// The creator.
    pub creator_puzzle_hash: Puzzlehash,
    /// The holder.
    pub owner_puzzle_hash: Puzzlehash,
    /// The locked value.
    pub underlying_amount: Amount,
    /// The strike.
    pub strike: OptionStrike,
    /// When the option expires, in Unix seconds.
    pub expiry_seconds: u64,
    /// The coin that holds the locked value (hex).
    pub underlying_coin_id: String,
    /// The coin that funded the mint (hex).
    pub funding_coin_id: String,
}

/// What an [`OptionHandle`] says.
pub struct HandleView {
    /// The launcher id.
    pub launcher_id: Seq<char>,
    /// The creator.
    pub creator_puzzle_hash: Seq<char>,
    /// The holder.
    pub owner_puzzle_hash: Seq<char>,
    /// The locked value.
    pub underlying_amount: u64,
    /// The strike.
    pub strike: OptionStrike,
    /// The expiry.
    pub expiry_seconds: u64,
    /// The coin that holds the locked value.
    pub underlying_coin_id: Seq<char>,
    /// The coin that funded the mint.
    pub funding_coin_id: Seq<char>,
}

impl View for OptionHandle {
    type V = HandleView;

    open spec fn view(&self) -> HandleView {
        HandleView {
            launcher_id: self.launcher_id@,
            creator_puzzle_hash: self.creator_puzzle_hash@,
            owner_puzzle_hash: self.owner_puzzle_hash@,
            underlying_amount: self.underlying_amount.0,
            strike: self.strike,
            expiry_seconds: self.expiry_seconds,
            underlying_coin_id: self.underlying_coin_id@,
            funding_coin_id: self.funding_coin_id@,
        }
    }
}

/// A minted option: what to sign, and the handle to keep.
#[derive(Debug, Clone, PartialEq, Eq)]
pub struct MintedOption {
    /// What to review and sign.
    pub unsigned: UnsignedSpend,
    /// The handle.
    pub handle: OptionHandle,
}

/// What a [`MintedOption`] says.
pub struct MintedView {
    /// What to review and sign.
    pub unsigned: UnsignedSpendView,
    /// The handle.
    pub handle: HandleView,
}

impl View for MintedOption {
    type V = MintedView;

    open spec fn view(&self) -> MintedView {
        MintedView { unsigned: self.unsigned@, handle: self.handle@ }
    }
}

/// A coin in wire form.
#[derive(Debug, Clone, PartialEq, Eq)]
pub struct WireCoin {
    /// The parent coin id (hex).
    pub parent_coin_info: String,
    /// The puzzle hash (hex).
    pub puzzle_hash: String,
    /// The value in mojos.
    pub amount: u64,
}

/// The on-chain facts of an option that a later spend needs.
#[derive(Debug, Clone, PartialEq, Eq)]
pub struct OptionOnChainState {
    /// The parent of the option coin.
    pub option_parent_coin: WireCoin,
    /// The puzzle of the parent spend (hex).
    pub option_parent_puzzle_reveal: String,
    /// The solution of the parent spend (hex).
    pub option_parent_solution: String,
    /// The coin that holds the locked value.
    pub underlying_coin: WireCoin,
}

/// A request to hand an option to a new holder.
#[derive(Debug, Clone, PartialEq, Eq)]
pub struct TransferOptionRequest {
    /// The holder.
    pub identity: IdentityRef,
    /// The option.
    pub handle: OptionHandle,
    /// Its on-chain state.
    pub on_chain: OptionOnChainState,
    /// The new holder.
    pub to_puzzle_hash: Puzzlehash,
    /// The fee to pay the farmer.
    pub fee: Amount,
}

/// A request to exercise an option.
#[derive(Debug, Clone, PartialEq, Eq)]
pub struct ExerciseOptionRequest {
    /// The holder.
    pub identity: IdentityRef,
    /// The option.
    pub handle: OptionHandle,
    /// Its on-chain state.
    pub on_chain: OptionOnChainState,
    /// The fee to pay the farmer.
    pub fee: Amount,
}

} // verus!
