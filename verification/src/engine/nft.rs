//! NFTs: mint, transfer and metadata updates.
//!
//! `dig_nft` writes; here its answers become operations and errors of the wallet. Every operation
//! is unsigned. A mint that attributes an NFT to a DID carries the conditions that the DID's own
//! spend must emit in the same bundle.

pub use dig_nft::{decode_nft_id, encode_nft_id, Nft, NftInfo};
use vstd::prelude::*;
use vstd::string::*;

use super::builder::spend_failed;
use super::singleton_driver::{
    bulk_mint_spends, mint_spends, minted_nft, minted_nfts, nft_answer, specs_view,
    transfer_spends, transfer_with_metadata_spends, transferred_nft,
    transferred_nft_with_metadata, update_spends, updated_nft, NftOperationView,
};
pub use super::singleton_driver::{
    DidRef, MetadataUpdate, MintSpec, NftOperation, UriKind, WalletNft,
};
use crate::text::joined3;
use crate::types::chain::{Bytes32, PublicKey, WalletCoin};
use crate::types::error::{spend_fault, WalletError, WalletErrorView, WalletResult};

verus! {

/// What an NFT operation returned, over views.
pub open spec fn operation_view(result: WalletResult<NftOperation>) -> Result<
    NftOperationView,
    WalletErrorView,
> {
    match result {
        Ok(operation) => Ok(operation@),
        Err(error) => Err(error@),
    }
}

/// The error of an NFT operation, which names the operation.
pub open spec fn nft_error(operation: Seq<char>, fault: Seq<char>) -> WalletErrorView {
    spend_fault("NFT "@ + operation + " failed: "@ + fault)
}

/// The outcome of an operation: what the driver wrote, or its fault as an error of the wallet.
pub open spec fn outcome_of(
    operation: Seq<char>,
    answer: Result<NftOperationView, Seq<char>>,
) -> Result<NftOperationView, WalletErrorView> {
    match answer {
        Ok(written) => Ok(written),
        Err(fault) => Err(nft_error(operation, fault)),
    }
}

/// Turns what the driver answered into an outcome of the wallet.
pub fn finish(operation: &str, answer: Result<NftOperation, String>) -> (result: WalletResult<
    NftOperation,
>)
    ensures
        operation_view(result) == outcome_of(operation@, nft_answer(answer)),
        answer matches Ok(written) ==> result == Ok::<NftOperation, WalletError>(written),
{
    match answer {
        Ok(written) => Ok(written),
        Err(fault) => {
            let mut message = joined3("NFT ", operation, " failed: ");
            message.append(fault.as_str());
            Err(spend_failed(message))
        },
    }
}

/// Mints one NFT from a funding coin.
pub fn mint_nft(funding_coin: &WalletCoin, owner_key: &PublicKey, spec: &MintSpec) -> (result:
    WalletResult<NftOperation>)
    ensures
        operation_view(result) == outcome_of(
            "mint"@,
            minted_nft(*owner_key, *funding_coin, spec@),
        ),
        result matches Ok(operation) ==> operation.children@.len() == 1,
{
    finish("mint", mint_spends(owner_key, funding_coin, spec))
}

/// Mints several NFTs from one funding coin. An empty list is refused.
pub fn bulk_mint_nfts(funding_coin: &WalletCoin, owner_key: &PublicKey, specs: &Vec<MintSpec>) -> (result:
    WalletResult<NftOperation>)
    ensures
        operation_view(result) == outcome_of(
            "bulk mint"@,
            minted_nfts(*owner_key, *funding_coin, specs_view(specs@)),
        ),
        specs@.len() == 0 ==> result is Err,
        result matches Ok(operation) ==> operation.children@.len() == specs@.len(),
{
    finish("bulk mint", bulk_mint_spends(owner_key, funding_coin, specs))
}

/// Transfers an NFT to a new owner.
pub fn transfer_nft(nft: &WalletNft, owner_key: &PublicKey, new_owner_puzzle_hash: &Bytes32) -> (result:
    WalletResult<NftOperation>)
    ensures
        operation_view(result) == outcome_of(
            "transfer"@,
            transferred_nft(nft@, *owner_key, *new_owner_puzzle_hash),
        ),
        result matches Ok(operation) ==> operation.children@.len() == 1
            && operation.did_conditions@.len() == 0,
{
    finish("transfer", transfer_spends(nft, owner_key, new_owner_puzzle_hash))
}

/// Transfers an NFT to a new owner and updates its metadata in the same spend.
pub fn transfer_nft_with_metadata(
    nft: &WalletNft,
    owner_key: &PublicKey,
    new_owner_puzzle_hash: &Bytes32,
    metadata_update: &MetadataUpdate,
) -> (result: WalletResult<NftOperation>)
    ensures
        operation_view(result) == outcome_of(
            "transfer with metadata"@,
            transferred_nft_with_metadata(
                nft@,
                *owner_key,
                *new_owner_puzzle_hash,
                metadata_update.kind,
                metadata_update.uri@,
            ),
        ),
        result matches Ok(operation) ==> operation.children@.len() == 1
            && operation.did_conditions@.len() == 0,
{
    finish(
        "transfer with metadata",
        transfer_with_metadata_spends(nft, owner_key, new_owner_puzzle_hash, metadata_update),
    )
}

/// Updates the metadata of an NFT, which stays with its owner. An update only adds a URI.
pub fn update_nft_metadata(
    nft: &WalletNft,
    owner_key: &PublicKey,
    metadata_update: &MetadataUpdate,
) -> (result: WalletResult<NftOperation>)
    ensures
        operation_view(result) == outcome_of(
            "metadata update"@,
            updated_nft(nft@, *owner_key, metadata_update.kind, metadata_update.uri@),
        ),
        result matches Ok(operation) ==> operation.children@.len() == 1
            && operation.did_conditions@.len() == 0,
{
    finish("metadata update", update_spends(nft, owner_key, metadata_update))
}

} // verus!
