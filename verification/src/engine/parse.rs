//! The hex and address texts that requests and summaries carry.

use vstd::prelude::*;
use vstd::string::*;

use super::builder::{hash_view, spend_failed};
use super::driver::{encode_bech32, puzzle_hash_address};
use crate::text::{hex_bytes, hex_decode, hex_fault, hex_text, is_hex, joined, joined3};
use crate::types::chain::{bytes32, lemma_bytes32_view, to_bytes32, Bytes32};
use crate::types::error::{invalid, spend_fault, WalletError, WalletErrorView, WalletResult};
use crate::types::value::{Address, AssetId, Puzzlehash};

verus! {

/// The 32 bytes that a hex text stands for, or the error that refuses it. The label says what
/// the text was meant to be.
pub open spec fn hex32_of(text: Seq<char>, label: Seq<char>) -> Result<Bytes32, WalletErrorView> {
    if !is_hex(text) {
        Err(invalid("bad "@ + label + " "@ + text + ": "@ + hex_fault(text)))
    } else if hex_bytes(text).len() != 32 {
        Err(invalid(label + " "@ + text + " is not 32 bytes"@))
    } else {
        Ok(bytes32(hex_bytes(text)))
    }
}

/// Parses 32 bytes from their hex text.
pub fn parse_hex32(value: &str, label: &str) -> (result: WalletResult<Bytes32>)
    ensures
        hash_view(result) == hex32_of(value@, label@),
{
    match hex_decode(value) {
        Err(fault) => {
            let mut message = joined3("bad ", label, " ");
            message.append(value);
            message.append(": ");
            message.append(fault.as_str());
            Err(WalletError::invalid_input(message))
        },
        Ok(bytes) => match to_bytes32(&bytes) {
            Some(hash) => Ok(hash),
            None => {
                let mut message = joined3(label, " ", value);
                message.append(" is not 32 bytes");
                Err(WalletError::invalid_input(message))
            },
        },
    }
}

/// 32 bytes written in hex are read back as they were, whatever they are called.
pub proof fn hex32_round_trip(hash: Bytes32, label: Seq<char>)
    ensures
        hex32_of(hex_text(hash@), label) == Ok::<Bytes32, WalletErrorView>(hash),
{
    crate::text::hex_round_trip(hash@);
    lemma_bytes32_view(hash, bytes32(hash@));
}

/// Parses a CAT asset id.
pub fn parse_asset_id(asset_id: &AssetId) -> (result: WalletResult<Bytes32>)
    ensures
        hash_view(result) == hex32_of(asset_id@, "asset id"@),
{
    parse_hex32(asset_id.0.as_str(), "asset id")
}

/// Parses a puzzle hash.
pub fn parse_puzzle_hash(puzzle_hash: &Puzzlehash) -> (result: WalletResult<Bytes32>)
    ensures
        hash_view(result) == hex32_of(puzzle_hash@, "puzzle hash"@),
{
    parse_hex32(puzzle_hash.0.as_str(), "puzzle hash")
}

/// The `xch1…` address of a puzzle hash, or the error when it has none.
pub open spec fn address_of(puzzle_hash: Bytes32) -> Result<Seq<char>, WalletErrorView> {
    match puzzle_hash_address(puzzle_hash, "xch"@) {
        Ok(address) => Ok(address),
        Err(fault) => Err(spend_fault("encode address: "@ + fault)),
    }
}

/// Encodes a puzzle hash as an `xch1…` address for a review summary.
pub fn encode_address(puzzle_hash: &Bytes32) -> (result: WalletResult<Address>)
    ensures
        match result {
            Ok(address) => address_of(*puzzle_hash) == Ok::<Seq<char>, WalletErrorView>(address@),
            Err(error) => address_of(*puzzle_hash) == Err::<Seq<char>, WalletErrorView>(error@),
        },
{
    match encode_bech32(puzzle_hash, "xch") {
        Ok(address) => Ok(Address(address)),
        Err(fault) => Err(spend_failed(joined("encode address: ", fault.as_str()))),
    }
}

} // verus!
