//! DIDs: launch, transfer and reading from a parent spend.
//!
//! `dig_did` writes and reads; here its answers become operations and errors of the wallet. Every
//! operation is unsigned.

pub use dig_did::{
    did_string_from_launcher_id, launcher_id_from_did_string, AncestryProof, ChainSource, Did,
    DidInfo, DidTip, LineageModel, Owner, DID_CHIA_PREFIX, MAX_LINEAGE_DEPTH,
};
use vstd::prelude::*;
use vstd::string::*;

use super::builder::spend_failed;
use super::driver::Condition;
use super::singleton_driver::{
    hydrated_did, launch_spends, launched_did, read_did, spend_did, spent_did, DidFault,
    DidFaultView, WalletDid,
};
use crate::text::{joined, joined3};
use crate::types::chain::{
    spends_view, Bytes32, PublicKey, WalletCoin, WalletSpend, WalletSpendView,
};
use crate::types::error::{spend_fault, WalletError, WalletErrorView, WalletResult};
use crate::types::value::Network;

verus! {

/// An unsigned DID operation.
#[derive(Debug, Clone, PartialEq, Eq)]
pub struct DidOperation {
    /// The coin spends, in spend order.
    pub coin_spends: Vec<WalletSpend>,
    /// The DID after the operation; nothing after one that ends it.
    pub child: Option<WalletDid>,
}

/// What a [`DidOperation`] says.
pub struct DidOperationView {
    /// The coin spends.
    pub coin_spends: Seq<WalletSpendView>,
    /// The DID after the operation.
    pub child: Option<WalletDid>,
}

impl View for DidOperation {
    type V = DidOperationView;

    open spec fn view(&self) -> DidOperationView {
        DidOperationView { coin_spends: spends_view(self.coin_spends@), child: self.child }
    }
}

/// What a DID operation returned, over views.
pub open spec fn operation_view(result: WalletResult<DidOperation>) -> Result<
    DidOperationView,
    WalletErrorView,
> {
    match result {
        Ok(operation) => Ok(operation@),
        Err(error) => Err(error@),
    }
}

/// The error of a DID operation, which names the operation.
pub open spec fn did_error(operation: Seq<char>, fault: Seq<char>) -> WalletErrorView {
    spend_fault("DID "@ + operation + " failed: "@ + fault)
}

/// Launches a DID from a funding coin, which becomes the DID in full. Its amount must be odd.
pub fn launch_did(funding_coin: &WalletCoin, owner_key: &PublicKey) -> (result: WalletResult<
    DidOperation,
>)
    ensures
        operation_view(result) == (match launched_did(*owner_key, *funding_coin) {
            Ok((coin_spends, child)) => Ok(DidOperationView { coin_spends, child }),
            Err(fault) => Err(did_error("launch"@, fault)),
        }),
        funding_coin.amount % 2 == 0 ==> result is Err,
        result matches Ok(operation) ==> operation.child is Some && exists|i: int|
            0 <= i < operation.coin_spends@.len() && (#[trigger] operation.coin_spends@[i]).coin
                == *funding_coin,
{
    match launch_spends(owner_key, funding_coin) {
        Ok((coin_spends, child)) => Ok(DidOperation { coin_spends, child }),
        Err(fault) => Err(did_failed("launch", fault.as_str())),
    }
}

/// What a transfer asks of the DID's spend: the same amount under the new owner.
pub open spec fn transfer_conditions(did: WalletDid, new_owner: Bytes32) -> Seq<Condition> {
    seq![
        Condition::CreateCoin { puzzle_hash: new_owner, amount: did.coin.amount, hint: None },
    ]
}

/// Transfers a DID to a new owner: a DID spend that creates a coin of the same amount under the
/// new inner puzzle hash. The metadata of the DID is handed in as a serialized program.
pub fn transfer_did(
    did: &WalletDid,
    metadata: &Vec<u8>,
    owner_key: &PublicKey,
    new_owner_puzzle_hash: &Bytes32,
) -> (result: WalletResult<DidOperation>)
    ensures
        operation_view(result) == (match spent_did(
            *did,
            metadata@,
            *owner_key,
            transfer_conditions(*did, *new_owner_puzzle_hash),
        ) {
            Ok((coin_spends, child)) => Ok(DidOperationView { coin_spends, child: Some(child) }),
            Err(fault) => Err(did_error("transfer"@, fault)),
        }),
{
    let conditions = vec![
        Condition::CreateCoin {
            puzzle_hash: *new_owner_puzzle_hash,
            amount: did.coin.amount,
            hint: None,
        },
    ];
    assert(conditions@ =~= transfer_conditions(*did, *new_owner_puzzle_hash));
    match spend_did(did, metadata, owner_key, &conditions) {
        Ok((coin_spends, child)) => Ok(DidOperation { coin_spends, child: Some(child) }),
        Err(fault) => Err(did_failed("transfer", fault.as_str())),
    }
}

/// The text of a fault, whatever its kind.
pub open spec fn did_fault_text(fault: DidFaultView) -> Seq<char> {
    match fault {
        DidFaultView::NotDid(text) => text,
        DidFaultView::MissingLineage(text) => text,
        DidFaultView::Other(text) => text,
    }
}

/// Reads the DID that a parent spend makes of a child coin.
pub fn hydrate_did(parent: &WalletSpend, child_coin: &WalletCoin) -> (result: WalletResult<WalletDid>)
    ensures
        match result {
            Ok(did) => hydrated_did(parent@, *child_coin) == Ok::<WalletDid, DidFaultView>(did),
            Err(error) => hydrated_did(parent@, *child_coin) matches Err(fault) && error@
                == did_error("hydrate"@, did_fault_text(fault)),
        },
{
    match read_did(parent, child_coin) {
        Ok(did) => Ok(did),
        Err(DidFault::NotDid(text)) => Err(did_failed("hydrate", text.as_str())),
        Err(DidFault::MissingLineage(text)) => Err(did_failed("hydrate", text.as_str())),
        Err(DidFault::Other(text)) => Err(did_failed("hydrate", text.as_str())),
    }
}

/// The address prefix of a network.
pub open spec fn prefix_of(network: Network) -> Seq<char> {
    match network {
        Network::Mainnet => "xch"@,
        Network::Testnet => "txch"@,
        Network::Simulator => "txch"@,
    }
}

/// The address prefix of a network.
pub fn address_prefix(network: Network) -> (prefix: &'static str)
    ensures
        prefix@ == prefix_of(network),
{
    match network {
        Network::Mainnet => "xch",
        Network::Testnet => "txch",
        Network::Simulator => "txch",
    }
}

/// The error of a DID operation.
pub fn did_failed(operation: &str, fault: &str) -> (error: WalletError)
    ensures
        error@ == did_error(operation@, fault@),
{
    let mut message = joined3("DID ", operation, " failed: ");
    message.append(fault);
    spend_failed(message)
}

/// The error of a resolution whose address does not encode.
pub fn unencodable_address(fault: &str) -> (error: WalletError)
    ensures
        error@ == spend_fault("DID resolve produced an unencodable address: "@ + fault@),
{
    spend_failed(joined("DID resolve produced an unencodable address: ", fault))
}

} // verus!
