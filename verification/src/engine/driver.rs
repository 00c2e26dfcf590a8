//! The calls into the chia-wallet-sdk drivers.
//!
//! Every function here turns plain values into the drivers' types, makes one driver step and
//! turns the answer back. What the drivers compute (puzzles, solutions, announcements) takes
//! pages to state, so their results are named: the same plain values give the same result.

use chia_bls::PublicKey as BlsPoint;
use chia_puzzle_types::Memos;
use chia_wallet_sdk::driver::{CatInfo, CatSpend, SpendContext, SpendWithConditions, StandardLayer};
use chia_wallet_sdk::signer::AggSigConstants;
use vstd::prelude::*;
use vstd::string::*;

use crate::text::joined;
use crate::types::chain::{
    spends_view, Bytes32, PublicKey, WalletCat, WalletCoin, WalletSpend, WalletSpendView,
};
use crate::types::spend::{RequiredSignature, RequiredSignatureView};

verus! {

/// The driver's spend context: an allocator with the coin spends collected so far.
#[verifier::external_type_specification]
#[verifier::external_body]
pub struct ExSpendContext(chia_wallet_sdk::driver::SpendContext);

/// The driver's condition list.
#[verifier::external_type_specification]
#[verifier::external_body]
#[verifier::reject_recursive_types(T)]
pub struct ExConditions<T>(chia_wallet_sdk::types::Conditions<T>);

/// A pointer into the driver's allocator.
#[verifier::external_type_specification]
#[verifier::external_body]
pub struct ExNodePtr(clvmr::NodePtr);

/// A coin in the protocol's own type.
#[verifier::external_type_specification]
#[verifier::external_body]
pub struct ExProtocolCoin(chia_protocol::Coin);

/// A coin spend in the protocol's own type.
#[verifier::external_type_specification]
#[verifier::external_body]
pub struct ExProtocolCoinSpend(chia_protocol::CoinSpend);

/// A CAT in the driver's own type.
#[verifier::external_type_specification]
#[verifier::external_body]
pub struct ExDriverCat(chia_wallet_sdk::driver::Cat);

/// One condition that a spend puts on the chain.
#[derive(Debug, Clone, Copy, PartialEq, Eq)]
pub enum Condition {
    /// Create a coin.
    CreateCoin {
        /// The puzzle hash of the new coin.
        puzzle_hash: Bytes32,
        /// Its value.
        amount: u64,
        /// The hint that announces it, when there is one.
        hint: Option<Bytes32>,
    },
    /// Leave at least this much to the farmer.
    ReserveFee {
        /// The fee in mojos.
        amount: u64,
    },
    /// Hold only if the named coin is spent in the same block.
    AssertConcurrentSpend {
        /// The coin that must be spent too.
        coin_id: Bytes32,
    },
}

/// A CAT coin with the key and the conditions of its inner spend.
#[derive(Debug)]
pub struct CatInput {
    /// The coin.
    pub cat: WalletCat,
    /// The key that authorizes its inner puzzle.
    pub key: PublicKey,
    /// The conditions that its inner puzzle emits.
    pub conditions: Vec<Condition>,
}

/// What a [`CatInput`] says.
pub struct CatInputView {
    /// The coin.
    pub cat: WalletCat,
    /// The key.
    pub key: PublicKey,
    /// The conditions.
    pub conditions: Seq<Condition>,
}

impl View for CatInput {
    type V = CatInputView;

    open spec fn view(&self) -> CatInputView {
        CatInputView { cat: self.cat, key: self.key, conditions: self.conditions@ }
    }
}

/// What a list of CAT inputs says.
pub open spec fn cat_inputs_view(inputs: Seq<CatInput>) -> Seq<CatInputView> {
    inputs.map_values(|i: CatInput| i@)
}

/// One signature that the signature extractor found a need for.
#[derive(Debug)]
pub enum ExtractedSignature {
    /// A BLS signature.
    Bls(RequiredSignature),
    /// A secp signature, which no wallet spend should ask for.
    Secp,
}

/// What an [`ExtractedSignature`] says.
pub enum ExtractedSignatureView {
    /// A BLS signature.
    Bls(RequiredSignatureView),
    /// A secp signature.
    Secp,
}

impl View for ExtractedSignature {
    type V = ExtractedSignatureView;

    open spec fn view(&self) -> ExtractedSignatureView {
        match self {
            ExtractedSignature::Bls(required) => ExtractedSignatureView::Bls(required@),
            ExtractedSignature::Secp => ExtractedSignatureView::Secp,
        }
    }
}

/// What a list of extracted signatures says.
pub open spec fn extracted_view(found: Seq<ExtractedSignature>) -> Seq<ExtractedSignatureView> {
    found.map_values(|f: ExtractedSignature| f@)
}

/// The step at which a driver failed, with what it says.
#[derive(Debug)]
pub enum DriverFault {
    /// A hint could not be written.
    Hint(String),
    /// The inner spend of a CAT could not be written.
    Inner(String),
    /// The spend itself could not be written.
    Spend(String),
}

/// What a [`DriverFault`] says.
pub enum DriverFaultView {
    /// A hint could not be written.
    Hint(Seq<char>),
    /// The inner spend of a CAT could not be written.
    Inner(Seq<char>),
    /// The spend itself could not be written.
    Spend(Seq<char>),
}

impl View for DriverFault {
    type V = DriverFaultView;

    open spec fn view(&self) -> DriverFaultView {
        match self {
            DriverFault::Hint(text) => DriverFaultView::Hint(text@),
            DriverFault::Inner(text) => DriverFaultView::Inner(text@),
            DriverFault::Spend(text) => DriverFaultView::Spend(text@),
        }
    }
}

/// The text of a driver's fault, under the label of the spend that it failed.
pub open spec fn driver_fault_text(fault: DriverFaultView, label: Seq<char>) -> Seq<char> {
    match fault {
        DriverFaultView::Hint(text) => "hint: "@ + text,
        DriverFaultView::Inner(text) => "cat inner spend: "@ + text,
        DriverFaultView::Spend(text) => label + text,
    }
}

/// Writes the text of a driver's fault.
pub(crate) fn describe_fault(fault: &DriverFault, label: &str) -> (text: String)
    ensures
        text@ == driver_fault_text(fault@, label@),
{
    match fault {
        DriverFault::Hint(text) => joined("hint: ", text.as_str()),
        DriverFault::Inner(text) => joined("cat inner spend: ", text.as_str()),
        DriverFault::Spend(text) => joined(label, text.as_str()),
    }
}

/// A key in the type of the BLS library.
#[verifier::external_type_specification]
#[verifier::external_body]
pub struct ExBlsKey(BlsPoint);

/// Writes a key in the type of the BLS library, with `PublicKey::from_bytes`. It refuses bytes
/// that are no point on the curve.
#[verifier::external_body]
pub(crate) fn bls_key(key: &PublicKey) -> Result<BlsPoint, String> {
    BlsPoint::from_bytes(&key.0).map_err(|fault| format!("{fault:?}"))
}

/// Writes a coin in the protocol's own type.
#[verifier::external_body]
pub(crate) fn protocol_coin(coin: &WalletCoin) -> chia_protocol::Coin {
    let parent = coin.parent_coin_info.0.into();
    chia_protocol::Coin::new(parent, coin.puzzle_hash.0.into(), coin.amount)
}

/// Reads a coin from the protocol's own type.
#[verifier::external_body]
pub(crate) fn plain_coin(coin: &chia_protocol::Coin) -> WalletCoin {
    let parent_coin_info = Bytes32(coin.parent_coin_info.to_bytes());
    WalletCoin { parent_coin_info, puzzle_hash: Bytes32(coin.puzzle_hash.to_bytes()), amount: coin.amount }
}

/// Writes coin spends in the protocol's own type.
#[verifier::external_body]
pub(crate) fn protocol_spends(spends: &[WalletSpend]) -> Vec<chia_protocol::CoinSpend> {
    spends.iter().map(|spend| {
        let puzzle = spend.puzzle_reveal.clone().into();
        chia_protocol::CoinSpend::new(protocol_coin(&spend.coin), puzzle, spend.solution.clone().into())
    }).collect()
}

/// Reads coin spends from the protocol's own type.
#[verifier::external_body]
pub(crate) fn plain_spends(spends: Vec<chia_protocol::CoinSpend>) -> Vec<WalletSpend> {
    spends.into_iter().map(|spend| WalletSpend {
        coin: plain_coin(&spend.coin),
        puzzle_reveal: spend.puzzle_reveal.to_vec(),
        solution: spend.solution.to_vec(),
    }).collect()
}

/// Writes a CAT in the driver's own type.
#[verifier::external_body]
pub(crate) fn driver_cat(cat: &WalletCat) -> chia_wallet_sdk::driver::Cat {
    let hidden = cat.hidden_puzzle_hash.map(|hash| hash.0.into());
    let info = CatInfo::new(cat.asset_id.0.into(), hidden, cat.p2_puzzle_hash.0.into());
    let proof = cat.lineage_proof.map(|lineage| chia_puzzle_types::LineageProof {
        parent_parent_coin_info: lineage.parent_parent_coin_info.0.into(),
        parent_inner_puzzle_hash: lineage.parent_inner_puzzle_hash.0.into(),
        parent_amount: lineage.parent_amount,
    });
    chia_wallet_sdk::driver::Cat::new(protocol_coin(&cat.coin), proof, info)
}

/// Writes conditions in the driver's own type; hints are allocated in `ctx`.
#[verifier::external_body]
pub(crate) fn driver_conditions(
    ctx: &mut SpendContext,
    conditions: &Vec<Condition>,
) -> Result<chia_wallet_sdk::types::Conditions<clvmr::NodePtr>, String> {
    let mut list = chia_wallet_sdk::types::Conditions::new();
    for condition in conditions {
        list = match *condition {
            Condition::CreateCoin { puzzle_hash, amount, hint: Some(hint) } => {
                let memos = ctx.hint(hint.0.into()).map_err(|fault| format!("{fault:?}"))?;
                list.create_coin(puzzle_hash.0.into(), amount, memos)
            },
            Condition::CreateCoin { puzzle_hash, amount, hint: None } =>
                list.create_coin(puzzle_hash.0.into(), amount, Memos::None),
            Condition::ReserveFee { amount } => list.reserve_fee(amount),
            Condition::AssertConcurrentSpend { coin_id } => list.assert_concurrent_spend(coin_id.0.into()),
        };
    }
    Ok(list)
}

/// The spend that the standard layer builds for a coin under a key with conditions, or what it
/// says when it cannot.
pub uninterp spec fn standard_spend_of(
    key: PublicKey,
    coin: WalletCoin,
    conditions: Seq<Condition>,
) -> Result<WalletSpendView, DriverFaultView>;

/// Spends a coin under its key with conditions.
///
/// Calls `StandardLayer::spend` in a fresh context and takes the one coin spend that it adds,
/// which is a spend of that coin. A key whose bytes are no point on the curve is a failure too.
#[verifier::external_body]
pub(crate) fn standard_spend(
    key: &PublicKey,
    coin: &WalletCoin,
    conditions: &Vec<Condition>,
) -> (result: Result<WalletSpend, DriverFault>)
    ensures
        match result {
            Ok(spend) => standard_spend_of(*key, *coin, conditions@) == Ok::<
                WalletSpendView,
                DriverFaultView,
            >(spend@) && spend.coin == *coin,
            Err(fault) => standard_spend_of(*key, *coin, conditions@) == Err::<
                WalletSpendView,
                DriverFaultView,
            >(fault@),
        },
{
    let mut ctx = SpendContext::new();
    let key = bls_key(key).map_err(DriverFault::Spend)?;
    let list = driver_conditions(&mut ctx, conditions).map_err(DriverFault::Hint)?;
    let spent = StandardLayer::new(key).spend(&mut ctx, protocol_coin(coin), list);
    spent.map_err(|fault| DriverFault::Spend(format!("{fault:?}")))?;
    Ok(plain_spends(ctx.take()).remove(0))
}

/// The spends that the CAT driver builds for a ring of CAT inputs, or what it says when it
/// cannot.
pub uninterp spec fn cat_ring_of(inputs: Seq<CatInputView>) -> Result<
    Seq<WalletSpendView>,
    DriverFaultView,
>;

/// Spends a ring of CAT coins.
///
/// Calls `Cat::spend_all` in a fresh context, each input with the inner spend that
/// `StandardLayer::spend_with_conditions` gives for its key and conditions. The context then
/// holds one spend per input, of that input's coin, in the order of the inputs.
#[verifier::external_body]
pub(crate) fn cat_ring(inputs: &Vec<CatInput>) -> (result: Result<Vec<WalletSpend>, DriverFault>)
    ensures
        match result {
            Ok(spends) => {
                &&& cat_ring_of(cat_inputs_view(inputs@)) == Ok::<
                    Seq<WalletSpendView>,
                    DriverFaultView,
                >(spends_view(spends@))
                &&& spends@.len() == inputs@.len()
                &&& forall|i: int|
                    0 <= i < inputs@.len() ==> (#[trigger] spends@[i]).coin == inputs@[i].cat.coin
            },
            Err(fault) => cat_ring_of(cat_inputs_view(inputs@)) == Err::<
                Seq<WalletSpendView>,
                DriverFaultView,
            >(fault@),
        },
{
    let mut ctx = SpendContext::new();
    let mut ring = Vec::new();
    for input in inputs {
        let key = bls_key(&input.key).map_err(DriverFault::Inner)?;
        let list = driver_conditions(&mut ctx, &input.conditions).map_err(DriverFault::Hint)?;
        let inner = StandardLayer::new(key).spend_with_conditions(&mut ctx, list);
        let inner = inner.map_err(|fault| DriverFault::Inner(format!("{fault:?}")))?;
        ring.push(CatSpend::new(driver_cat(&input.cat), inner));
    }
    let spent = chia_wallet_sdk::driver::Cat::spend_all(&mut ctx, &ring);
    spent.map_err(|fault| DriverFault::Spend(format!("{fault:?}")))?;
    Ok(plain_spends(ctx.take()))
}

/// The signatures that the signature extractor finds coin spends to need under an
/// aggregate-signature domain, or what it says when it cannot run them.
pub uninterp spec fn signatures_needed(
    spends: Seq<WalletSpendView>,
    agg_sig_me: Seq<u8>,
) -> Result<Seq<ExtractedSignatureView>, Seq<char>>;

/// Extracts the signatures that coin spends need.
///
/// Calls `RequiredSignature::from_coin_spends`, which runs each puzzle on its solution and
/// collects the signature conditions; it uses no key.
#[verifier::external_body]
pub(crate) fn extract_signatures(
    spends: &Vec<WalletSpend>,
    agg_sig_me: &Bytes32,
) -> (result: Result<Vec<ExtractedSignature>, String>)
    ensures
        match result {
            Ok(found) => signatures_needed(spends_view(spends@), agg_sig_me@) == Ok::<
                Seq<ExtractedSignatureView>,
                Seq<char>,
            >(extracted_view(found@)),
            Err(fault) => signatures_needed(spends_view(spends@), agg_sig_me@) == Err::<
                Seq<ExtractedSignatureView>,
                Seq<char>,
            >(fault@),
        },
{
    let constants = AggSigConstants::new(agg_sig_me.0.into());
    let found = chia_wallet_sdk::signer::RequiredSignature::from_coin_spends(
        &mut clvmr::Allocator::new(), &protocol_spends(spends), &constants);
    Ok(found.map_err(|fault| format!("{fault:?}"))?.into_iter().map(|item| match item {
        chia_wallet_sdk::signer::RequiredSignature::Bls(bls) => ExtractedSignature::Bls(
            RequiredSignature { public_key: PublicKey(bls.public_key.to_bytes()), message: bls.message() }),
        chia_wallet_sdk::signer::RequiredSignature::Secp(_) => ExtractedSignature::Secp,
    }).collect())
}

/// The puzzle hash that an address stands for, or what the decoder says of a malformed one.
pub uninterp spec fn address_puzzle_hash(address: Seq<char>) -> Result<Bytes32, Seq<char>>;

/// Decodes a bech32m address.
///
/// Calls `chia_wallet_sdk::utils::Address::decode` and takes the puzzle hash.
#[verifier::external_body]
pub(crate) fn decode_bech32(address: &str) -> (result: Result<Bytes32, String>)
    ensures
        match result {
            Ok(puzzle_hash) => address_puzzle_hash(address@) == Ok::<Bytes32, Seq<char>>(puzzle_hash),
            Err(fault) => address_puzzle_hash(address@) == Err::<Bytes32, Seq<char>>(fault@),
        },
{
    match chia_wallet_sdk::utils::Address::decode(address) {
        Ok(decoded) => Ok(Bytes32(decoded.puzzle_hash.to_bytes())),
        Err(fault) => Err(format!("{fault:?}")),
    }
}

/// The address text of a puzzle hash under a prefix, or what the encoder says when it cannot.
pub uninterp spec fn puzzle_hash_address(
    puzzle_hash: Bytes32,
    prefix: Seq<char>,
) -> Result<Seq<char>, Seq<char>>;

/// Encodes a puzzle hash as a bech32m address.
///
/// Calls `chia_wallet_sdk::utils::Address::encode`.
#[verifier::external_body]
pub(crate) fn encode_bech32(puzzle_hash: &Bytes32, prefix: &str) -> (result: Result<String, String>)
    ensures
        match result {
            Ok(address) => puzzle_hash_address(*puzzle_hash, prefix@) == Ok::<Seq<char>, Seq<char>>(
                address@,
            ),
            Err(fault) => puzzle_hash_address(*puzzle_hash, prefix@) == Err::<Seq<char>, Seq<char>>(
                fault@,
            ),
        },
{
    let address = chia_wallet_sdk::utils::Address::new(puzzle_hash.0.into(), prefix.to_string());
    address.encode().map_err(|fault| format!("{fault:?}"))
}

/// The bytes of the mainnet aggregate-signature domain.
pub open spec fn mainnet_domain() -> Seq<u8> {
    seq![
        0xccu8, 0xd5, 0xbb, 0x71, 0x18, 0x35, 0x32, 0xbf, 0xf2, 0x20, 0xba, 0x46, 0xc2, 0x68, 0x99, 0x1a,
        0x3f, 0xf0, 0x7e, 0xb3, 0x58, 0xe8, 0x25, 0x5a, 0x65, 0xc3, 0x0a, 0x2d, 0xce, 0x0e, 0x5f, 0xbb,
    ]
}

/// The bytes of the testnet11 aggregate-signature domain.
pub open spec fn testnet_domain() -> Seq<u8> {
    seq![
        0x37u8, 0xa9, 0x0e, 0xb5, 0x18, 0x5a, 0x9c, 0x44, 0x39, 0xa9, 0x1d, 0xdc, 0x98, 0xbb, 0xad, 0xce,
        0x7b, 0x4f, 0xeb, 0xa0, 0x60, 0xd5, 0x01, 0x16, 0xa0, 0x67, 0xde, 0x66, 0xbf, 0x23, 0x66, 0x15,
    ]
}

/// Reads `dig_constants::CHIA_L1_MAINNET_AGG_SIG_ME`.
#[verifier::external_body]
pub(crate) fn mainnet_agg_sig_me() -> (domain: Bytes32)
    ensures
        domain@ == mainnet_domain(),
{
    Bytes32(dig_constants::CHIA_L1_MAINNET_AGG_SIG_ME)
}

/// Reads `dig_constants::CHIA_L1_TESTNET11_AGG_SIG_ME`.
#[verifier::external_body]
pub(crate) fn testnet_agg_sig_me() -> (domain: Bytes32)
    ensures
        domain@ == testnet_domain(),
{
    Bytes32(dig_constants::CHIA_L1_TESTNET11_AGG_SIG_ME)
}

} // verus!
