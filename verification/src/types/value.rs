//! Amounts, addresses, asset records and the review summary of a spend.

use vstd::prelude::*;

use crate::text::optional_text;

verus! {

/// An on-chain value in the smallest unit (mojos).
#[derive(Debug, Clone, Copy, PartialEq, Eq, PartialOrd, Ord, Hash, Structural)]
pub struct Amount(pub u64);

impl Amount {
    /// The raw value in mojos.
    pub fn mojos(self) -> (mojos: u64)
        ensures
            mojos == self.0,
    {
        self.0
    }
}

/// A CAT asset identifier: the hex of the asset's TAIL hash.
#[derive(Debug, PartialEq, Eq, PartialOrd, Ord, Hash)]
pub struct AssetId(pub String);

impl View for AssetId {
    type V = Seq<char>;

    open spec fn view(&self) -> Seq<char> {
        self.0@
    }
}

impl Clone for AssetId {
    fn clone(&self) -> (copy: Self)
        ensures
            copy == *self,
    {
        AssetId(self.0.clone())
    }
}

/// The characters of an optional asset id.
pub open spec fn optional_asset(asset: Option<AssetId>) -> Option<Seq<char>> {
    match asset {
        Some(a) => Some(a@),
        None => None,
    }
}

/// A copy of an optional asset id.
pub fn clone_asset(asset: &Option<AssetId>) -> (copy: Option<AssetId>)
    ensures
        copy == *asset,
{
    match asset {
        Some(a) => Some(a.clone()),
        None => None,
    }
}

/// A copy of an optional text.
pub fn clone_text(text: &Option<String>) -> (copy: Option<String>)
    ensures
        copy == *text,
{
    match text {
        Some(t) => Some(t.clone()),
        None => None,
    }
}

/// The Chia network that an engine instance works on.
#[derive(Debug, Clone, Copy, PartialEq, Eq, Hash, Structural)]
pub enum Network {
    /// The production network.
    Mainnet,
    /// A test network.
    Testnet,
    /// A local simulator.
    Simulator,
}

/// A bech32m payment address (`xch1…`), kept as text.
#[derive(Debug, PartialEq, Eq, Hash)]
pub struct Address(pub String);

impl View for Address {
    type V = Seq<char>;

    open spec fn view(&self) -> Seq<char> {
        self.0@
    }
}

impl Clone for Address {
    fn clone(&self) -> (copy: Self)
        ensures
            copy == *self,
    {
        Address(self.0.clone())
    }
}

/// A 32-byte puzzle hash in lowercase hex, without `0x`.
#[derive(Debug, PartialEq, Eq, Hash)]
pub struct Puzzlehash(pub String);

impl View for Puzzlehash {
    type V = Seq<char>;

    open spec fn view(&self) -> Seq<char> {
        self.0@
    }
}

impl Clone for Puzzlehash {
    fn clone(&self) -> (copy: Self)
        ensures
            copy == *self,
    {
        Puzzlehash(self.0.clone())
    }
}

/// A tracked coin as the state store records it.
#[derive(Debug, PartialEq, Eq)]
pub struct CoinRecord {
    /// The coin id (hex).
    pub coin_id: String,
    /// The coin's puzzle hash.
    pub puzzle_hash: Puzzlehash,
    /// The coin's value.
    pub amount: Amount,
    /// The height that the coin was created at, if confirmed.
    pub created_height: Option<u32>,
    /// The height that the coin was spent at, if spent.
    pub spent_height: Option<u32>,
}

/// What a [`CoinRecord`] says.
pub struct CoinRecordView {
    /// The coin id.
    pub coin_id: Seq<char>,
    /// The puzzle hash.
    pub puzzle_hash: Seq<char>,
    /// The value in mojos.
    pub amount: u64,
    /// The creation height.
    pub created_height: Option<u32>,
    /// The spend height.
    pub spent_height: Option<u32>,
}

impl View for CoinRecord {
    type V = CoinRecordView;

    open spec fn view(&self) -> CoinRecordView {
        CoinRecordView {
            coin_id: self.coin_id@,
            puzzle_hash: self.puzzle_hash@,
            amount: self.amount.0,
            created_height: self.created_height,
            spent_height: self.spent_height,
        }
    }
}

impl Clone for CoinRecord {
    fn clone(&self) -> (copy: Self)
        ensures
            copy == *self,
    {
        CoinRecord {
            coin_id: self.coin_id.clone(),
            puzzle_hash: self.puzzle_hash.clone(),
            amount: self.amount,
            created_height: self.created_height,
            spent_height: self.spent_height,
        }
    }
}

/// A CAT balance line.
#[derive(Debug, PartialEq, Eq)]
pub struct CatRecord {
    /// The CAT asset id.
    pub asset_id: AssetId,
    /// The spendable balance of the asset.
    pub balance: Amount,
    /// A ticker or name, when known.
    pub name: Option<String>,
}

/// What a [`CatRecord`] says.
pub struct CatRecordView {
    /// The asset id.
    pub asset_id: Seq<char>,
    /// The balance in base units.
    pub balance: u64,
    /// The name.
    pub name: Option<Seq<char>>,
}

impl View for CatRecord {
    type V = CatRecordView;

    open spec fn view(&self) -> CatRecordView {
        CatRecordView {
            asset_id: self.asset_id@,
            balance: self.balance.0,
            name: optional_text(self.name),
        }
    }
}

impl Clone for CatRecord {
    fn clone(&self) -> (copy: Self)
        ensures
            copy == *self,
    {
        CatRecord {
            asset_id: self.asset_id.clone(),
            balance: self.balance,
            name: clone_text(&self.name),
        }
    }
}

/// An NFT that the wallet controls.
#[derive(Debug, PartialEq, Eq)]
pub struct NftRecord {
    /// The NFT launcher id (hex).
    pub launcher_id: String,
    /// The current data URI, when resolved.
    pub data_uri: Option<String>,
}

/// What an [`NftRecord`] says.
pub struct NftRecordView {
    /// The launcher id.
    pub launcher_id: Seq<char>,
    /// The data URI.
    pub data_uri: Option<Seq<char>>,
}

impl View for NftRecord {
    type V = NftRecordView;

    open spec fn view(&self) -> NftRecordView {
        NftRecordView { launcher_id: self.launcher_id@, data_uri: optional_text(self.data_uri) }
    }
}

impl Clone for NftRecord {
    fn clone(&self) -> (copy: Self)
        ensures
            copy == *self,
    {
        NftRecord { launcher_id: self.launcher_id.clone(), data_uri: clone_text(&self.data_uri) }
    }
}

/// A DID that the wallet controls.
#[derive(Debug, PartialEq, Eq)]
pub struct DidRecord {
    /// The DID launcher id (hex).
    pub launcher_id: String,
    /// A label that the user gave it, when set.
    pub name: Option<String>,
}

/// What a [`DidRecord`] says.
pub struct DidRecordView {
    /// The launcher id.
    pub launcher_id: Seq<char>,
    /// The label.
    pub name: Option<Seq<char>>,
}

impl View for DidRecord {
    type V = DidRecordView;

    open spec fn view(&self) -> DidRecordView {
        DidRecordView { launcher_id: self.launcher_id@, name: optional_text(self.name) }
    }
}

impl Clone for DidRecord {
    fn clone(&self) -> (copy: Self)
        ensures
            copy == *self,
    {
        DidRecord { launcher_id: self.launcher_id.clone(), name: clone_text(&self.name) }
    }
}

/// A wallet's aggregate balance of the native asset.
#[derive(Debug, Clone, Copy, PartialEq, Eq, Structural)]
pub struct Balance {
    /// The value that is confirmed and unspent.
    pub confirmed: Amount,
    /// The value that can be spent.
    pub spendable: Amount,
}

impl Default for Balance {
    /// Both fields zero.
    fn default() -> (balance: Self)
        ensures
            balance.confirmed.0 == 0,
            balance.spendable.0 == 0,
    {
        Balance { confirmed: Amount(0), spendable: Amount(0) }
    }
}

/// A summary of a spend's net effect, which travels with an unsigned spend for review.
#[derive(Debug, PartialEq, Eq)]
#[non_exhaustive]
pub struct TransactionSummary {
    /// The value that leaves the wallet, one line per recipient or protocol sink.
    pub outputs: Vec<SpendOutput>,
    /// The value that a two-sided action brings in. Empty for a one-way send.
    pub received: Vec<SpendOutput>,
    /// The fee paid to the farmer.
    pub fee: Amount,
    /// The coin id (hex) of every singleton that the spend destroys.
    pub melted_singletons: Vec<String>,
    /// One description per NFT action that the spend performs.
    pub nft_operations: Vec<String>,
}

/// What a [`TransactionSummary`] says.
pub struct SummaryView {
    /// The value that leaves the wallet.
    pub outputs: Seq<SpendOutputView>,
    /// The value that comes in.
    pub received: Seq<SpendOutputView>,
    /// The fee in mojos.
    pub fee: u64,
    /// The destroyed singletons.
    pub melted_singletons: Seq<Seq<char>>,
    /// The NFT actions.
    pub nft_operations: Seq<Seq<char>>,
}

/// What a list of output lines says.
pub open spec fn outputs_view(outputs: Seq<SpendOutput>) -> Seq<SpendOutputView> {
    outputs.map_values(|o: SpendOutput| o@)
}

/// The characters of each text in a list.
pub open spec fn texts_view(texts: Seq<String>) -> Seq<Seq<char>> {
    texts.map_values(|t: String| t@)
}

/// A summary that only pays `outputs` and a fee.
pub open spec fn plain_summary(outputs: Seq<SpendOutputView>, fee: u64) -> SummaryView {
    SummaryView {
        outputs,
        received: Seq::empty(),
        fee,
        melted_singletons: Seq::empty(),
        nft_operations: Seq::empty(),
    }
}

impl View for TransactionSummary {
    type V = SummaryView;

    open spec fn view(&self) -> SummaryView {
        SummaryView {
            outputs: outputs_view(self.outputs@),
            received: outputs_view(self.received@),
            fee: self.fee.0,
            melted_singletons: texts_view(self.melted_singletons@),
            nft_operations: texts_view(self.nft_operations@),
        }
    }
}

impl TransactionSummary {
    /// A one-way-send summary: no received lines, no singleton destroyed, no NFT action.
    pub fn new(outputs: Vec<SpendOutput>, fee: Amount) -> (summary: Self)
        ensures
            summary@ == plain_summary(outputs_view(outputs@), fee.0),
    {
        let summary = TransactionSummary {
            outputs,
            received: Vec::new(),
            fee,
            melted_singletons: Vec::new(),
            nft_operations: Vec::new(),
        };
        assert(summary@.received =~= Seq::empty());
        assert(summary@.melted_singletons =~= Seq::empty());
        assert(summary@.nft_operations =~= Seq::empty());
        summary
    }
}

impl Clone for TransactionSummary {
    fn clone(&self) -> (copy: Self)
        ensures
            copy@ == self@,
    {
        let copy = TransactionSummary {
            outputs: clone_outputs(&self.outputs),
            received: clone_outputs(&self.received),
            fee: self.fee,
            melted_singletons: clone_texts(&self.melted_singletons),
            nft_operations: clone_texts(&self.nft_operations),
        };
        copy
    }
}

/// A copy of a list of output lines.
pub fn clone_outputs(outputs: &Vec<SpendOutput>) -> (copy: Vec<SpendOutput>)
    ensures
        copy@ == outputs@,
{
    let mut copy: Vec<SpendOutput> = Vec::new();
    let mut i: usize = 0;
    while i < outputs.len()
        invariant
            i <= outputs.len(),
            copy@ == outputs@.subrange(0, i as int),
        decreases outputs.len() - i,
    {
        copy.push(outputs[i].clone());
        i = i + 1;
        assert(copy@ =~= outputs@.subrange(0, i as int));
    }
    assert(copy@ =~= outputs@);
    copy
}

/// A copy of a list of texts.
pub fn clone_texts(texts: &Vec<String>) -> (copy: Vec<String>)
    ensures
        copy@ == texts@,
{
    let mut copy: Vec<String> = Vec::new();
    let mut i: usize = 0;
    while i < texts.len()
        invariant
            i <= texts.len(),
            copy@ == texts@.subrange(0, i as int),
        decreases texts.len() - i,
    {
        copy.push(texts[i].clone());
        i = i + 1;
        assert(copy@ =~= texts@.subrange(0, i as int));
    }
    assert(copy@ =~= texts@);
    copy
}

/// One line of a [`TransactionSummary`].
#[derive(Debug, PartialEq, Eq)]
#[non_exhaustive]
pub struct SpendOutput {
    /// The destination address; empty for a protocol sink.
    pub address: Address,
    /// The amount sent to it.
    pub amount: Amount,
    /// The asset sent; `None` is native XCH.
    pub asset_id: Option<AssetId>,
}

/// What a [`SpendOutput`] says.
pub struct SpendOutputView {
    /// The destination address.
    pub address: Seq<char>,
    /// The amount in base units.
    pub amount: u64,
    /// The asset.
    pub asset_id: Option<Seq<char>>,
}

impl View for SpendOutput {
    type V = SpendOutputView;

    open spec fn view(&self) -> SpendOutputView {
        SpendOutputView {
            address: self.address@,
            amount: self.amount.0,
            asset_id: optional_asset(self.asset_id),
        }
    }
}

impl Clone for SpendOutput {
    fn clone(&self) -> (copy: Self)
        ensures
            copy == *self,
    {
        SpendOutput {
            address: self.address.clone(),
            amount: self.amount,
            asset_id: clone_asset(&self.asset_id),
        }
    }
}

impl SpendOutput {
    /// An output line.
    pub fn new(address: Address, amount: Amount, asset_id: Option<AssetId>) -> (output: Self)
        ensures
            output == (SpendOutput { address, amount, asset_id }),
    {
        SpendOutput { address, amount, asset_id }
    }

    /// Whether this line is a settlement or protocol sink rather than a payment to a recipient:
    /// exactly when its address is empty.
    pub fn is_protocol_sink(&self) -> (sink: bool)
        ensures
            sink == (self@.address.len() == 0),
    {
        self.address.0.as_str().is_empty()
    }
}

/// A settled transaction as it appears in history.
#[derive(Debug, PartialEq, Eq)]
pub struct TransactionRecord {
    /// The transaction id (hex).
    pub tx_id: String,
    /// The height that it confirmed at, if confirmed.
    pub confirmed_height: Option<u32>,
    /// Its summarized effect.
    pub summary: TransactionSummary,
}

/// What a [`TransactionRecord`] says.
pub struct TransactionRecordView {
    /// The transaction id.
    pub tx_id: Seq<char>,
    /// The confirmation height.
    pub confirmed_height: Option<u32>,
    /// The effect.
    pub summary: SummaryView,
}

impl View for TransactionRecord {
    type V = TransactionRecordView;

    open spec fn view(&self) -> TransactionRecordView {
        TransactionRecordView {
            tx_id: self.tx_id@,
            confirmed_height: self.confirmed_height,
            summary: self.summary@,
        }
    }
}

impl Clone for TransactionRecord {
    fn clone(&self) -> (copy: Self)
        ensures
            copy@ == self@,
    {
        TransactionRecord {
            tx_id: self.tx_id.clone(),
            confirmed_height: self.confirmed_height,
            summary: self.summary.clone(),
        }
    }
}

} // verus!
