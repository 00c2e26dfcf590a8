//! Reading NFTs, DIDs and CATs out of a parent spend.
//!
//! A peer reports coins, not what they are: that stands in the spend of the parent. The drivers
//! read one family each; here the candidates are found and the answers are sorted. An answer that
//! could not be read is counted, never an error, so that one odd coin does not stop a sync. Only a
//! spend that does not run at all is an error.

use vstd::prelude::*;
use vstd::string::*;

use super::builder::spend_failed;
use super::singleton_driver::{
    cat_children_of, conditions_of, decode_fault, hydrated_did, nft_child_of, program_fault,
    read_cats, read_did, read_nft, run_spend, CreatedCoin, DidFault, DidFaultView, ParsedCats,
    ParsedCatsView, ParsedNft, ParsedNftView, RunFault, RunFaultView, WalletDid,
};
use crate::text::{hex_encode, hex_round_trip, hex_text, joined, same_text};
use crate::types::chain::{
    id_of, lemma_bytes32_view, Bytes32, WalletCoin, WalletSpend, WalletSpendView,
};
use crate::types::error::{spend_fault, WalletError, WalletErrorView, WalletResult};
use crate::types::value::{
    texts_view, Amount, AssetId, CatRecord, CatRecordView, DidRecord, DidRecordView, NftRecord,
    NftRecordView,
};

verus! {

/// What one parent spend creates, by family.
#[derive(Debug, Clone, PartialEq, Eq)]
pub struct HydratedSingletons {
    /// The DIDs.
    pub dids: Vec<DidRecord>,
    /// The NFTs.
    pub nfts: Vec<NftRecord>,
    /// The CAT balances, one line for each asset.
    pub cats: Vec<CatRecord>,
    /// How many candidates looked like one of a family and could not be read.
    pub skipped: usize,
}

/// What [`HydratedSingletons`] says.
pub struct HydratedView {
    /// The DIDs.
    pub dids: Seq<DidRecordView>,
    /// The NFTs.
    pub nfts: Seq<NftRecordView>,
    /// The CAT balances.
    pub cats: Seq<CatRecordView>,
    /// How many could not be read.
    pub skipped: usize,
}

impl View for HydratedSingletons {
    type V = HydratedView;

    open spec fn view(&self) -> HydratedView {
        HydratedView {
            dids: self.dids@.map_values(|d: DidRecord| d@),
            nfts: self.nfts@.map_values(|n: NftRecord| n@),
            cats: self.cats@.map_values(|c: CatRecord| c@),
            skipped: self.skipped,
        }
    }
}

/// Nothing found, nothing skipped.
pub open spec fn nothing() -> HydratedView {
    HydratedView { dids: Seq::empty(), nfts: Seq::empty(), cats: Seq::empty(), skipped: 0 }
}

/// One more; the count stays at the end of the machine word.
pub open spec fn one_more(count: usize) -> usize {
    if count == usize::MAX {
        count
    } else {
        (count + 1) as usize
    }
}

/// One more skipped.
pub open spec fn skipping(found: HydratedView) -> HydratedView {
    HydratedView { skipped: one_more(found.skipped), ..found }
}

/// What is found with the answer about an NFT. The record shows the first data URI.
pub open spec fn with_nft(found: HydratedView, parsed: ParsedNftView) -> HydratedView {
    match parsed {
        ParsedNftView::Child { launcher_id, data_uris } => HydratedView {
            nfts: found.nfts.push(
                NftRecordView {
                    launcher_id: hex_text(launcher_id@),
                    data_uri: match data_uris {
                        Some(uris) => if uris.len() > 0 {
                            Some(uris[0])
                        } else {
                            None
                        },
                        None => None,
                    },
                },
            ),
            ..found
        },
        ParsedNftView::NotNft => found,
        ParsedNftView::Failed => skipping(found),
    }
}

/// What is found with the answer about one DID candidate. That a coin is no DID, or that a DID
/// has no next coin, is an ordinary fact and not skipped.
pub open spec fn with_did(found: HydratedView, answer: Result<WalletDid, DidFaultView>) -> HydratedView {
    match answer {
        Ok(did) => HydratedView {
            dids: found.dids.push(
                DidRecordView { launcher_id: hex_text(did.launcher_id@), name: None },
            ),
            ..found
        },
        Err(DidFaultView::NotDid(_)) => found,
        Err(DidFaultView::MissingLineage(_)) => found,
        Err(DidFaultView::Other(_)) => skipping(found),
    }
}

/// What is found with the answers about the first `n` DID candidates.
pub open spec fn with_dids(
    found: HydratedView,
    parent: WalletSpendView,
    candidates: Seq<WalletCoin>,
    n: nat,
) -> HydratedView
    decreases n,
{
    if n == 0 {
        found
    } else {
        with_did(
            with_dids(found, parent, candidates, (n - 1) as nat),
            hydrated_did(parent, candidates[n - 1]),
        )
    }
}

/// The coins of an odd amount among the first `n` conditions of a spend. Only such a coin can be
/// the next of a singleton.
pub open spec fn odd_coins(parent: WalletCoin, created: Seq<Option<CreatedCoin>>, n: nat) -> Seq<
    WalletCoin,
>
    decreases n,
{
    if n == 0 {
        Seq::empty()
    } else {
        let before = odd_coins(parent, created, (n - 1) as nat);
        match created[n - 1] {
            Some(made) => if made.amount % 2 == 1 {
                before.push(
                    WalletCoin {
                        parent_coin_info: id_of(parent),
                        puzzle_hash: made.puzzle_hash,
                        amount: made.amount,
                    },
                )
            } else {
                before
            },
            None => before,
        }
    }
}

/// What the first `n` coins hold of an asset.
pub open spec fn held_of(children: Seq<(Bytes32, u64)>, asset: Bytes32, n: nat) -> nat
    decreases n,
{
    if n == 0 {
        0
    } else {
        held_of(children, asset, (n - 1) as nat) + if children[n - 1].0 == asset {
            children[n - 1].1 as nat
        } else {
            0
        }
    }
}

/// Whether what coins hold of each asset fits a machine word.
pub open spec fn balances_fit(children: Seq<(Bytes32, u64)>) -> bool {
    forall|asset: Bytes32| #[trigger] held_of(children, asset, children.len()) <= u64::MAX
}

/// The assets of the first `n` coins, each once, in the order in which they first occur.
pub open spec fn assets_of(children: Seq<(Bytes32, u64)>, n: nat) -> Seq<Bytes32>
    decreases n,
{
    if n == 0 {
        Seq::empty()
    } else {
        let before = assets_of(children, (n - 1) as nat);
        if before.contains(children[n - 1].0) {
            before
        } else {
            before.push(children[n - 1].0)
        }
    }
}

/// One balance line for each asset: what the coins hold of it.
pub open spec fn balance_lines(children: Seq<(Bytes32, u64)>, n: nat) -> Seq<CatRecordView> {
    assets_of(children, n).map_values(
        |asset: Bytes32|
            CatRecordView {
                asset_id: hex_text(asset@),
                balance: held_of(children, asset, n) as u64,
                name: None,
            },
    )
}

/// What is found with the answer about CATs.
pub open spec fn with_cats(found: HydratedView, parsed: ParsedCatsView) -> HydratedView {
    match parsed {
        ParsedCatsView::Children(children) => HydratedView {
            cats: balance_lines(children, children.len()),
            ..found
        },
        ParsedCatsView::NotCat => found,
        ParsedCatsView::Failed => skipping(found),
    }
}

/// The error of a spend that does not run.
pub open spec fn run_error(fault: RunFaultView) -> WalletErrorView {
    match fault {
        RunFaultView::Puzzle(text) => spend_fault("puzzle reveal: "@ + text),
        RunFaultView::Solution(text) => spend_fault("solution: "@ + text),
        RunFaultView::Run(text) => spend_fault("spend did not run: "@ + text),
        RunFaultView::Conditions(text) => spend_fault("conditions: "@ + text),
    }
}

/// What a parent spend creates: the NFT, then the DIDs, then the CATs.
pub open spec fn hydrated_of(parent: WalletSpendView) -> Result<HydratedView, WalletErrorView> {
    match program_fault(parent.puzzle_reveal) {
        Some(text) => Err(spend_fault("puzzle reveal: "@ + text)),
        None => match program_fault(parent.solution) {
            Some(text) => Err(spend_fault("solution: "@ + text)),
            None => match conditions_of(parent) {
                Err(fault) => Err(run_error(fault)),
                Ok(created) => {
                    let candidates = odd_coins(parent.coin, created, created.len());
                    Ok(
                        with_cats(
                            with_dids(
                                with_nft(nothing(), nft_child_of(parent)),
                                parent,
                                candidates,
                                candidates.len(),
                            ),
                            cat_children_of(parent),
                        ),
                    )
                },
            },
        },
    }
}

/// Whether the CAT balances that a parent spend creates fit machine words. One that does not run
/// creates none.
pub open spec fn hydration_fits(parent: WalletSpendView) -> bool {
    conditions_of(parent) is Ok ==> (cat_children_of(parent) matches ParsedCatsView::Children(
        children,
    ) ==> balances_fit(children))
}

/// What a hydration returned, over views.
pub open spec fn hydrated_view(result: WalletResult<HydratedSingletons>) -> Result<
    HydratedView,
    WalletErrorView,
> {
    match result {
        Ok(found) => Ok(found@),
        Err(error) => Err(error@),
    }
}

impl Default for HydratedSingletons {
    /// Nothing found, nothing skipped.
    fn default() -> (found: Self)
        ensures
            found@ == nothing(),
    {
        HydratedSingletons::new()
    }
}

impl HydratedSingletons {
    /// Nothing found, nothing skipped.
    pub fn new() -> (found: Self)
        ensures
            found@ == nothing(),
    {
        let found = HydratedSingletons {
            dids: Vec::new(),
            nfts: Vec::new(),
            cats: Vec::new(),
            skipped: 0,
        };
        proof {
            assert(found@.dids =~= Seq::empty());
            assert(found@.nfts =~= Seq::empty());
            assert(found@.cats =~= Seq::empty());
        }
        found
    }

    /// Whether the spend yielded no asset.
    pub fn is_empty(&self) -> (empty: bool)
        ensures
            empty == (self@.dids.len() == 0 && self@.nfts.len() == 0 && self@.cats.len() == 0),
    {
        self.dids.len() == 0 && self.nfts.len() == 0 && self.cats.len() == 0
    }

    /// Counts one that could not be read.
    fn skip(&mut self)
        ensures
            final(self)@ == skipping(old(self)@),
    {
        if self.skipped < usize::MAX {
            self.skipped = self.skipped + 1;
        }
    }

    /// Sorts in the answer about an NFT.
    pub fn hydrate_nft(&mut self, parsed: ParsedNft)
        ensures
            final(self)@ == with_nft(old(self)@, parsed@),
    {
        match parsed {
            ParsedNft::Child { launcher_id, data_uris } => {
                let data_uri = first_data_uri(data_uris);
                let record = NftRecord {
                    launcher_id: hex_encode(launcher_id.0.as_slice()),
                    data_uri,
                };
                self.nfts.push(record);
                assert(self@.nfts =~= old(self)@.nfts.push(record@));
            },
            ParsedNft::NotNft => {},
            ParsedNft::Failed => self.skip(),
        }
    }

    /// Sorts in the answer about a DID candidate.
    pub fn hydrate_did(&mut self, answer: Result<WalletDid, DidFault>)
        ensures
            final(self)@ == with_did(
                old(self)@,
                match answer {
                    Ok(did) => Ok(did),
                    Err(fault) => Err(fault@),
                },
            ),
    {
        match answer {
            Ok(did) => {
                let record = DidRecord {
                    launcher_id: hex_encode(did.launcher_id.0.as_slice()),
                    name: None,
                };
                self.dids.push(record);
                assert(self@.dids =~= old(self)@.dids.push(record@));
            },
            Err(DidFault::NotDid(_)) => {},
            Err(DidFault::MissingLineage(_)) => {},
            Err(DidFault::Other(_)) => self.skip(),
        }
    }

    /// Asks about each DID candidate and sorts in the answers.
    fn hydrate_dids(&mut self, parent: &WalletSpend, candidates: &Vec<WalletCoin>)
        ensures
            final(self)@ == with_dids(old(self)@, parent@, candidates@, candidates@.len()),
    {
        let ghost start = self@;
        let mut i: usize = 0;
        while i < candidates.len()
            invariant
                i <= candidates@.len(),
                self@ == with_dids(start, parent@, candidates@, i as nat),
            decreases candidates@.len() - i,
        {
            self.hydrate_did(read_did(parent, &candidates[i]));
            i = i + 1;
        }
    }

    /// Sorts in the answer about CATs.
    pub fn hydrate_cats(&mut self, parsed: ParsedCats)
        requires
            parsed@ matches ParsedCatsView::Children(children) ==> balances_fit(children),
        ensures
            final(self)@ == with_cats(old(self)@, parsed@),
    {
        match parsed {
            ParsedCats::Children(children) => match total_by_asset(&children) {
                Some(cats) => {
                    self.cats = cats;
                },
                None => {},
            },
            ParsedCats::NotCat => {},
            ParsedCats::Failed => self.skip(),
        }
    }
}

/// The first data URI, when the metadata has the standard shape and any.
fn first_data_uri(data_uris: Option<Vec<String>>) -> (uri: Option<String>)
    ensures
        crate::text::optional_text(uri) == (match data_uris {
            Some(uris) => if texts_view(uris@).len() > 0 {
                Some(texts_view(uris@)[0])
            } else {
                None
            },
            None => None,
        }),
{
    match data_uris {
        Some(uris) => if uris.len() > 0 {
            Some(uris[0].clone())
        } else {
            None
        },
        None => None,
    }
}

/// The coins of an odd amount among the conditions of a spend.
pub fn odd_children(parent: &WalletCoin, created: &Vec<Option<CreatedCoin>>) -> (coins: Vec<
    WalletCoin,
>)
    ensures
        coins@ == odd_coins(*parent, created@, created@.len()),
{
    let parent_id = parent.coin_id();
    let mut coins: Vec<WalletCoin> = Vec::new();
    let mut i: usize = 0;
    while i < created.len()
        invariant
            i <= created@.len(),
            parent_id == id_of(*parent),
            coins@ == odd_coins(*parent, created@, i as nat),
        decreases created@.len() - i,
    {
        match created[i] {
            Some(made) => if made.amount % 2 == 1 {
                coins.push(
                    WalletCoin {
                        parent_coin_info: parent_id,
                        puzzle_hash: made.puzzle_hash,
                        amount: made.amount,
                    },
                );
            },
            None => {},
        }
        i = i + 1;
    }
    coins
}

/// Two assets with one hex text are one asset.
proof fn lemma_asset_text(a: Bytes32, b: Bytes32)
    requires
        hex_text(a@) == hex_text(b@),
    ensures
        a == b,
{
    hex_round_trip(a@);
    hex_round_trip(b@);
    lemma_bytes32_view(a, b);
}

proof fn lemma_held_grows(children: Seq<(Bytes32, u64)>, asset: Bytes32, i: nat, n: nat)
    requires
        i <= n,
    ensures
        held_of(children, asset, i) <= held_of(children, asset, n),
    decreases n - i,
{
    if i < n {
        lemma_held_grows(children, asset, i, (n - 1) as nat);
    }
}

pub proof fn lemma_assets(children: Seq<(Bytes32, u64)>, n: nat)
    requires
        n <= children.len(),
    ensures
        assets_of(children, n).no_duplicates(),
        forall|asset: Bytes32| #[trigger]
            assets_of(children, n).contains(asset) == (exists|i: int|
                0 <= i < n && (#[trigger] children[i]).0 == asset),
        forall|asset: Bytes32|
            !#[trigger] assets_of(children, n).contains(asset) ==> held_of(children, asset, n)
                == 0,
        assets_of(children, n).len() <= n,
    decreases n,
{
    if n > 0 {
        lemma_assets(children, (n - 1) as nat);
        let before = assets_of(children, (n - 1) as nat);
        let now = assets_of(children, n);
        let last = children[n - 1].0;
        assert forall|asset: Bytes32| #[trigger] now.contains(asset) == (before.contains(asset)
            || asset == last) by {
            if !before.contains(last) {
                if now.contains(asset) {
                    let k = choose|k: int| 0 <= k < now.len() && now[k] == asset;
                    if k < before.len() {
                        assert(before[k] == asset);
                    }
                }
                if before.contains(asset) {
                    let k = choose|k: int| 0 <= k < before.len() && before[k] == asset;
                    assert(now[k] == asset);
                }
                assert(now[before.len() as int] == last);
            }
        }
        assert forall|asset: Bytes32| #[trigger] now.contains(asset) == (exists|i: int|
            0 <= i < n && (#[trigger] children[i]).0 == asset) by {
            if before.contains(asset) {
                let i = choose|i: int| 0 <= i < n - 1 && (#[trigger] children[i]).0 == asset;
                assert(children[i].0 == asset);
            }
            if asset == last {
                assert(children[n - 1].0 == asset);
            }
            if exists|i: int| 0 <= i < n && (#[trigger] children[i]).0 == asset {
                let i = choose|i: int| 0 <= i < n && (#[trigger] children[i]).0 == asset;
                if i < n - 1 {
                    assert(before.contains(asset));
                }
            }
        }
        assert forall|asset: Bytes32| !#[trigger] now.contains(asset) implies held_of(
            children,
            asset,
            n,
        ) == 0 by {
            assert(!before.contains(asset));
        }
        assert forall|i: int, j: int| 0 <= i < now.len() && 0 <= j < now.len() && i
            != j implies now[i] != now[j] by {
            if !before.contains(last) {
                if i < before.len() {
                    assert(before.contains(before[i]));
                }
                if j < before.len() {
                    assert(before.contains(before[j]));
                }
            }
        }
    }
}

/// Adds up what coins hold of each asset, unless a sum exceeds a machine word.
pub fn total_by_asset(children: &Vec<(Bytes32, u64)>) -> (lines: Option<Vec<CatRecord>>)
    ensures
        match lines {
            Some(cats) => balances_fit(children@) && cats@.map_values(|c: CatRecord| c@)
                == balance_lines(children@, children@.len()),
            None => !balances_fit(children@),
        },
{
    let mut cats: Vec<CatRecord> = Vec::new();
    let mut i: usize = 0;
    while i < children.len()
        invariant
            i <= children@.len(),
            cats@.len() == assets_of(children@, i as nat).len(),
            forall|k: int|
                0 <= k < cats@.len() ==> (#[trigger] cats@[k])@ == (CatRecordView {
                    asset_id: hex_text(assets_of(children@, i as nat)[k]@),
                    balance: cats@[k].balance.0,
                    name: None,
                }),
            forall|k: int|
                0 <= k < cats@.len() ==> (#[trigger] cats@[k]).balance.0 == held_of(
                    children@,
                    assets_of(children@, i as nat)[k],
                    i as nat,
                ),
        decreases children@.len() - i,
    {
        let (asset, amount) = children[i];
        let text = hex_encode(asset.0.as_slice());
        let ghost before = assets_of(children@, i as nat);
        proof {
            lemma_assets(children@, i as nat);
        }
        match find_line(&cats, &text) {
            Some(at) => {
                proof {
                    lemma_asset_text(before[at as int], asset);
                    assert(before.contains(asset));
                }
                match cats[at].balance.mojos().checked_add(amount) {
                    Some(balance) => {
                        let line = CatRecord {
                            asset_id: AssetId(text),
                            balance: Amount(balance),
                            name: None,
                        };
                        let ghost held = cats@;
                        cats.set(at, line);
                        proof {
                            assert forall|k: int| 0 <= k < cats@.len() implies (
                            #[trigger] cats@[k]).balance.0 == held_of(
                                children@,
                                before[k],
                                i as nat + 1,
                            ) by {
                                if k != at {
                                    assert(before[k] != before[at as int]);
                                    assert(cats@[k] == held[k]);
                                }
                            }
                        }
                    },
                    None => {
                        proof {
                            lemma_held_grows(
                                children@,
                                asset,
                                i as nat + 1,
                                children@.len(),
                            );
                            assert(held_of(children@, asset, children@.len()) > u64::MAX);
                        }
                        return None;
                    },
                }
            },
            None => {
                proof {
                    if before.contains(asset) {
                        let k = choose|k: int| 0 <= k < before.len() && before[k] == asset;
                        assert(cats@[k]@.asset_id == text@);
                    }
                }
                let line = CatRecord {
                    asset_id: AssetId(text),
                    balance: Amount(amount),
                    name: None,
                };
                let ghost held = cats@;
                cats.push(line);
                proof {
                    let now = assets_of(children@, i as nat + 1);
                    assert(now == before.push(asset));
                    assert forall|k: int| 0 <= k < cats@.len() implies (
                    #[trigger] cats@[k]).balance.0 == held_of(
                        children@,
                        now[k],
                        i as nat + 1,
                    ) && cats@[k]@ == (CatRecordView {
                        asset_id: hex_text(now[k]@),
                        balance: cats@[k].balance.0,
                        name: None,
                    }) by {
                        if k < held.len() {
                            assert(cats@[k] == held[k]);
                            assert(before.contains(before[k]));
                            assert(before[k] != asset);
                        }
                    }
                }
            },
        }
        i = i + 1;
    }
    proof {
        let n = children@.len();
        let assets = assets_of(children@, n);
        lemma_assets(children@, n);
        assert forall|asset: Bytes32| #[trigger] held_of(children@, asset, n) <= u64::MAX by {
            if assets.contains(asset) {
                let k = choose|k: int| 0 <= k < assets.len() && assets[k] == asset;
                assert(cats@[k].balance.0 == held_of(children@, assets[k], n));
            }
        }
        assert(cats@.map_values(|c: CatRecord| c@) =~= balance_lines(children@, n));
    }
    Some(cats)
}

/// The position of the line of an asset.
fn find_line(cats: &Vec<CatRecord>, asset_id: &String) -> (at: Option<usize>)
    ensures
        match at {
            Some(i) => i < cats@.len() && cats@[i as int].asset_id@ == asset_id@,
            None => forall|k: int|
                0 <= k < cats@.len() ==> (#[trigger] cats@[k]).asset_id@ != asset_id@,
        },
{
    let mut i: usize = 0;
    while i < cats.len()
        invariant
            i <= cats@.len(),
            forall|k: int| 0 <= k < i ==> (#[trigger] cats@[k]).asset_id@ != asset_id@,
        decreases cats@.len() - i,
    {
        if same_text(&cats[i].asset_id.0, asset_id) {
            return Some(i);
        }
        i = i + 1;
    }
    None
}

/// Whether the CAT balances in an answer fit machine words.
fn is_fitting(parsed: &ParsedCats) -> (fits: bool)
    ensures
        fits == (parsed@ matches ParsedCatsView::Children(children) ==> balances_fit(children)),
{
    match parsed {
        ParsedCats::Children(children) => total_by_asset(children).is_some(),
        ParsedCats::NotCat => true,
        ParsedCats::Failed => true,
    }
}

/// The error of a spend that does not run.
fn unparseable(fault: RunFault) -> (error: WalletError)
    ensures
        error@ == run_error(fault@),
{
    match fault {
        RunFault::Puzzle(text) => spend_failed(joined("puzzle reveal: ", text.as_str())),
        RunFault::Solution(text) => spend_failed(joined("solution: ", text.as_str())),
        RunFault::Run(text) => spend_failed(joined("spend did not run: ", text.as_str())),
        RunFault::Conditions(text) => spend_failed(joined("conditions: ", text.as_str())),
    }
}

/// Reads every NFT, DID and CAT that a parent spend creates.
pub fn reconstruct_from_parent_spend(parent: &WalletSpend) -> (result: WalletResult<
    HydratedSingletons,
>)
    requires
        hydration_fits(parent@),
    ensures
        hydrated_view(result) == hydrated_of(parent@),
{
    match decode_fault(&parent.puzzle_reveal) {
        Some(text) => return Err(spend_failed(joined("puzzle reveal: ", text.as_str()))),
        None => {},
    }
    match decode_fault(&parent.solution) {
        Some(text) => return Err(spend_failed(joined("solution: ", text.as_str()))),
        None => {},
    }
    let mut found = HydratedSingletons::new();
    found.hydrate_nft(read_nft(parent));
    let created = match run_spend(parent) {
        Ok(created) => created,
        Err(fault) => return Err(unparseable(fault)),
    };
    let candidates = odd_children(&parent.coin, &created);
    found.hydrate_dids(parent, &candidates);
    found.hydrate_cats(read_cats(parent));
    Ok(found)
}

/// Reads what a parent spend creates, unless its CAT balances exceed machine words.
pub fn reconstruct_checked(parent: &WalletSpend) -> (result: Option<
    WalletResult<HydratedSingletons>,
>)
    ensures
        match result {
            Some(found) => hydration_fits(parent@) && hydrated_view(found) == hydrated_of(parent@),
            None => !hydration_fits(parent@),
        },
{
    let fits: bool = match run_spend(parent) {
        Ok(_) => is_fitting(&read_cats(parent)),
        Err(_) => true,
    };
    if fits {
        Some(reconstruct_from_parent_spend(parent))
    } else {
        None
    }
}

/// There is one balance line for each asset that the coins are of, and it shows what they hold of
/// it.
pub proof fn balance_lines_are_complete(children: Seq<(Bytes32, u64)>, asset: Bytes32)
    requires
        balances_fit(children),
    ensures
        forall|i: int, j: int|
            0 <= i < j < balance_lines(children, children.len()).len() ==> (
            #[trigger] balance_lines(children, children.len())[i]).asset_id != (
            #[trigger] balance_lines(children, children.len())[j]).asset_id,
        (exists|i: int| 0 <= i < children.len() && (#[trigger] children[i]).0 == asset) ==> exists|
            k: int,
        |
            0 <= k < balance_lines(children, children.len()).len() && (#[trigger] balance_lines(
                children,
                children.len(),
            )[k]) == (CatRecordView {
                asset_id: hex_text(asset@),
                balance: held_of(children, asset, children.len()) as u64,
                name: None,
            }),
{
    let n = children.len();
    lemma_assets(children, n);
    let assets = assets_of(children, n);
    let lines = balance_lines(children, n);
    assert forall|i: int, j: int| 0 <= i < j < lines.len() implies (#[trigger] lines[i]).asset_id
        != (#[trigger] lines[j]).asset_id by {
        if lines[i].asset_id == lines[j].asset_id {
            lemma_asset_text(assets[i], assets[j]);
        }
    }
    if exists|i: int| 0 <= i < children.len() && (#[trigger] children[i]).0 == asset {
        assert(assets.contains(asset));
        let k = choose|k: int| 0 <= k < assets.len() && assets[k] == asset;
        assert(lines[k] == (CatRecordView {
            asset_id: hex_text(asset@),
            balance: held_of(children, asset, n) as u64,
            name: None,
        }));
    }
}

/// Every DID candidate is a child of the spent coin and of an odd amount.
pub proof fn candidates_are_odd_children(
    parent: WalletCoin,
    created: Seq<Option<CreatedCoin>>,
    n: nat,
)
    ensures
        forall|i: int|
            0 <= i < odd_coins(parent, created, n).len() ==> (#[trigger] odd_coins(
                parent,
                created,
                n,
            )[i]).amount % 2 == 1 && odd_coins(parent, created, n)[i].parent_coin_info == id_of(
                parent,
            ),
    decreases n,
{
    if n > 0 {
        candidates_are_odd_children(parent, created, (n - 1) as nat);
        let before = odd_coins(parent, created, (n - 1) as nat);
        let now = odd_coins(parent, created, n);
        assert forall|i: int| 0 <= i < now.len() implies (#[trigger] now[i]).amount % 2 == 1
            && now[i].parent_coin_info == id_of(parent) by {
            if i < before.len() {
                assert(now[i] == before[i]);
            }
        }
    }
}

} // verus!
