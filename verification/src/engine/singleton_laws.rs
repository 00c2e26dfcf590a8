//! What is read from a parent spend, and what singleton operations ask for, stated of the spend
//! and of the operation's inputs.

use vstd::prelude::*;
use vstd::string::*;

use super::broadcast::{submitted, MempoolStatus};
use super::did::{did_error, prefix_of, transfer_conditions};
use super::driver::Condition;
use super::nft::{nft_error, outcome_of};
use super::singleton::{
    assets_of, balance_lines, balance_lines_are_complete, held_of, hydrated_of, hydration_fits,
    lemma_assets, nothing, odd_coins, with_cats, with_dids, with_nft, HydratedView,
};
use super::singleton_driver::{
    cat_children_of, conditions_of, hydrated_did, nft_child_of, program_fault, CreatedCoin,
    NftOperationView, ParsedCatsView, ParsedNftView, WalletDid,
};
use crate::text::hex_text;
use crate::types::chain::{id_of, Bytes32, WalletCoin, WalletSpendView};
use crate::types::error::{WalletErrorCode, WalletErrorView};
use crate::types::value::{CatRecordView, DidRecordView, Network, NftRecordView};

verus! {

/// Whether a coin is one that a spend creates with an odd amount, as only the next coin of a
/// singleton has.
pub open spec fn is_odd_child(
    coin: WalletCoin,
    parent: WalletCoin,
    created: Seq<Option<CreatedCoin>>,
) -> bool {
    &&& coin.parent_coin_info == id_of(parent)
    &&& coin.amount % 2 == 1
    &&& exists|i: int|
        0 <= i < created.len() && (#[trigger] created[i] matches Some(made) && made.puzzle_hash
            == coin.puzzle_hash && made.amount == coin.amount)
}

/// What coins hold of an asset.
pub open spec fn holding(children: Seq<(Bytes32, u64)>, asset: Bytes32) -> nat
    decreases children.len(),
{
    if children.len() == 0 {
        0
    } else if children.last().0 == asset {
        holding(children.drop_last(), asset) + children.last().1 as nat
    } else {
        holding(children.drop_last(), asset)
    }
}

/// Whether a record is that of an NFT: its launcher id in hex and its first data URI, if any.
pub open spec fn records_nft(
    record: NftRecordView,
    launcher_id: Bytes32,
    data_uris: Option<Seq<Seq<char>>>,
) -> bool {
    &&& record.launcher_id == hex_text(launcher_id@)
    &&& record.data_uri is Some <==> (data_uris matches Some(uris) && uris.len() > 0)
    &&& record.data_uri matches Some(uri) ==> uri == data_uris->0[0]
}

/// Whether a record is that of the DID that a parent spend makes of a coin.
pub open spec fn records_did(
    record: DidRecordView,
    parent: WalletSpendView,
    coin: WalletCoin,
) -> bool {
    &&& hydrated_did(parent, coin) matches Ok(did)
    &&& record.launcher_id == hex_text(did.launcher_id@)
    &&& record.name is None
}

/// Whether a balance line is what coins hold of an asset.
pub open spec fn records_balance(
    line: CatRecordView,
    children: Seq<(Bytes32, u64)>,
    asset: Bytes32,
) -> bool {
    &&& line.asset_id == hex_text(asset@)
    &&& line.balance == holding(children, asset)
    &&& line.name is None
}

proof fn lemma_holding(children: Seq<(Bytes32, u64)>, asset: Bytes32, n: nat)
    requires
        n <= children.len(),
    ensures
        holding(children.take(n as int), asset) == held_of(children, asset, n),
    decreases n,
{
    if n > 0 {
        lemma_holding(children, asset, (n - 1) as nat);
        assert(children.take(n as int).drop_last() =~= children.take(n - 1));
    }
}

/// The DID candidates among the first conditions of a spend are exactly the coins of an odd amount
/// that those conditions create.
pub proof fn every_odd_child_is_a_candidate(parent: WalletCoin, created: Seq<Option<CreatedCoin>>, n: nat)
    requires
        n <= created.len(),
    ensures
        forall|c: WalletCoin| #[trigger]
            odd_coins(parent, created, n).contains(c) <==> is_odd_child(
                c,
                parent,
                created.take(n as int),
            ),
    decreases n,
{
    let now = odd_coins(parent, created, n);
    let front = created.take(n as int);
    if n > 0 {
        every_odd_child_is_a_candidate(parent, created, (n - 1) as nat);
        let before = odd_coins(parent, created, (n - 1) as nat);
        let less = created.take(n - 1);
        assert forall|c: WalletCoin| #[trigger] now.contains(c) <==> is_odd_child(
            c,
            parent,
            front,
        ) by {
            if now.contains(c) {
                let k = choose|k: int| 0 <= k < now.len() && now[k] == c;
                if k < before.len() {
                    assert(before[k] == c);
                    assert(before.contains(c));
                    let i = choose|i: int|
                        0 <= i < less.len() && (#[trigger] less[i] matches Some(made)
                            && made.puzzle_hash == c.puzzle_hash && made.amount == c.amount);
                    assert(front[i] == less[i]);
                } else {
                    assert(front[n - 1] == created[n - 1]);
                }
            }
            if is_odd_child(c, parent, front) {
                let i = choose|i: int|
                    0 <= i < front.len() && (#[trigger] front[i] matches Some(made)
                        && made.puzzle_hash == c.puzzle_hash && made.amount == c.amount);
                if i < n - 1 {
                    assert(less[i] == front[i]);
                    assert(before.contains(c));
                    let k = choose|k: int| 0 <= k < before.len() && before[k] == c;
                    assert(now[k] == c);
                } else {
                    assert(created[n - 1] == front[i]);
                    assert(now.last() == c);
                }
            }
        }
    } else {
        assert forall|c: WalletCoin| #[trigger] now.contains(c) <==> is_odd_child(
            c,
            parent,
            front,
        ) by {}
    }
}

/// Whether a record is that of a DID that a parent spend makes of one of some coins.
pub open spec fn records_one_did(
    record: DidRecordView,
    parent: WalletSpendView,
    coins: Seq<WalletCoin>,
    n: int,
) -> bool {
    exists|i: int| 0 <= i < n && #[trigger] records_did(record, parent, coins[i])
}

/// Whether a record is that of a DID among the odd-amount coins that a parent spend creates.
pub open spec fn records_an_odd_did(
    record: DidRecordView,
    parent: WalletSpendView,
    created: Seq<Option<CreatedCoin>>,
) -> bool {
    exists|coin: WalletCoin|
        is_odd_child(coin, parent.coin, created) && #[trigger] records_did(record, parent, coin)
}

/// Whether the DID that a parent spend makes of a coin is among some records.
pub open spec fn did_is_recorded(
    records: Seq<DidRecordView>,
    parent: WalletSpendView,
    coin: WalletCoin,
) -> bool {
    exists|k: int| 0 <= k < records.len() && #[trigger] records_did(records[k], parent, coin)
}

/// Whether a coin could not be read as a DID, for another reason than that it is none or that a
/// DID has no next coin.
pub open spec fn is_unreadable(parent: WalletSpendView, coin: WalletCoin) -> bool {
    hydrated_did(parent, coin) matches Err(fault) && fault is Other
}

/// Whether a balance line is that of an asset that some coins are of.
pub open spec fn records_one_balance(
    line: CatRecordView,
    children: Seq<(Bytes32, u64)>,
) -> bool {
    exists|i: int|
        0 <= i < children.len() && records_balance(line, children, (#[trigger] children[i]).0)
}

/// Whether there is a balance line for an asset.
pub open spec fn balance_is_recorded(
    lines: Seq<CatRecordView>,
    children: Seq<(Bytes32, u64)>,
    asset: Bytes32,
) -> bool {
    exists|k: int| 0 <= k < lines.len() && #[trigger] records_balance(lines[k], children, asset)
}

/// Whether what was found with DIDs read is that of a number of candidates.
spec fn dids_read(
    found: HydratedView,
    start: HydratedView,
    parent: WalletSpendView,
    candidates: Seq<WalletCoin>,
    n: int,
) -> bool {
    &&& found.nfts == start.nfts
    &&& found.cats == start.cats
    &&& forall|k: int|
        0 <= k < found.dids.len() ==> records_one_did(
            #[trigger] found.dids[k],
            parent,
            candidates,
            n,
        )
    &&& forall|i: int|
        0 <= i < n && hydrated_did(parent, #[trigger] candidates[i]) is Ok ==> did_is_recorded(
            found.dids,
            parent,
            candidates[i],
        )
    &&& start.skipped > 0 ==> found.skipped > 0
    &&& forall|i: int|
        0 <= i < n && is_unreadable(parent, #[trigger] candidates[i]) ==> found.skipped > 0
    &&& found.skipped > 0 ==> start.skipped > 0 || exists|i: int|
        0 <= i < n && is_unreadable(parent, #[trigger] candidates[i])
}

proof fn lemma_dids_read(
    start: HydratedView,
    parent: WalletSpendView,
    candidates: Seq<WalletCoin>,
    n: nat,
)
    requires
        n <= candidates.len(),
        start.dids.len() == 0,
    ensures
        dids_read(with_dids(start, parent, candidates, n), start, parent, candidates, n as int),
    decreases n,
{
    if n > 0 {
        lemma_dids_read(start, parent, candidates, (n - 1) as nat);
        let before = with_dids(start, parent, candidates, (n - 1) as nat);
        let found = with_dids(start, parent, candidates, n);
        let coin = candidates[n - 1];
        let answer = hydrated_did(parent, coin);
        assert(found.dids.len() >= before.dids.len());
        assert(forall|k: int|
            0 <= k < before.dids.len() ==> #[trigger] found.dids[k] == before.dids[k]);
        if answer is Ok {
            assert(records_did(found.dids[before.dids.len() as int], parent, candidates[n - 1]));
            assert(did_is_recorded(found.dids, parent, coin));
        }
        assert forall|k: int| 0 <= k < found.dids.len() implies records_one_did(
            #[trigger] found.dids[k],
            parent,
            candidates,
            n as int,
        ) by {
            if k < before.dids.len() {
                assert(records_one_did(before.dids[k], parent, candidates, n - 1));
            } else {
                assert(records_did(found.dids[k], parent, candidates[n - 1]));
            }
        }
        assert forall|i: int|
            0 <= i < n && hydrated_did(parent, #[trigger] candidates[i]) is Ok implies
            did_is_recorded(found.dids, parent, candidates[i]) by {
            if i < n - 1 {
                assert(did_is_recorded(before.dids, parent, candidates[i]));
                let k = choose|k: int|
                    0 <= k < before.dids.len() && #[trigger] records_did(
                        before.dids[k],
                        parent,
                        candidates[i],
                    );
                assert(records_did(found.dids[k], parent, candidates[i]));
            }
        }
        if is_unreadable(parent, coin) {
            assert(is_unreadable(parent, candidates[n - 1]));
        }
        assert(before.skipped > 0 ==> found.skipped > 0);
    }
}

/// A parent spend that runs is read family by family: the one NFT that it creates, with its
/// launcher id and first data URI; a DID for exactly those of its odd-amount children that are
/// DIDs; and for every asset of its CAT children one balance, which is what they hold of it. What
/// could not be read is never silent: it is counted as skipped.
pub proof fn a_parent_spend_is_read_in_full(parent: WalletSpendView)
    requires
        hydration_fits(parent),
    ensures
        hydrated_of(parent) is Ok <==> program_fault(parent.puzzle_reveal) is None && program_fault(
            parent.solution,
        ) is None && conditions_of(parent) is Ok,
        hydrated_of(parent) matches Err(error) ==> error.code
            == WalletErrorCode::SpendValidationFailed,
        hydrated_of(parent) matches Ok(found) ==> {
            &&& conditions_of(parent) matches Ok(created)
            &&& match nft_child_of(parent) {
                ParsedNftView::Child { launcher_id, data_uris } => found.nfts.len() == 1
                    && records_nft(found.nfts[0], launcher_id, data_uris),
                _ => found.nfts.len() == 0,
            }
            &&& forall|k: int|
                0 <= k < found.dids.len() ==> records_an_odd_did(
                    #[trigger] found.dids[k],
                    parent,
                    created,
                )
            &&& forall|coin: WalletCoin|
                is_odd_child(coin, parent.coin, created) && #[trigger] hydrated_did(
                    parent,
                    coin,
                ) is Ok ==> did_is_recorded(found.dids, parent, coin)
            &&& match cat_children_of(parent) {
                ParsedCatsView::Children(children) => {
                    &&& forall|k: int|
                        0 <= k < found.cats.len() ==> records_one_balance(
                            #[trigger] found.cats[k],
                            children,
                        )
                    &&& forall|i: int|
                        0 <= i < children.len() ==> balance_is_recorded(
                            found.cats,
                            children,
                            (#[trigger] children[i]).0,
                        )
                    &&& forall|i: int, j: int|
                        0 <= i < j < found.cats.len() ==> (#[trigger] found.cats[i]).asset_id != (
                        #[trigger] found.cats[j]).asset_id
                },
                _ => found.cats.len() == 0,
            }
            &&& nft_child_of(parent) is Failed || cat_children_of(parent) is Failed
                ==> found.skipped > 0
            &&& forall|coin: WalletCoin|
                is_odd_child(coin, parent.coin, created) && #[trigger] is_unreadable(parent, coin)
                    ==> found.skipped > 0
            &&& found.skipped > 0 ==> nft_child_of(parent) is Failed || cat_children_of(
                parent,
            ) is Failed || exists|coin: WalletCoin|
                is_odd_child(coin, parent.coin, created) && #[trigger] is_unreadable(parent, coin)
        },
{
    if let Ok(found) = hydrated_of(parent) {
        let created = conditions_of(parent)->Ok_0;
        let candidates = odd_coins(parent.coin, created, created.len());
        let start = with_nft(nothing(), nft_child_of(parent));
        let middle = with_dids(start, parent, candidates, candidates.len());
        every_odd_child_is_a_candidate(parent.coin, created, created.len());
        assert(created.take(created.len() as int) =~= created);
        lemma_dids_read(start, parent, candidates, candidates.len());
        assert(found.dids == middle.dids && found.nfts == start.nfts);
        assert forall|k: int| 0 <= k < found.dids.len() implies records_an_odd_did(
            #[trigger] found.dids[k],
            parent,
            created,
        ) by {
            assert(records_one_did(middle.dids[k], parent, candidates, candidates.len() as int));
            let i = choose|i: int|
                0 <= i < candidates.len() && #[trigger] records_did(
                    middle.dids[k],
                    parent,
                    candidates[i],
                );
            assert(candidates.contains(candidates[i]));
            assert(records_did(found.dids[k], parent, candidates[i]));
        }
        assert forall|coin: WalletCoin|
            is_odd_child(coin, parent.coin, created) && #[trigger] hydrated_did(
                parent,
                coin,
            ) is Ok implies did_is_recorded(found.dids, parent, coin) by {
            assert(candidates.contains(coin));
            let i = choose|i: int| 0 <= i < candidates.len() && candidates[i] == coin;
            assert(hydrated_did(parent, candidates[i]) is Ok);
        }
        if let ParsedCatsView::Children(children) = cat_children_of(parent) {
            lemma_lines(children);
            if children.len() > 0 {
                balance_lines_are_complete(children, children[0].0);
            }
        }
        assert forall|coin: WalletCoin|
            is_odd_child(coin, parent.coin, created) && #[trigger] is_unreadable(
                parent,
                coin,
            ) implies found.skipped > 0 by {
            assert(candidates.contains(coin));
            let i = choose|i: int| 0 <= i < candidates.len() && candidates[i] == coin;
            assert(is_unreadable(parent, candidates[i]));
        }
        if middle.skipped > 0 && start.skipped == 0 {
            let i = choose|i: int|
                0 <= i < candidates.len() && is_unreadable(parent, #[trigger] candidates[i]);
            assert(candidates.contains(candidates[i]));
            assert(is_odd_child(candidates[i], parent.coin, created));
            assert(is_unreadable(parent, candidates[i]));
        }
    }
}

proof fn lemma_lines(children: Seq<(Bytes32, u64)>)
    requires
        super::singleton::balances_fit(children),
    ensures
        forall|k: int|
            0 <= k < balance_lines(children, children.len()).len() ==> records_one_balance(
                #[trigger] balance_lines(children, children.len())[k],
                children,
            ),
        forall|i: int|
            0 <= i < children.len() ==> balance_is_recorded(
                balance_lines(children, children.len()),
                children,
                (#[trigger] children[i]).0,
            ),
        children.len() == 0 ==> balance_lines(children, children.len()).len() == 0,
{
    let n = children.len();
    let lines = balance_lines(children, n);
    let assets = assets_of(children, n);
    lemma_assets(children, n);
    assert(children.take(n as int) =~= children);
    assert forall|k: int| 0 <= k < lines.len() implies records_one_balance(
        #[trigger] lines[k],
        children,
    ) by {
        assert(assets.contains(assets[k]));
        let i = choose|i: int| 0 <= i < n && (#[trigger] children[i]).0 == assets[k];
        lemma_holding(children, assets[k], n);
        assert(held_of(children, assets[k], children.len()) <= u64::MAX);
        assert(records_balance(lines[k], children, children[i].0));
    }
    assert forall|i: int| 0 <= i < children.len() implies balance_is_recorded(
        lines,
        children,
        (#[trigger] children[i]).0,
    ) by {
        let asset = children[i].0;
        assert(assets.contains(asset));
        let k = choose|k: int| 0 <= k < assets.len() && assets[k] == asset;
        lemma_holding(children, asset, n);
        assert(held_of(children, asset, children.len()) <= u64::MAX);
        assert(records_balance(lines[k], children, asset));
    }
}

/// What is read is added to what was found before: an NFT comes last among the NFTs, CAT balances
/// take their place, a failure is counted, and nothing else changes.
pub proof fn each_family_is_added(
    found: HydratedView,
    nft: ParsedNftView,
    cats: ParsedCatsView,
)
    ensures
        ({
            let after = with_nft(found, nft);
            &&& after.dids == found.dids
            &&& after.cats == found.cats
            &&& found.nfts.is_prefix_of(after.nfts)
            &&& match nft {
                ParsedNftView::Child { launcher_id, data_uris } => after.nfts.len()
                    == found.nfts.len() + 1 && records_nft(
                    after.nfts.last(),
                    launcher_id,
                    data_uris,
                ),
                _ => after.nfts.len() == found.nfts.len(),
            }
            &&& !(nft is Failed) ==> after.skipped == found.skipped
            &&& nft is Failed && found.skipped < usize::MAX ==> after.skipped == found.skipped + 1
        }),
        ({
            let after = with_cats(found, cats);
            &&& after.dids == found.dids
            &&& after.nfts == found.nfts
            &&& !(cats is Children) ==> after.cats == found.cats
            &&& !(cats is Failed) ==> after.skipped == found.skipped
            &&& cats is Failed && found.skipped < usize::MAX ==> after.skipped == found.skipped + 1
        }),
{
    let after = with_nft(found, nft);
    assert(found.nfts =~= after.nfts.take(found.nfts.len() as int));
}

/// DID candidates are read one after the other: one more candidate adds its record at the end, if
/// it is a DID, and takes nothing back.
pub proof fn each_did_candidate_is_read_once(
    found: HydratedView,
    parent: WalletSpendView,
    candidates: Seq<WalletCoin>,
    n: nat,
)
    ensures
        with_dids(found, parent, candidates, 0) == found,
        ({
            let before = with_dids(found, parent, candidates, n);
            let after = with_dids(found, parent, candidates, n + 1);
            match hydrated_did(parent, candidates[n as int]) {
                Ok(did) => {
                    &&& after.dids.len() == before.dids.len() + 1
                    &&& before.dids.is_prefix_of(after.dids)
                    &&& records_did(after.dids.last(), parent, candidates[n as int])
                    &&& after.skipped == before.skipped
                },
                Err(fault) => {
                    &&& after.dids == before.dids
                    &&& fault is Other && before.skipped < usize::MAX ==> after.skipped
                        == before.skipped + 1
                    &&& !(fault is Other) ==> after.skipped == before.skipped
                },
            }
        }),
{
    let before = with_dids(found, parent, candidates, n);
    let after = with_dids(found, parent, candidates, n + 1);
    if hydrated_did(parent, candidates[n as int]) is Ok {
        assert(before.dids =~= after.dids.take(before.dids.len() as int));
    }
}

/// A DID transfer asks for one coin only: the DID's own amount under the new owner, without a
/// hint.
pub proof fn a_did_transfer_keeps_the_amount(did: WalletDid, new_owner: Bytes32)
    ensures
        transfer_conditions(did, new_owner).len() == 1,
        transfer_conditions(did, new_owner)[0] matches Condition::CreateCoin {
            puzzle_hash,
            amount,
            hint,
        } && puzzle_hash == new_owner && amount == did.coin.amount && hint is None,
{
}

/// Only mainnet has mainnet's address prefix, and the others share one.
pub proof fn mainnet_has_its_own_prefix(network: Network)
    ensures
        prefix_of(network) == if network is Mainnet {
            "xch"@
        } else {
            "txch"@
        },
        "xch"@ != "txch"@,
{
    reveal_strlit("xch");
    reveal_strlit("txch");
    assert("xch"@.len() == 3 && "txch"@.len() == 4);
}

/// Whether a text ends with another one.
pub open spec fn ends_with(text: Seq<char>, tail: Seq<char>) -> bool {
    tail.len() <= text.len() && text.skip(text.len() - tail.len()) == tail
}

/// A driver's fault becomes a failed spend that still tells the fault, and an answer that is no
/// fault is handed on unchanged.
pub proof fn a_driver_fault_is_told(
    operation: Seq<char>,
    fault: Seq<char>,
    written: NftOperationView,
)
    ensures
        did_error(operation, fault).code == WalletErrorCode::SpendValidationFailed,
        ends_with(did_error(operation, fault).message, fault),
        outcome_of(operation, Ok(written)) == Ok::<NftOperationView, WalletErrorView>(written),
        outcome_of(operation, Err(fault)) matches Err(error) && error.code
            == WalletErrorCode::SpendValidationFailed && ends_with(error.message, fault),
{
    let told = did_error(operation, fault).message;
    assert(told.skip(told.len() - fault.len()) =~= fault);
    let shown = nft_error(operation, fault).message;
    assert(shown.skip(shown.len() - fault.len()) =~= fault);
}

/// A submission fails exactly if the mempool rejects the bundle, and then it tells the mempool's
/// reason.
pub proof fn only_a_rejection_fails_a_submission(status: MempoolStatus)
    ensures
        submitted(status) is Err <==> status is Rejected,
        status matches MempoolStatus::Rejected { reason } ==> (submitted(status) matches Err(error)
            && error.code == WalletErrorCode::SpendValidationFailed && ends_with(
            error.message,
            reason@,
        )),
{
    if let MempoolStatus::Rejected { reason } = status {
        let told = submitted(status)->Err_0.message;
        assert(told.skip(told.len() - reason@.len()) =~= reason@);
    }
}

} // verus!
