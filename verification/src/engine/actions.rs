//! Housekeeping: what the user sees, what waits for a refresh, and whom the wallet dials.
//!
//! A refresh is only requested here; whoever reads the chain does it and clears the request.

use vstd::prelude::*;
use vstd::string::*;

use super::sync::{dial_order, order_dial_candidates, PeerAddress};
use crate::text::same_text;
use crate::textmap::TextMap;
use crate::types::value::{clone_texts, texts_view, Network};

verus! {

/// Whether an asset is shown. A hidden asset is still tracked and spendable.
#[derive(Debug, Clone, Copy, PartialEq, Eq, Structural)]
pub enum Visibility {
    /// Shown in the asset lists.
    Visible,
    /// Not listed.
    Hidden,
}

impl Default for Visibility {
    /// Visible.
    fn default() -> (visibility: Self)
        ensures
            visibility == Visibility::Visible,
    {
        Visibility::Visible
    }
}

/// The family of an asset. The same id in two families names two assets.
#[derive(Debug, Clone, Copy, PartialEq, Eq, PartialOrd, Ord, Structural)]
pub enum AssetKind {
    /// A CAT, by asset id.
    Cat,
    /// An NFT, by launcher id.
    Nft,
    /// A DID, by launcher id.
    Did,
    /// A collection, by collection id.
    Collection,
}

/// One value for each family.
#[derive(Debug)]
pub struct PerKind<T> {
    /// For CATs.
    pub cat: T,
    /// For NFTs.
    pub nft: T,
    /// For DIDs.
    pub did: T,
    /// For collections.
    pub collection: T,
}

impl<T> PerKind<T> {
    /// The value of a family.
    pub open spec fn at(self, kind: AssetKind) -> T {
        match kind {
            AssetKind::Cat => self.cat,
            AssetKind::Nft => self.nft,
            AssetKind::Did => self.did,
            AssetKind::Collection => self.collection,
        }
    }

    /// The value of a family.
    fn get(&self, kind: AssetKind) -> (value: &T)
        ensures
            *value == self.at(kind),
    {
        match kind {
            AssetKind::Cat => &self.cat,
            AssetKind::Nft => &self.nft,
            AssetKind::Did => &self.did,
            AssetKind::Collection => &self.collection,
        }
    }
}

/// The user's display choices and the refreshes that wait.
#[derive(Debug)]
pub struct AssetActions {
    visibility: PerKind<TextMap<Visibility>>,
    stale: PerKind<Vec<String>>,
}

/// Whether no text occurs twice.
pub open spec fn each_once(texts: Seq<Seq<char>>) -> bool {
    texts.no_duplicates()
}

/// A list with a text: a text that it holds already is not added again.
pub open spec fn with_text(texts: Seq<Seq<char>>, text: Seq<char>) -> Seq<Seq<char>> {
    if texts.contains(text) {
        texts
    } else {
        texts.push(text)
    }
}

/// The items other than one, in their order.
pub open spec fn without<T>(items: Seq<T>, gone: T) -> Seq<T> {
    items.filter(|t: T| t != gone)
}

impl AssetActions {
    /// The tables are in order and no refresh waits twice.
    pub closed spec fn wf(self) -> bool {
        forall|kind: AssetKind| #[trigger]
            self.visibility.at(kind).wf() && each_once(texts_view(self.stale.at(kind)@))
    }

    /// Whether an asset is shown; one without a choice is.
    pub closed spec fn shown(self, kind: AssetKind, id: Seq<char>) -> Visibility {
        let chosen = self.visibility.at(kind)@;
        if chosen.contains_key(id) {
            chosen[id]
        } else {
            Visibility::Visible
        }
    }

    /// The assets of a family that wait for a refresh, in the order of the requests.
    pub closed spec fn pending(self, kind: AssetKind) -> Seq<Seq<char>> {
        texts_view(self.stale.at(kind)@)
    }

    /// Everything visible, nothing waiting.
    pub fn new() -> (actions: Self)
        ensures
            actions.wf(),
            forall|kind: AssetKind, id: Seq<char>|
                actions.shown(kind, id) == Visibility::Visible,
            forall|kind: AssetKind| actions.pending(kind) == Seq::<Seq<char>>::empty(),
    {
        let actions = AssetActions {
            visibility: PerKind {
                cat: TextMap::new(),
                nft: TextMap::new(),
                did: TextMap::new(),
                collection: TextMap::new(),
            },
            stale: PerKind {
                cat: Vec::new(),
                nft: Vec::new(),
                did: Vec::new(),
                collection: Vec::new(),
            },
        };
        assert forall|kind: AssetKind| actions.pending(kind) == Seq::<Seq<char>>::empty() by {
            assert(texts_view(actions.stale.at(kind)@) =~= Seq::empty());
        }
        assert forall|kind: AssetKind| #[trigger]
            actions.visibility.at(kind).wf() && each_once(
                texts_view(actions.stale.at(kind)@),
            ) by {
            assert(texts_view(actions.stale.at(kind)@) =~= Seq::empty());
        }
        actions
    }

    /// Shows or hides an asset.
    pub fn set_visibility(&mut self, kind: AssetKind, id: String, visibility: Visibility)
        requires
            old(self).wf(),
        ensures
            final(self).wf(),
            forall|k: AssetKind, i: Seq<char>| #[trigger]
                final(self).shown(k, i) == if k == kind && i == id@ {
                    visibility
                } else {
                    old(self).shown(k, i)
                },
            forall|k: AssetKind| #[trigger] final(self).pending(k) == old(self).pending(k),
    {
        assert(self.visibility.at(kind).wf());
        match kind {
            AssetKind::Cat => self.visibility.cat.insert(id, visibility),
            AssetKind::Nft => self.visibility.nft.insert(id, visibility),
            AssetKind::Did => self.visibility.did.insert(id, visibility),
            AssetKind::Collection => self.visibility.collection.insert(id, visibility),
        }
        proof {
            assert forall|k: AssetKind| #[trigger]
                self.visibility.at(k).wf() && each_once(texts_view(self.stale.at(k)@)) by {
                assert(old(self).visibility.at(k).wf());
            }
        }
    }

    /// Whether an asset is shown.
    pub fn visibility(&self, kind: AssetKind, id: &str) -> (visibility: Visibility)
        requires
            self.wf(),
        ensures
            visibility == self.shown(kind, id@),
    {
        assert(self.visibility.at(kind).wf());
        match self.visibility.get(kind).get(&id.to_owned()) {
            Some(visibility) => *visibility,
            None => Visibility::Visible,
        }
    }

    /// Asks for an asset to be read again. Asking twice leaves one request.
    pub fn request_refresh(&mut self, kind: AssetKind, id: String)
        requires
            old(self).wf(),
        ensures
            final(self).wf(),
            forall|k: AssetKind| #[trigger]
                final(self).pending(k) == if k == kind {
                    with_text(old(self).pending(k), id@)
                } else {
                    old(self).pending(k)
                },
            forall|k: AssetKind, i: Seq<char>| #[trigger]
                final(self).shown(k, i) == old(self).shown(k, i),
    {
        assert(self.visibility.at(kind).wf());
        if holds(self.stale.get(kind), &id) {
            return;
        }
        let ghost text = id@;
        match kind {
            AssetKind::Cat => self.stale.cat.push(id),
            AssetKind::Nft => self.stale.nft.push(id),
            AssetKind::Did => self.stale.did.push(id),
            AssetKind::Collection => self.stale.collection.push(id),
        }
        proof {
            assert(self.pending(kind) =~= old(self).pending(kind).push(text));
            assert forall|k: AssetKind| #[trigger]
                self.visibility.at(k).wf() && each_once(texts_view(self.stale.at(k)@)) by {
                assert(old(self).visibility.at(k).wf());
                if k == kind {
                    assert(texts_view(self.stale.at(k)@) =~= texts_view(
                        old(self).stale.at(k)@,
                    ).push(text));
                }
            }
        }
    }

    /// The assets of a family that wait for a refresh, in the order of the requests.
    pub fn pending_refresh(&self, kind: AssetKind) -> (pending: Vec<String>)
        ensures
            texts_view(pending@) == self.pending(kind),
    {
        clone_texts(self.stale.get(kind))
    }

    /// Clears a request, and says whether there was one.
    pub fn clear_refresh(&mut self, kind: AssetKind, id: &str) -> (cleared: bool)
        requires
            old(self).wf(),
        ensures
            final(self).wf(),
            cleared == old(self).pending(kind).contains(id@),
            forall|k: AssetKind| #[trigger]
                final(self).pending(k) == if k == kind {
                    without(old(self).pending(k), id@)
                } else {
                    old(self).pending(k)
                },
            forall|k: AssetKind, i: Seq<char>| #[trigger]
                final(self).shown(k, i) == old(self).shown(k, i),
    {
        assert(self.visibility.at(kind).wf());
        let text = id.to_owned();
        let cleared: bool = holds(self.stale.get(kind), &text);
        let left = all_but(self.stale.get(kind), &text);
        match kind {
            AssetKind::Cat => self.stale.cat = left,
            AssetKind::Nft => self.stale.nft = left,
            AssetKind::Did => self.stale.did = left,
            AssetKind::Collection => self.stale.collection = left,
        }
        proof {
            lemma_all_but(old(self).pending(kind), id@);
            assert forall|k: AssetKind| #[trigger]
                self.visibility.at(k).wf() && each_once(texts_view(self.stale.at(k)@)) by {
                assert(old(self).visibility.at(k).wf());
            }
        }
        cleared
    }
}

impl AssetActions {
    /// No asset waits twice for a refresh.
    pub proof fn no_asset_waits_twice(self, kind: AssetKind)
        requires
            self.wf(),
        ensures
            each_once(self.pending(kind)),
    {
        assert(self.visibility.at(kind).wf());
    }
}

impl Default for AssetActions {
    /// Everything visible, nothing waiting.
    fn default() -> (actions: Self)
        ensures
            actions.wf(),
            forall|kind: AssetKind, id: Seq<char>|
                actions.shown(kind, id) == Visibility::Visible,
            forall|kind: AssetKind| actions.pending(kind) == Seq::<Seq<char>>::empty(),
    {
        AssetActions::new()
    }
}

/// Leaving one item out of a list without repetitions leaves the others, each once.
proof fn lemma_all_but<T>(items: Seq<T>, gone: T)
    requires
        items.no_duplicates(),
    ensures
        without(items, gone).no_duplicates(),
        forall|t: T| #[trigger]
            without(items, gone).contains(t) == (items.contains(t) && t != gone),
    decreases items.len(),
{
    reveal(Seq::filter);
    let out = without(items, gone);
    if items.len() > 0 {
        let front = items.drop_last();
        let last = items.last();
        assert(front.no_duplicates());
        lemma_all_but(front, gone);
        let rest = without(front, gone);
        assert(out == if last != gone { rest.push(last) } else { rest });
        assert(items =~= front.push(last));
        assert forall|t: T| items.contains(t) == (front.contains(t) || t == last) by {
            lemma_push_contains(front, last, t);
        }
        assert forall|t: T| #[trigger] rest.contains(t) == (front.contains(t) && t != gone) by {}
        assert(!front.contains(last)) by {
            if front.contains(last) {
                let i = choose|i: int| 0 <= i < front.len() && front[i] == last;
                assert(items[i] == items[items.len() - 1]);
            }
        }
        if last != gone {
            assert(!rest.contains(last));
            assert forall|i: int, j: int|
                0 <= i < out.len() && 0 <= j < out.len() && i != j implies out[i] != out[j] by {
                if i < rest.len() {
                    assert(rest.contains(rest[i]));
                }
                if j < rest.len() {
                    assert(rest.contains(rest[j]));
                }
            }
        }
        assert forall|t: T| #[trigger] out.contains(t) == (items.contains(t) && t != gone) by {
            if last != gone {
                lemma_push_contains(rest, last, t);
            }
            assert(rest.contains(t) == (front.contains(t) && t != gone));
        }
    } else {
        assert(out =~= Seq::empty());
        assert forall|t: T| #[trigger] out.contains(t) == (items.contains(t) && t != gone) by {}
    }
}

proof fn lemma_push_contains<T>(items: Seq<T>, last: T, t: T)
    ensures
        items.push(last).contains(t) == (items.contains(t) || t == last),
{
    let longer = items.push(last);
    if longer.contains(t) {
        let i = choose|i: int| 0 <= i < longer.len() && longer[i] == t;
        if i < items.len() {
            assert(items[i] == t);
        }
    }
    if items.contains(t) {
        let i = choose|i: int| 0 <= i < items.len() && items[i] == t;
        assert(longer[i] == t);
    }
    assert(longer[items.len() as int] == last);
}

/// Whether a list holds a text.
fn holds(list: &Vec<String>, text: &String) -> (held: bool)
    ensures
        held == texts_view(list@).contains(text@),
{
    let mut i: usize = 0;
    while i < list.len()
        invariant
            i <= list@.len(),
            forall|k: int| 0 <= k < i ==> (#[trigger] list@[k])@ != text@,
        decreases list@.len() - i,
    {
        if same_text(&list[i], text) {
            assert(texts_view(list@)[i as int] == text@);
            return true;
        }
        i = i + 1;
    }
    assert forall|k: int| 0 <= k < texts_view(list@).len() implies texts_view(list@)[k]
        != text@ by {
        assert(texts_view(list@)[k] == list@[k]@);
    }
    false
}

/// The texts of a list other than one, in their order.
fn all_but(list: &Vec<String>, text: &String) -> (left: Vec<String>)
    ensures
        texts_view(left@) == without(texts_view(list@), text@),
{
    let mut left: Vec<String> = Vec::new();
    let ghost views = texts_view(list@);
    let mut i: usize = 0;
    assert(texts_view(left@) =~= without(views.take(0), text@)) by {
        reveal(Seq::filter);
    }
    while i < list.len()
        invariant
            i <= list@.len(),
            views == texts_view(list@),
            texts_view(left@) == without(views.take(i as int), text@),
        decreases list@.len() - i,
    {
        let ghost held = left@;
        proof {
            reveal(Seq::filter);
            assert(views.take(i as int + 1).drop_last() =~= views.take(i as int));
            assert(views.take(i as int + 1).last() == list@[i as int]@);
        }
        if !same_text(&list[i], text) {
            left.push(list[i].clone());
            assert(texts_view(left@) =~= texts_view(held).push(list@[i as int]@));
        }
        i = i + 1;
    }
    assert(views.take(i as int) =~= views);
    left
}

/// A request waits once, however often it is made: asking again changes nothing, and no other
/// request is touched.
pub proof fn a_request_waits_once(texts: Seq<Seq<char>>, text: Seq<char>)
    requires
        each_once(texts),
    ensures
        each_once(with_text(texts, text)),
        with_text(texts, text).contains(text),
        with_text(with_text(texts, text), text) == with_text(texts, text),
        with_text(texts, text).take(texts.len() as int) == texts,
{
    if !texts.contains(text) {
        assert(texts.push(text)[texts.len() as int] == text);
    }
    assert(with_text(texts, text).take(texts.len() as int) =~= texts);
}

/// A cleared request no longer waits, and clearing again clears nothing.
pub proof fn a_cleared_request_is_gone(texts: Seq<Seq<char>>, text: Seq<char>)
    requires
        each_once(texts),
    ensures
        !without(texts, text).contains(text),
        without(without(texts, text), text) == without(texts, text),
{
    lemma_all_but(texts, text);
    lemma_without_absent(without(texts, text), text);
}

proof fn lemma_without_absent(texts: Seq<Seq<char>>, text: Seq<char>)
    requires
        !texts.contains(text),
    ensures
        without(texts, text) == texts,
    decreases texts.len(),
{
    reveal(Seq::filter);
    if texts.len() > 0 {
        let front = texts.drop_last();
        assert forall|i: int| 0 <= i < front.len() implies front[i] != text by {
            assert(texts[i] != text);
        }
        lemma_without_absent(front, text);
        assert(texts[texts.len() - 1] != text);
        assert(front.push(texts.last()) =~= texts);
    }
}

/// How far along the address path the wallet watches.
#[derive(Debug, PartialEq, Eq)]
pub struct DerivationWindow {
    index: u32,
}

impl DerivationWindow {
    /// The current index.
    pub closed spec fn at(self) -> u32 {
        self.index
    }

    /// A window that starts at an index.
    pub fn starting_at(index: u32) -> (window: Self)
        ensures
            window.at() == index,
    {
        DerivationWindow { index }
    }

    /// The current index.
    pub fn index(&self) -> (index: u32)
        ensures
            index == self.at(),
    {
        self.index
    }

    /// Widens the window, up to the largest index and never back to a smaller one.
    pub fn increase(&mut self, count: u32) -> (index: u32)
        ensures
            index == final(self).at(),
            final(self).at() == if old(self).at() + count > u32::MAX {
                u32::MAX
            } else {
                (old(self).at() + count) as u32
            },
            final(self).at() >= old(self).at(),
    {
        self.index = self.index.saturating_add(count);
        self.index
    }
}

impl Default for DerivationWindow {
    /// A window that starts at zero.
    fn default() -> (window: Self)
        ensures
            window.at() == 0,
    {
        DerivationWindow { index: 0 }
    }
}

/// A peer that the wallet can reach.
#[derive(Debug, Clone, Copy, PartialEq, Eq, PartialOrd, Ord, Structural)]
pub struct PeerEntry {
    /// Where to dial it.
    pub address: PeerAddress,
}

/// The peers, the preferred one, the network and the sync policy.
#[derive(Debug)]
pub struct NetworkBook {
    peers: Vec<PeerEntry>,
    target: Option<PeerAddress>,
    network: Network,
    delta_sync: bool,
}

/// The addresses of peers.
pub open spec fn addresses(peers: Seq<PeerEntry>) -> Seq<PeerAddress> {
    peers.map_values(|p: PeerEntry| p.address)
}

impl NetworkBook {
    /// No peer is listed twice, and the preferred peer is listed.
    pub closed spec fn wf(self) -> bool {
        &&& self.known().no_duplicates()
        &&& self.target matches Some(address) ==> self.known().contains(address)
    }

    /// The known peers, in the order in which they came in.
    pub closed spec fn known(self) -> Seq<PeerAddress> {
        addresses(self.peers@)
    }

    /// The preferred peer.
    pub closed spec fn preferred(self) -> Option<PeerAddress> {
        self.target
    }

    /// The network.
    pub closed spec fn on(self) -> Network {
        self.network
    }

    /// Whether sync is incremental.
    pub closed spec fn incremental(self) -> bool {
        self.delta_sync
    }

    /// An empty book on a network, with incremental sync.
    pub fn new(network: Network) -> (book: Self)
        ensures
            book.wf(),
            book.known() == Seq::<PeerAddress>::empty(),
            book.preferred() is None,
            book.on() == network,
            book.incremental(),
    {
        let book = NetworkBook { peers: Vec::new(), target: None, network, delta_sync: true };
        assert(book.known() =~= Seq::<PeerAddress>::empty());
        book
    }

    /// Whether a peer is known.
    fn knows(&self, address: PeerAddress) -> (known: bool)
        ensures
            known == self.known().contains(address),
    {
        let mut i: usize = 0;
        while i < self.peers.len()
            invariant
                i <= self.peers@.len(),
                forall|k: int| 0 <= k < i ==> (#[trigger] self.peers@[k]).address != address,
            decreases self.peers@.len() - i,
        {
            if self.peers[i].address == address {
                assert(self.known()[i as int] == address);
                return true;
            }
            i = i + 1;
        }
        assert forall|k: int| 0 <= k < self.known().len() implies self.known()[k] != address by {
            assert(self.known()[k] == self.peers@[k].address);
        }
        false
    }

    /// Adds a peer, once.
    pub fn add_peer(&mut self, address: PeerAddress)
        requires
            old(self).wf(),
        ensures
            final(self).wf(),
            final(self).known() == if old(self).known().contains(address) {
                old(self).known()
            } else {
                old(self).known().push(address)
            },
            final(self).preferred() == old(self).preferred(),
            final(self).on() == old(self).on(),
            final(self).incremental() == old(self).incremental(),
    {
        if !self.knows(address) {
            let ghost before = self.known();
            self.peers.push(PeerEntry { address });
            proof {
                assert(self.known() =~= before.push(address));
                if let Some(preferred) = self.target {
                    let i = choose|i: int| 0 <= i < before.len() && before[i] == preferred;
                    assert(self.known()[i] == preferred);
                }
            }
        }
    }

    /// Forgets a peer, and says whether it was known. A forgotten peer is no longer preferred.
    pub fn remove_peer(&mut self, address: PeerAddress) -> (removed: bool)
        requires
            old(self).wf(),
        ensures
            final(self).wf(),
            removed == old(self).known().contains(address),
            final(self).known() == without(old(self).known(), address),
            final(self).preferred() == if old(self).preferred() == Some(address) {
                None
            } else {
                old(self).preferred()
            },
            final(self).on() == old(self).on(),
            final(self).incremental() == old(self).incremental(),
    {
        let removed: bool = self.knows(address);
        let ghost before = self.known();
        let mut left: Vec<PeerEntry> = Vec::new();
        let mut i: usize = 0;
        assert(addresses(left@) =~= without(before.take(0), address)) by {
            reveal(Seq::filter);
        }
        while i < self.peers.len()
            invariant
                i <= self.peers@.len(),
                before == addresses(self.peers@),
                addresses(left@) == without(before.take(i as int), address),
            decreases self.peers@.len() - i,
        {
            let ghost held = left@;
            proof {
                reveal(Seq::filter);
                assert(before.take(i as int + 1).drop_last() =~= before.take(i as int));
                assert(before.take(i as int + 1).last() == self.peers@[i as int].address);
            }
            if self.peers[i].address != address {
                left.push(self.peers[i]);
                assert(addresses(left@) =~= addresses(held).push(self.peers@[i as int].address));
            }
            i = i + 1;
        }
        assert(before.take(i as int) =~= before);
        self.peers = left;
        if removed {
            match self.target {
                Some(preferred) => if preferred == address {
                    self.target = None;
                },
                None => {},
            }
        }
        proof {
            lemma_all_but(before, address);
        }
        removed
    }

    /// The known peers, IPv6 before IPv4, whatever the order in which they came in.
    pub fn peers(&self) -> (peers: Vec<PeerEntry>)
        ensures
            addresses(peers@) == dial_order(self.known(), true),
    {
        let mut known: Vec<PeerAddress> = Vec::new();
        let mut i: usize = 0;
        while i < self.peers.len()
            invariant
                i <= self.peers@.len(),
                known@.len() == i,
                forall|k: int| 0 <= k < i ==> #[trigger] known@[k] == self.peers@[k].address,
            decreases self.peers@.len() - i,
        {
            known.push(self.peers[i].address);
            i = i + 1;
        }
        assert(known@ =~= self.known());
        let ordered = order_dial_candidates(known.as_slice(), true);
        let mut peers: Vec<PeerEntry> = Vec::new();
        let mut j: usize = 0;
        while j < ordered.len()
            invariant
                j <= ordered@.len(),
                peers@.len() == j,
                forall|k: int| 0 <= k < j ==> (#[trigger] peers@[k]).address == ordered@[k],
            decreases ordered@.len() - j,
        {
            peers.push(PeerEntry { address: ordered[j] });
            j = j + 1;
        }
        assert(addresses(peers@) =~= ordered@);
        peers
    }

    /// Prefers a peer, if it is known, and says whether it is. An unknown peer is refused, not
    /// added.
    pub fn target_peer(&mut self, address: PeerAddress) -> (known: bool)
        requires
            old(self).wf(),
        ensures
            final(self).wf(),
            known == old(self).known().contains(address),
            final(self).known() == old(self).known(),
            final(self).preferred() == if known {
                Some(address)
            } else {
                old(self).preferred()
            },
            final(self).on() == old(self).on(),
            final(self).incremental() == old(self).incremental(),
    {
        let known: bool = self.knows(address);
        if known {
            self.target = Some(address);
        }
        known
    }

    /// The preferred peer.
    pub fn target(&self) -> (target: Option<PeerAddress>)
        ensures
            target == self.preferred(),
    {
        self.target
    }

    /// The network.
    pub fn network(&self) -> (network: Network)
        ensures
            network == self.on(),
    {
        self.network
    }

    /// Selects a network. The peers of another network cannot serve it, so they are forgotten.
    pub fn set_network(&mut self, network: Network)
        ensures
            final(self).wf(),
            final(self).on() == network,
            final(self).known() == Seq::<PeerAddress>::empty(),
            final(self).preferred() is None,
            final(self).incremental() == old(self).incremental(),
    {
        self.network = network;
        self.peers = Vec::new();
        self.target = None;
        assert(self.known() =~= Seq::<PeerAddress>::empty());
    }

    /// Whether sync is incremental.
    pub fn delta_sync(&self) -> (enabled: bool)
        ensures
            enabled == self.incremental(),
    {
        self.delta_sync
    }

    /// Switches incremental sync on or off.
    pub fn set_delta_sync(&mut self, enabled: bool)
        requires
            old(self).wf(),
        ensures
            final(self).wf(),
            final(self).incremental() == enabled,
            final(self).known() == old(self).known(),
            final(self).preferred() == old(self).preferred(),
            final(self).on() == old(self).on(),
    {
        self.delta_sync = enabled;
    }

    /// The preferred peer is always one that the wallet knows, and no peer is known twice.
    pub proof fn the_target_is_a_known_peer(self)
        requires
            self.wf(),
        ensures
            self.preferred() matches Some(address) ==> self.known().contains(address),
            self.known().no_duplicates(),
    {
    }
}

} // verus!
