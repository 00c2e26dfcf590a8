//! Coins, coin spends and keys as plain bytes.

use vstd::prelude::*;

use crate::text::{bytes_before, is_bytes_before};

verus! {

/// A 32-byte value: a hash, a coin id or an asset id.
#[derive(Debug, Clone, Copy, PartialEq, Eq, PartialOrd, Ord, Hash)]
pub struct Bytes32(pub [u8; 32]);

impl View for Bytes32 {
    type V = Seq<u8>;

    open spec fn view(&self) -> Seq<u8> {
        self.0@
    }
}

impl Bytes32 {
    /// The value that holds the given bytes.
    pub fn new(bytes: [u8; 32]) -> (value: Self)
        ensures
            value == Bytes32(bytes),
    {
        Bytes32(bytes)
    }

    /// Whether two values hold the same bytes.
    pub fn same(&self, other: &Self) -> (same: bool)
        ensures
            same == (*self == *other),
    {
        let mut i: usize = 0;
        while i < 32
            invariant
                i <= 32,
                forall|k: int| 0 <= k < i ==> self.0@[k] == other.0@[k],
            decreases 32 - i,
        {
            if self.0[i] != other.0[i] {
                return false;
            }
            i = i + 1;
        }
        assert(self.0 =~= other.0);
        true
    }

    /// Whether this value comes strictly before the other in byte order.
    pub fn is_before(&self, other: &Self) -> (before: bool)
        ensures
            before == bytes_before(self@, other@),
    {
        is_bytes_before(self.0.as_slice(), other.0.as_slice())
    }
}

/// Values with the same bytes are the same value.
pub proof fn lemma_bytes32_view(a: Bytes32, b: Bytes32)
    ensures
        (a@ == b@) == (a == b),
{
    if a@ == b@ {
        assert forall|i: int| 0 <= i < 32 implies a.0[i] == b.0[i] by {
            assert(a@[i] == b@[i]);
        }
        assert(a.0 =~= b.0);
    }
}

/// The value with the given 32 bytes.
pub open spec fn bytes32(bytes: Seq<u8>) -> Bytes32 {
    choose|value: Bytes32| value@ == bytes
}

/// Makes a value of 32 bytes.
pub fn to_bytes32(bytes: &Vec<u8>) -> (value: Option<Bytes32>)
    ensures
        match value {
            Some(v) => bytes@.len() == 32 && v@ == bytes@ && v == bytes32(bytes@),
            None => bytes@.len() != 32,
        },
{
    if bytes.len() != 32 {
        return None;
    }
    let mut held: [u8; 32] = [0u8; 32];
    let mut i: usize = 0;
    while i < 32
        invariant
            i <= 32,
            bytes@.len() == 32,
            forall|k: int| 0 <= k < i ==> held@[k] == bytes@[k],
        decreases 32 - i,
    {
        held[i] = bytes[i];
        i = i + 1;
    }
    let value = Bytes32(held);
    proof {
        assert(value@ =~= bytes@);
        lemma_bytes32_view(value, bytes32(bytes@));
    }
    Some(value)
}

/// Whether two optional values are the same.
pub fn same_optional(a: &Option<Bytes32>, b: &Option<Bytes32>) -> (same: bool)
    ensures
        same == (*a == *b),
{
    match (a, b) {
        (Some(x), Some(y)) => x.same(y),
        (None, None) => true,
        _ => false,
    }
}

/// A compressed BLS public key.
#[derive(Debug, Clone, Copy, PartialEq, Eq, Hash)]
pub struct PublicKey(pub [u8; 48]);

/// A compressed BLS signature.
#[derive(Debug, Clone, Copy, PartialEq, Eq, Hash)]
pub struct Signature(pub [u8; 96]);

/// A coin: its parent, the hash of the puzzle that locks it, and its value.
#[derive(Debug, Clone, Copy, PartialEq, Eq, Hash)]
pub struct WalletCoin {
    /// The id of the coin that created this one.
    pub parent_coin_info: Bytes32,
    /// The hash of the puzzle that locks the coin.
    pub puzzle_hash: Bytes32,
    /// The value in mojos.
    pub amount: u64,
}

/// The id that `chia_protocol` gives a coin: the hash over its parent, puzzle hash and amount.
pub uninterp spec fn id_of(coin: WalletCoin) -> Bytes32;

impl WalletCoin {
    /// A coin from its three parts.
    pub fn new(parent_coin_info: Bytes32, puzzle_hash: Bytes32, amount: u64) -> (coin: Self)
        ensures
            coin == (WalletCoin { parent_coin_info, puzzle_hash, amount }),
    {
        WalletCoin { parent_coin_info, puzzle_hash, amount }
    }

    /// The coin's id.
    pub fn coin_id(&self) -> (id: Bytes32)
        ensures
            id == id_of(*self),
    {
        hashed_id(self)
    }
}

/// Computes a coin's id.
///
/// Calls `chia_protocol::Coin::coin_id`, a hash of the three parts and of nothing else.
#[verifier::external_body]
fn hashed_id(coin: &WalletCoin) -> (id: Bytes32)
    ensures
        id == id_of(*coin),
{
    let parent = coin.parent_coin_info.0.into();
    let outside = chia_protocol::Coin::new(parent, coin.puzzle_hash.0.into(), coin.amount);
    Bytes32(outside.coin_id().to_bytes())
}

/// The sum of the coins' amounts.
pub open spec fn total_of_coins(coins: Seq<WalletCoin>) -> nat
    decreases coins.len(),
{
    if coins.len() == 0 {
        0
    } else {
        total_of_coins(coins.drop_last()) + coins.last().amount as nat
    }
}

/// What a child CAT coin must show of its parent.
#[derive(Debug, Clone, Copy, PartialEq, Eq, Hash)]
pub struct LineageProof {
    /// The parent of the parent coin.
    pub parent_parent_coin_info: Bytes32,
    /// The inner puzzle hash of the parent coin.
    pub parent_inner_puzzle_hash: Bytes32,
    /// The amount of the parent coin.
    pub parent_amount: u64,
}

/// A CAT coin with what is needed to spend its outer puzzle.
#[derive(Debug, Clone, Copy, PartialEq, Eq, Hash)]
pub struct WalletCat {
    /// The coin on chain.
    pub coin: WalletCoin,
    /// The lineage proof, absent only while a CAT is being issued.
    pub lineage_proof: Option<LineageProof>,
    /// The asset id (TAIL hash).
    pub asset_id: Bytes32,
    /// The hash of the hidden puzzle of a revocable CAT.
    pub hidden_puzzle_hash: Option<Bytes32>,
    /// The hash of the inner puzzle that authorizes the coin.
    pub p2_puzzle_hash: Bytes32,
}

/// The underlying coins of CATs.
pub open spec fn cat_coins(cats: Seq<WalletCat>) -> Seq<WalletCoin> {
    cats.map_values(|c: WalletCat| c.coin)
}

/// A coin with the puzzle that is revealed to spend it and the solution of that puzzle.
#[derive(Debug, PartialEq, Eq)]
pub struct WalletSpend {
    /// The coin that is spent.
    pub coin: WalletCoin,
    /// The serialized puzzle.
    pub puzzle_reveal: Vec<u8>,
    /// The serialized solution.
    pub solution: Vec<u8>,
}

/// What a [`WalletSpend`] says.
pub struct WalletSpendView {
    /// The coin.
    pub coin: WalletCoin,
    /// The puzzle.
    pub puzzle_reveal: Seq<u8>,
    /// The solution.
    pub solution: Seq<u8>,
}

impl View for WalletSpend {
    type V = WalletSpendView;

    open spec fn view(&self) -> WalletSpendView {
        WalletSpendView {
            coin: self.coin,
            puzzle_reveal: self.puzzle_reveal@,
            solution: self.solution@,
        }
    }
}

impl Clone for WalletSpend {
    fn clone(&self) -> (copy: Self)
        ensures
            copy@ == self@,
    {
        WalletSpend {
            coin: self.coin,
            puzzle_reveal: clone_bytes(&self.puzzle_reveal),
            solution: clone_bytes(&self.solution),
        }
    }
}

/// A copy of a byte string.
pub fn clone_bytes(bytes: &Vec<u8>) -> (copy: Vec<u8>)
    ensures
        copy@ == bytes@,
{
    let copy = bytes.clone();
    assert(copy@ =~= bytes@);
    copy
}

/// What a list of coin spends says.
pub open spec fn spends_view(spends: Seq<WalletSpend>) -> Seq<WalletSpendView> {
    spends.map_values(|s: WalletSpend| s@)
}

/// WalletCoin spends with the signature that authorizes them.
#[derive(Debug, Clone, PartialEq, Eq)]
pub struct WalletBundle {
    /// The spends.
    pub coin_spends: Vec<WalletSpend>,
    /// The aggregated signature.
    pub aggregated_signature: Signature,
}

/// What a [`WalletBundle`] says.
pub struct WalletBundleView {
    /// The spends.
    pub coin_spends: Seq<WalletSpendView>,
    /// The aggregated signature.
    pub aggregated_signature: Signature,
}

impl View for WalletBundle {
    type V = WalletBundleView;

    open spec fn view(&self) -> WalletBundleView {
        WalletBundleView {
            coin_spends: spends_view(self.coin_spends@),
            aggregated_signature: self.aggregated_signature,
        }
    }
}

} // verus!
