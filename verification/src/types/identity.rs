//! Identity references: the public material that says for whom the engine works.

use vstd::prelude::*;

verus! {

/// The master-key fingerprint that identifies a wallet.
#[derive(Debug, Clone, Copy, PartialEq, Eq, PartialOrd, Ord, Hash, Structural)]
pub struct WalletId(pub u32);

impl WalletId {
    /// The fingerprint in decimal notation.
    pub fn text(self) -> (text: String)
        ensures
            text@ == crate::text::decimal(self.0 as nat),
    {
        crate::text::decimal_text(self.0 as u64)
    }
}

/// A Chia decentralized identifier in its `did:chia:` text form.
#[derive(Debug, Clone, PartialEq, Eq, Hash)]
pub struct Did(pub String);

impl View for Did {
    type V = Seq<char>;

    open spec fn view(&self) -> Seq<char> {
        self.0@
    }
}

impl Did {
    /// The identifier as text.
    pub fn text(&self) -> (text: String)
        ensures
            text@ == self@,
    {
        self.0.clone()
    }
}

/// The public handle that says "operate as this identity".
#[derive(Debug, Clone, PartialEq, Eq)]
pub struct IdentityRef {
    /// The fingerprint of the wallet.
    pub wallet_id: WalletId,
    /// The DID that this identity is bound to, when it has one.
    pub did: Option<Did>,
    /// The profile index; `0` is the root profile.
    pub profile_ix: u32,
}

/// What an [`IdentityRef`] says.
pub struct IdentityView {
    /// The wallet.
    pub wallet_id: WalletId,
    /// The DID.
    pub did: Option<Seq<char>>,
    /// The profile index.
    pub profile_ix: u32,
}

impl View for IdentityRef {
    type V = IdentityView;

    open spec fn view(&self) -> IdentityView {
        IdentityView {
            wallet_id: self.wallet_id,
            did: match self.did {
                Some(did) => Some(did@),
                None => None,
            },
            profile_ix: self.profile_ix,
        }
    }
}

impl IdentityRef {
    /// The root profile of a wallet, without a DID.
    pub fn new(wallet_id: WalletId) -> (identity: Self)
        ensures
            identity == (IdentityRef { wallet_id, did: None, profile_ix: 0 }),
    {
        IdentityRef { wallet_id, did: None, profile_ix: 0 }
    }

    /// The same identity at another profile index.
    pub fn with_profile(self, profile_ix: u32) -> (identity: Self)
        ensures
            identity == (IdentityRef { profile_ix, ..self }),
    {
        IdentityRef { wallet_id: self.wallet_id, did: self.did, profile_ix }
    }

    /// The same identity bound to a DID.
    pub fn with_did(self, did: Did) -> (identity: Self)
        ensures
            identity == (IdentityRef { did: Some(did), ..self }),
    {
        IdentityRef { wallet_id: self.wallet_id, did: Some(did), profile_ix: self.profile_ix }
    }
}

} // verus!
