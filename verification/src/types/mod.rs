//! The plain data that callers exchange with the engine.
//!
//! Nothing here performs I/O, and nothing here holds secret material.

pub mod chain;
pub mod error;
pub mod event;
pub mod hint;
pub mod identity;
pub mod offer;
pub mod offers;
pub mod options;
pub mod request;
pub mod spend;
pub mod tips;
pub mod value;

pub use chain::{
    Bytes32, LineageProof, PublicKey, Signature, WalletBundle, WalletCat, WalletCoin, WalletSpend,
};
pub use error::{WalletError, WalletErrorCode, WalletResult};
pub use event::{
    Cursor, EmittedEvent, EventFilter, EventKind, SyncLifecycle, SyncStatus, WalletEvent,
};
pub use hint::Hint;
pub use identity::{Did, IdentityRef, WalletId};
pub use offer::{
    AssembleOfferRequest, CancelOfferRequest, CombineOffersRequest, FinalizeTakeRequest,
    MakeOfferRequest, OfferBuildId, OfferString, OfferSummary, OfferedAssets, PendingOfferBuild,
    RequestedAssets, SummarizeOfferRequest, SummaryAsset, TakeOfferRequest,
};
pub use offers::OfferLeg;
pub use options::{
    ExerciseOptionRequest, MintOptionRequest, MintedOption, OptionHandle, OptionOnChainState,
    OptionStrike, TransferOptionRequest, WireCoin,
};
pub use request::{
    CombineXchRequest, MultiSendCatRequest, MultiSendXchRequest, SendCatRequest, SendLeg,
    SendXchRequest, SplitXchRequest,
};
pub use spend::{RequiredSignature, SignedBundle, UnsignedSpend};
pub use tips::{
    AutoTipOutcome, AutoTipPolicy, AutoTipRequest, CapReason, TipDecision, TipLedger, TipMode,
    TipRequest,
};
pub use value::{
    Address, Amount, AssetId, Balance, CatRecord, CoinRecord, DidRecord, Network, NftRecord,
    Puzzlehash, SpendOutput, TransactionRecord, TransactionSummary,
};
