//! The wallet engine: state, sync, selection, spend builders and events.
//!
//! Nothing here holds a private key and nothing here signs: builders return what must be signed,
//! and signatures come from outside.
//!
//! The modules whose names end in `_laws` hold what the engine promises as a whole: each law states,
//! of the inputs and the results alone, what an operation does or how two of them relate.

use vstd::prelude::*;

use crate::types::value::Network;
use sync::SyncConfig;

pub mod actions;
pub mod broadcast;
pub mod build_extended;
pub mod build_offer;
pub mod build_offers;
pub mod build_options;
pub mod build_tips;
pub mod builder;
pub mod did;
pub mod driver;
pub mod events;
pub mod hints;
pub mod nft;
pub mod offer_driver;
pub mod offer_laws;
pub mod offer_state;
pub mod option_driver;
pub mod option_laws;
pub mod parse;
pub mod persist;
pub mod refusal_laws;
pub mod selection;
pub mod signer;
pub mod singleton;
pub mod singleton_driver;
pub mod singleton_laws;
pub mod spend_laws;
pub mod state;
pub mod state_laws;
pub mod sync;
pub mod sync_laws;
pub mod tip_driver;
pub mod tip_laws;

verus! {

/// The settings of an engine.
#[derive(Debug, Clone, PartialEq, Eq)]
pub struct EngineConfig {
    /// The network.
    pub network: Network,
    /// The path of the database.
    pub db_path: String,
    /// The settings of the sync loop.
    pub sync: SyncConfig,
}

impl EngineConfig {
    /// Mainnet with a database path and the default sync settings.
    pub fn mainnet(db_path: String) -> (config: Self)
        ensures
            config.network == Network::Mainnet,
            config.db_path == db_path,
            config.sync.ipv6_first,
            config.sync.coin_cap == selection::DEFAULT_COIN_CAP,
            config.sync.fallback_endpoints@.len() == 0,
    {
        EngineConfig { network: Network::Mainnet, db_path, sync: SyncConfig::default() }
    }
}

} // verus!
