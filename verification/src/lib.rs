//! The wallet backend engine: state tracking, coin selection, unsigned-spend construction,
//! sync decisions and event history for a Chia wallet.
//!
//! The engine works on public material alone. It never holds a private key and never signs: a
//! build ends in an unsigned spend that lists the signatures it needs, and a signer outside this
//! crate produces them.
//!
//! - [`types`]: the plain data that callers exchange with the engine.
//! - [`engine`]: the wallet state, the selection rules and the spend builders.
//! - [`text`]: the small text functions that both of them share.
//! - [`textmap`] and [`textset`]: maps and sets keyed by text.
pub mod engine;
pub mod text;
pub mod textmap;
pub mod textset;
pub mod types;
