//! The signing callback's answers that need no key.

use vstd::prelude::*;
use vstd::string::*;

use crate::types::error::{invalid, WalletError, WalletResult};

verus! {

/// The answer of a signer that holds no identity key to a request for a shared secret: it refuses,
/// whatever the peer's point is.
pub fn refuse_dh(peer_g1: &[u8; 48]) -> (result: WalletResult<[u8; 48]>)
    ensures
        result matches Err(error) && error@ == invalid(
            "this signer does not support G1-ECDH decap"@,
        ),
{
    Err(WalletError::invalid_input("this signer does not support G1-ECDH decap".to_owned()))
}

} // verus!
