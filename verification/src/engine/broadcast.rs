//! What a broadcaster makes of the mempool's answer to a signed bundle.

use vstd::prelude::*;
use vstd::string::*;

use crate::text::joined;
use crate::types::error::{spend_fault, WalletError, WalletErrorCode, WalletErrorView, WalletResult};

verus! {

/// How the mempool answered a bundle.
#[derive(Debug, Clone, PartialEq, Eq)]
pub enum MempoolStatus {
    /// The bundle was accepted.
    Accepted,
    /// The bundle was there already.
    AlreadyInMempool,
    /// The bundle was rejected.
    Rejected {
        /// Why, in the node's words.
        reason: String,
    },
}

/// What a submission comes to: acceptance is success, and so is a bundle that was there already;
/// a rejection is an error with the node's reason.
pub open spec fn submitted(status: MempoolStatus) -> Result<(), WalletErrorView> {
    match status {
        MempoolStatus::Accepted => Ok(()),
        MempoolStatus::AlreadyInMempool => Ok(()),
        MempoolStatus::Rejected { reason } => Err(
            spend_fault("mempool rejected the bundle: "@ + reason@),
        ),
    }
}

/// Turns the mempool's answer into the outcome of a submission.
pub fn submission_outcome(status: MempoolStatus) -> (result: WalletResult<()>)
    ensures
        match result {
            Ok(()) => submitted(status) is Ok,
            Err(error) => submitted(status) == Err::<(), WalletErrorView>(error@),
        },
{
    match status {
        MempoolStatus::Accepted => Ok(()),
        MempoolStatus::AlreadyInMempool => Ok(()),
        MempoolStatus::Rejected { reason } => Err(
            WalletError::new(
                WalletErrorCode::SpendValidationFailed,
                joined("mempool rejected the bundle: ", reason.as_str()),
            ),
        ),
    }
}

/// Submitting a bundle again after it was accepted is still a success.
pub proof fn resubmission_succeeds()
    ensures
        submitted(MempoolStatus::Accepted) == submitted(MempoolStatus::AlreadyInMempool),
        submitted(MempoolStatus::AlreadyInMempool) is Ok,
{
}

} // verus!
