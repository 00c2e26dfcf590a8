//! Submission, the signer's refusal and the configuration.

use dig_wallet_backend::engine::broadcast::{submission_outcome, MempoolStatus};
use dig_wallet_backend::engine::signer::refuse_dh;
use dig_wallet_backend::engine::EngineConfig;
use dig_wallet_backend::types::{Network, WalletErrorCode};

#[test]
fn accepted_is_success() {
    assert!(submission_outcome(MempoolStatus::Accepted).is_ok());
}

#[test]
fn a_duplicate_already_in_mempool_is_idempotent_success() {
    assert!(submission_outcome(MempoolStatus::AlreadyInMempool).is_ok());
}

#[test]
fn a_rejection_fails_closed_with_the_reason() {
    let err =
        submission_outcome(MempoolStatus::Rejected { reason: "DOUBLE_SPEND".into() }).unwrap_err();
    assert_eq!(err.code, WalletErrorCode::SpendValidationFailed);
    assert!(err.message.contains("DOUBLE_SPEND"));
    assert_eq!(err.message, "mempool rejected the bundle: DOUBLE_SPEND");
}

#[test]
fn a_signer_refuses_decapsulation_by_default() {
    let err = refuse_dh(&[0u8; 48]).unwrap_err();
    assert_eq!(err.code, WalletErrorCode::InvalidInput);
    assert_eq!(err.message, "this signer does not support G1-ECDH decap");
}

#[test]
fn mainnet_config_uses_defaults() {
    let cfg = EngineConfig::mainnet("/data/wallet.db".into());
    assert_eq!(cfg.network, Network::Mainnet);
    assert_eq!(cfg.db_path, "/data/wallet.db");
    assert!(cfg.sync.ipv6_first);
}
