//! The data that callers exchange with the engine.

use dig_wallet_backend::types::{
    Address, Amount, AssetId, Cursor, Did, EventFilter, EventKind, Hint, IdentityRef, SpendOutput,
    SyncLifecycle, WalletError, WalletErrorCode, WalletEvent, WalletId,
};

#[test]
fn code_strings_are_stable_snake_case() {
    assert_eq!(WalletErrorCode::InvalidInput.as_str(), "invalid_input");
    assert_eq!(WalletErrorCode::InsufficientFunds.as_str(), "insufficient_funds");
    assert_eq!(WalletErrorCode::SubscriberLagged.as_str(), "subscriber_lagged");
}

#[test]
fn constructors_set_the_code() {
    let e = WalletError::invalid_input("bad address".into());
    assert_eq!(e.code, WalletErrorCode::InvalidInput);
    assert!(e.text().contains("bad address"));
    let e = WalletError::not_implemented("engine::build".into());
    assert_eq!(e.code, WalletErrorCode::NotImplemented);
}

#[test]
fn cursor_advances_monotonically() {
    assert_eq!(Cursor(0).next(), Cursor(1));
    assert!(Cursor(1) > Cursor(0));
}

fn received() -> WalletEvent {
    WalletEvent::FundsReceived {
        wallet_id: WalletId(1),
        asset: None,
        amount: Amount(5),
        coin_id: "c".into(),
        confirmed_height: 10,
    }
}

#[test]
fn kind_maps_each_variant() {
    assert_eq!(received().kind(), EventKind::FundsReceived);
}

#[test]
fn filter_admits_only_matching_kinds() {
    let tip = WalletEvent::NewTip { height: 9, header_hash: "hh".into() };
    let funds_only = EventFilter::only(EventKind::FundsReceived).and(EventKind::FundsSent);
    assert!(received().matches(&funds_only));
    assert!(!tip.matches(&funds_only));
}

#[test]
fn every_event_has_its_own_kind() {
    let sent = WalletEvent::FundsSent {
        wallet_id: WalletId(2),
        asset: Some(AssetId("tail".into())),
        amount: Amount(3),
        tx_id: "t".into(),
        confirmed_height: 1,
    };
    assert_eq!(sent.kind(), EventKind::FundsSent);
    let changed = WalletEvent::CoinStateChanged {
        coin_id: "c".into(),
        spent: true,
        created_height: Some(1),
        spent_height: Some(2),
    };
    assert_eq!(changed.kind(), EventKind::CoinStateChanged);
    let progress = WalletEvent::SyncProgress {
        wallet_id: WalletId(1),
        state: SyncLifecycle::Syncing,
        peak_height: 5,
        target_height: 10,
    };
    assert_eq!(progress.kind(), EventKind::SyncProgress);
    let derived = WalletEvent::Derivation { wallet_id: WalletId(1), index: 7 };
    assert_eq!(derived.kind(), EventKind::Derivation);
    assert!(!derived.matches(&EventFilter::none()));
    assert!(derived.matches(&EventFilter::all()));
}

#[test]
fn hint_normalises_case_and_prefix_to_one_key() {
    assert_eq!(Hint::new("0xAB12"), Hint::new("ab12"));
    assert_eq!(Hint::new("0XAB12"), Hint::new("ab12"));
}

#[test]
fn hint_from_bytes_is_lower_hex() {
    assert_eq!(Hint::from_bytes(&[0xab, 0x12]).as_str(), "ab12");
}

#[test]
fn builder_sets_profile_and_did() {
    let id = IdentityRef::new(WalletId(42))
        .with_profile(3)
        .with_did(Did("did:chia:1abc".into()));
    assert_eq!(id.wallet_id, WalletId(42));
    assert_eq!(id.profile_ix, 3);
    assert_eq!(id.did, Some(Did("did:chia:1abc".into())));
}

#[test]
fn defaults_to_root_profile_no_did() {
    let id = IdentityRef::new(WalletId(1));
    assert_eq!(id.profile_ix, 0);
    assert!(id.did.is_none());
}

#[test]
fn display_forms_are_readable() {
    assert_eq!(WalletId(9).text(), "9");
    assert_eq!(Did("did:chia:x".into()).text(), "did:chia:x");
}

#[test]
fn is_protocol_sink_tracks_the_empty_address_convention() {
    let sink =
        SpendOutput::new(Address(String::new()), Amount(5), None);
    let recipient =
        SpendOutput::new(Address("xch1abc".into()), Amount(5), None);
    assert!(sink.is_protocol_sink());
    assert!(!recipient.is_protocol_sink());
}
