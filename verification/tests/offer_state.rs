//! Builds that wait for their second call.

use dig_wallet_backend::engine::offer_driver::{AskedSide, MakerSide};
use dig_wallet_backend::engine::offer_state::{
    MakeIntermediate, PendingOffers, TakeIntermediate, PENDING_TTL,
};
use dig_wallet_backend::types::{Bytes32, OfferBuildId};

fn make() -> MakeIntermediate {
    MakeIntermediate {
        side: MakerSide {
            change_puzzle_hash: Bytes32::new([1u8; 32]),
            owner_keys: indexmap::IndexMap::new(),
            xch_coins: vec![],
            cat_coins: vec![],
            offer_xch: 0,
            offer_cats: vec![],
        },
        asked: AskedSide { payee_puzzle_hash: Bytes32::new([2u8; 32]), xch: 0, cats: vec![] },
        fee: 0,
    }
}

#[test]
fn a_make_can_be_parked_and_reclaimed_once() {
    let mut pending = PendingOffers::new();
    let id = pending.insert_make(make(), 0);
    assert_eq!(pending.len(0), 1);
    assert!(pending.take_make(&id, 0).is_some(), "first take succeeds");
    assert!(pending.take_make(&id, 0).is_none(), "a build is single-use");
    assert!(pending.is_empty(0));
}

#[test]
fn a_make_id_cannot_be_finalized_as_a_take() {
    let mut pending = PendingOffers::new();
    let id = pending.insert_make(make(), 0);
    assert!(pending.take_take(&id, 0).is_none(), "wrong-kind id is rejected");
    assert!(pending.take_make(&id, 0).is_none());
}

#[test]
fn an_unknown_id_is_none() {
    let mut pending = PendingOffers::new();
    assert!(pending.take_make(&OfferBuildId("nope".into()), 0).is_none());
}

#[test]
fn expired_builds_are_swept() {
    let mut pending = PendingOffers::new();
    let id = pending.insert_make(make(), 0);
    let later = PENDING_TTL + 1_000_000_000;
    assert!(pending.take_make(&id, later).is_none(), "expired build is gone");
    assert!(pending.is_empty(later));
}

#[test]
fn a_build_waits_up_to_its_limit() {
    let mut pending = PendingOffers::new();
    let first = pending.insert_take(TakeIntermediate { offer: "offer1a".into() }, 10);
    let second = pending.insert_take(TakeIntermediate { offer: "offer1b".into() }, 20);
    assert_eq!(first, OfferBuildId("offer-build-0".into()));
    assert_eq!(second, OfferBuildId("offer-build-1".into()));
    assert_eq!(pending.len(PENDING_TTL + 9), 2);
    assert_eq!(pending.len(PENDING_TTL + 10), 1);
    assert!(pending.take_take(&first, PENDING_TTL + 10).is_none());
    assert_eq!(pending.take_take(&second, PENDING_TTL + 10).unwrap().offer, "offer1b");
}
