//! Asset housekeeping and the peer book.

use dig_wallet_backend::engine::actions::{
    AssetActions, AssetKind, DerivationWindow, NetworkBook, Visibility,
};
use dig_wallet_backend::engine::sync::PeerAddress;
use dig_wallet_backend::types::Network;

fn addr(port: u16) -> PeerAddress {
    PeerAddress::V4 { ip: 0x7f00_0001, port }
}

fn addr_v6(port: u16) -> PeerAddress {
    PeerAddress::V6 { ip6: 1, port, flowinfo: 0, scope_id: 0 }
}

#[test]
fn an_asset_nobody_has_an_opinion_about_is_visible() {
    let actions = AssetActions::new();
    assert_eq!(actions.visibility(AssetKind::Cat, "unknown"), Visibility::Visible);
}

#[test]
fn hiding_one_asset_does_not_hide_another_of_the_same_kind() {
    let mut actions = AssetActions::new();
    actions.set_visibility(AssetKind::Nft, "hidden-one".into(), Visibility::Hidden);
    assert_eq!(actions.visibility(AssetKind::Nft, "hidden-one"), Visibility::Hidden);
    assert_eq!(actions.visibility(AssetKind::Nft, "other-one"), Visibility::Visible);
}

#[test]
fn the_same_id_in_two_families_is_hidden_independently() {
    let mut actions = AssetActions::new();
    let shared = "ab".repeat(32);
    actions.set_visibility(AssetKind::Cat, shared.clone(), Visibility::Hidden);
    assert_eq!(actions.visibility(AssetKind::Cat, &shared), Visibility::Hidden);
    assert_eq!(actions.visibility(AssetKind::Nft, &shared), Visibility::Visible);
}

#[test]
fn refresh_requests_are_idempotent_and_clearable() {
    let mut actions = AssetActions::new();
    actions.request_refresh(AssetKind::Cat, "asset".into());
    actions.request_refresh(AssetKind::Cat, "asset".into());
    assert_eq!(actions.pending_refresh(AssetKind::Cat), vec!["asset"]);
    assert!(actions.clear_refresh(AssetKind::Cat, "asset"));
    assert!(actions.pending_refresh(AssetKind::Cat).is_empty());
    assert!(
        !actions.clear_refresh(AssetKind::Cat, "asset"),
        "clearing nothing must report that nothing was cleared"
    );
}

#[test]
fn a_refresh_request_is_scoped_to_its_family() {
    let mut actions = AssetActions::new();
    actions.request_refresh(AssetKind::Nft, "launcher".into());
    assert!(actions.pending_refresh(AssetKind::Cat).is_empty());
}

#[test]
fn widening_the_derivation_window_saturates_rather_than_wrapping() {
    let mut window = DerivationWindow::starting_at(u32::MAX - 1);
    assert_eq!(window.increase(10), u32::MAX);
    assert_eq!(
        window.index(),
        u32::MAX,
        "an overflow must never narrow the watch window to zero"
    );
}

#[test]
fn adding_a_known_peer_twice_keeps_one_entry() {
    let mut book = NetworkBook::new(Network::Mainnet);
    book.add_peer(addr(8444));
    book.add_peer(addr(8444));
    assert_eq!(book.peers().len(), 1);
}

#[test]
fn the_peer_list_is_ipv6_first_regardless_of_insertion_order() {
    let mut book = NetworkBook::new(Network::Mainnet);
    book.add_peer(addr(8444));
    book.add_peer(addr_v6(8444));
    assert_eq!(
        book.peers().iter().map(|peer| peer.address.is_ipv6()).collect::<Vec<_>>(),
        vec![true, false]
    );
}

#[test]
fn targeting_an_unknown_peer_is_refused() {
    let mut book = NetworkBook::new(Network::Mainnet);
    assert!(!book.target_peer(addr(8444)));
    assert_eq!(book.target(), None);
}

#[test]
fn removing_the_targeted_peer_clears_the_target() {
    let mut book = NetworkBook::new(Network::Mainnet);
    book.add_peer(addr(8444));
    assert!(book.target_peer(addr(8444)));
    assert!(book.remove_peer(addr(8444)));
    assert_eq!(book.target(), None, "a preference must not survive the peer it points at");
}

#[test]
fn removing_another_peer_leaves_the_target_intact() {
    let mut book = NetworkBook::new(Network::Mainnet);
    book.add_peer(addr(8444));
    book.add_peer(addr(8445));
    assert!(book.target_peer(addr(8444)));
    assert!(book.remove_peer(addr(8445)));
    assert_eq!(book.target(), Some(addr(8444)));
}

#[test]
fn switching_network_clears_peers_that_cannot_serve_it() {
    let mut book = NetworkBook::new(Network::Mainnet);
    book.add_peer(addr(8444));
    book.target_peer(addr(8444));
    book.set_network(Network::Testnet);
    assert_eq!(book.network(), Network::Testnet);
    assert!(book.peers().is_empty(), "mainnet peers cannot serve testnet");
    assert_eq!(book.target(), None);
}

#[test]
fn delta_sync_is_on_by_default_and_toggles() {
    let mut book = NetworkBook::new(Network::Mainnet);
    assert!(book.delta_sync());
    book.set_delta_sync(false);
    assert!(!book.delta_sync());
}

#[test]
fn removing_an_unknown_peer_reports_it() {
    let mut book = NetworkBook::new(Network::Mainnet);
    book.add_peer(addr(8444));
    assert!(!book.remove_peer(addr(8445)));
    assert_eq!(book.peers().len(), 1);
}

#[test]
fn a_window_widens_by_the_count() {
    let mut window = DerivationWindow::starting_at(5);
    assert_eq!(window.increase(10), 15);
    assert_eq!(window.index(), 15);
}

#[test]
fn showing_an_asset_again_undoes_hiding_it() {
    let mut actions = AssetActions::new();
    actions.set_visibility(AssetKind::Did, "did".into(), Visibility::Hidden);
    actions.set_visibility(AssetKind::Did, "did".into(), Visibility::Visible);
    assert_eq!(actions.visibility(AssetKind::Did, "did"), Visibility::Visible);
}
