//! The hint index.

use dig_wallet_backend::engine::hints::HintIndex;
use dig_wallet_backend::types::Hint;

fn memo1() -> Hint {
    Hint::new(&"11".repeat(32))
}

fn memo2() -> Hint {
    Hint::new(&"22".repeat(32))
}

fn other() -> Hint {
    Hint::new(&"99".repeat(32))
}

fn populated() -> HintIndex {
    let mut index = HintIndex::new();
    index.index("both".into(), vec![memo1(), memo2()]);
    index.index("first_only".into(), vec![memo1(), other()]);
    index.index("second_only".into(), vec![other(), memo2()]);
    index
}

#[test]
fn memo1_query_finds_every_coin_carrying_it() {
    assert_eq!(populated().coins_by_hint(&memo1()), vec!["both", "first_only"]);
}

#[test]
fn memo2_query_finds_a_coin_that_carries_it_in_second_position() {
    assert_eq!(populated().coins_by_hint(&memo2()), vec!["both", "second_only"]);
}

#[test]
fn combined_query_is_the_intersection_not_the_union() {
    assert_eq!(populated().coins_by_all_hints(&[memo1(), memo2()]), vec!["both"]);
}

#[test]
fn any_hint_query_is_the_union() {
    assert_eq!(
        populated().coins_by_any_hint(&[memo1(), memo2()]),
        vec!["both", "first_only", "second_only"]
    );
}

#[test]
fn combined_query_with_an_unknown_hint_matches_nothing() {
    assert!(populated()
        .coins_by_all_hints(&[memo1(), Hint::new(&"ff".repeat(32))])
        .is_empty());
}

#[test]
fn combined_query_with_no_hints_matches_nothing() {
    assert!(populated().coins_by_all_hints(&[]).is_empty());
}

#[test]
fn hints_for_reports_both_memos_of_a_dual_hinted_coin() {
    assert_eq!(populated().hints_for("both"), vec![memo1(), memo2()]);
}

#[test]
fn indexing_again_widens_rather_than_replaces() {
    let mut index = HintIndex::new();
    index.index("c".into(), vec![memo1()]);
    index.index("c".into(), vec![memo2()]);
    assert_eq!(index.hints_for("c"), vec![memo1(), memo2()]);
    assert_eq!(index.coins_by_all_hints(&[memo1(), memo2()]), vec!["c"]);
}

#[test]
fn forget_withdraws_a_coin_from_every_bucket() {
    let mut index = populated();
    index.forget("both");
    assert_eq!(index.coins_by_hint(&memo1()), vec!["first_only"]);
    assert_eq!(index.coins_by_hint(&memo2()), vec!["second_only"]);
    assert!(index.coins_by_all_hints(&[memo1(), memo2()]).is_empty());
    assert!(index.hints_for("both").is_empty());
    assert_eq!(index.len(), 2);
}

#[test]
fn forget_drops_an_emptied_bucket_entirely() {
    let mut index = HintIndex::new();
    index.index("only".into(), vec![memo1()]);
    index.forget("only");
    assert!(index.is_empty());
    assert!(index.coins_by_hint(&memo1()).is_empty());
}

#[test]
fn forgetting_an_unknown_coin_is_a_no_op() {
    let mut index = populated();
    index.forget("nope");
    assert_eq!(index.len(), 3);
}

#[test]
fn the_order_of_a_coins_hints_does_not_matter() {
    let mut swapped = HintIndex::new();
    swapped.index("both".into(), vec![memo2(), memo1()]);
    let mut straight = HintIndex::new();
    straight.index("both".into(), vec![memo1(), memo2()]);
    for hint in [memo1(), memo2()] {
        assert_eq!(swapped.coins_by_hint(&hint), straight.coins_by_hint(&hint));
    }
    assert_eq!(swapped.hints_for("both"), straight.hints_for("both"));
}

#[test]
fn any_of_no_hints_matches_nothing() {
    assert!(populated().coins_by_any_hint(&[]).is_empty());
}

#[test]
fn equal_indexes_say_the_same() {
    let mut one = HintIndex::default();
    one.index("a".into(), vec![memo1(), memo2()]);
    one.index("b".into(), vec![other()]);
    let mut two = HintIndex::new();
    two.index("b".into(), vec![other()]);
    two.index("a".into(), vec![memo2()]);
    assert_ne!(one, two);
    two.index("a".into(), vec![memo1()]);
    assert_eq!(one, two);
    let snapshot = one.clone();
    assert_eq!(snapshot, two);
    two.forget("b");
    assert_eq!(snapshot, one);
    assert_ne!(one, two);
    assert_eq!(two.len(), 1);
}
