use std::collections::HashMap;

use dealer::dealer::{_create_test_level_cards, deal_cards, get_count_for_level, get_user_cards, LeveledCard};

fn card(id: &str, lvl: usize) -> LeveledCard {
    LeveledCard { id: id.to_owned(), lvl }
}

#[test]
fn number_of_cards_returned_matches_input() {
    let max: usize = 15;
    let (cards, _) = _create_test_level_cards(max * 3);
    assert_eq!(cards.len(), 3 * max);
    let out = get_user_cards(cards, max);
    assert_eq!(out.len(), max);
}

#[test]
fn correct_number_of_cards_per_category() {
    let max: usize = 15;
    let (cards, level_map) = _create_test_level_cards(max * 3);
    assert_eq!(cards.len(), 3 * max);
    let out = get_user_cards(cards, max);

    let mut count_per_level: HashMap<usize, usize> = HashMap::new();
    for id in out.iter() {
        let count = count_per_level.entry(level_map.get(id).unwrap().clone()).or_insert(0);
        *count += 1;
    }
    for level in 1..=5 {
        assert_eq!(get_count_for_level(max, level) <= *count_per_level.get(&level).unwrap(), true)
    }
    assert_eq!(out.len().clone(), max);
}

#[test]
fn all_cards_are_returned_if_less_than_requested() {
    let max: usize = 20;
    let actual: usize = 15;
    let (cards, _) = _create_test_level_cards(actual);
    let out = get_user_cards(cards, max);
    assert_eq!(out.len(), actual)
}

#[test]
fn quota_matches_the_percentage_table() {
    assert_eq!(get_count_for_level(15, 1), 6);
    assert_eq!(get_count_for_level(15, 2), 3);
    assert_eq!(get_count_for_level(15, 3), 2);
    assert_eq!(get_count_for_level(15, 4), 2);
    assert_eq!(get_count_for_level(15, 5), 1);
    // the quotas sum to 14; the backfill pass supplies the fifteenth card
    assert_eq!(get_count_for_level(15, 0), 0);
    assert_eq!(get_count_for_level(15, 6), 0);
    assert_eq!(get_count_for_level(0, 1), 0);
}

#[test]
fn an_even_pool_is_drained_quota_first_then_backfilled_from_level_five() {
    // 45 cards, 9 per level, 15 requested: each level yields its quota in
    // ascending level order (6+3+2+2+1 = 14), then the backfill pass takes
    // the fifteenth card from level 5's remainder.
    let (cards, _) = _create_test_level_cards(45);
    let out = get_user_cards(cards, 15);
    let expected: Vec<String> = [
        0, 5, 10, 15, 20, 25, // level 1's quota of six
        1, 6, 11, // level 2's quota of three
        2, 7, // level 3's quota of two
        3, 8, // level 4's quota of two
        4, // level 5's quota of one
        9, // the backfill card, again from level 5
    ]
    .iter()
    .map(|i| i.to_string())
    .collect();
    assert_eq!(out, expected);
}

#[test]
fn cards_with_levels_outside_the_five_buckets_are_dropped() {
    let cards = vec![card("a", 0), card("b", 7), card("c", 2)];
    let out = get_user_cards(cards, 3);
    assert_eq!(out, vec!["c".to_owned()]);
}

#[test]
fn empty_pool_and_zero_request_give_empty_output() {
    let out = get_user_cards(vec![], 10);
    assert!(out.is_empty());
    let (cards, _) = _create_test_level_cards(10);
    let out = get_user_cards(cards, 0);
    assert!(out.is_empty());
}

#[test]
fn single_level_pool_is_served_from_that_level() {
    // 20 level-5 cards, 10 requested: the level-5 quota supplies one card and
    // the backfill pass drains nine more, all in their original order.
    let mut cards = Vec::new();
    for i in 0..20 {
        cards.push(card(&i.to_string(), 5));
    }
    let out = get_user_cards(cards, 10);
    let expected: Vec<String> = (0..10).map(|i| i.to_string()).collect();
    assert_eq!(out, expected);
}

#[test]
fn low_level_pool_is_padded_from_its_own_remainder() {
    // 20 level-1 cards, 10 requested: the level-1 quota takes four, the
    // backfill pass the next six.
    let mut cards = Vec::new();
    for i in 0..20 {
        cards.push(card(&i.to_string(), 1));
    }
    let out = get_user_cards(cards, 10);
    let expected: Vec<String> = (0..10).map(|i| i.to_string()).collect();
    assert_eq!(out, expected);
}

#[test]
fn shortfall_is_carried_into_the_next_level() {
    // Level 1 holds one card against a quota of four, so three slots carry
    // over: level 2 yields its quota of two plus those three, and the
    // backfill pass drains four more level-2 cards to reach ten.
    let mut cards = vec![card("a", 1)];
    for i in 0..10 {
        cards.push(card(&format!("b{}", i), 2));
    }
    let out = get_user_cards(cards, 10);
    let expected: Vec<String> = vec![
        "a".to_owned(),
        "b0".to_owned(),
        "b1".to_owned(),
        "b2".to_owned(),
        "b3".to_owned(),
        "b4".to_owned(),
        "b5".to_owned(),
        "b6".to_owned(),
        "b7".to_owned(),
        "b8".to_owned(),
    ];
    assert_eq!(out, expected);
}

#[test]
fn deal_returns_small_pools_in_the_order_given() {
    let cards = vec![
        card("x", 5),
        card("y", 1),
        card("z", 3),
        card("w", 5),
        card("v", 2),
    ];
    let out = deal_cards(cards, 20);
    let expected: Vec<String> =
        vec!["x".to_owned(), "y".to_owned(), "z".to_owned(), "w".to_owned(), "v".to_owned()];
    assert_eq!(out, expected);
}

#[test]
fn deal_allocates_when_the_pool_exceeds_the_request() {
    let (cards, _) = _create_test_level_cards(45);
    let out = deal_cards(cards, 15);
    assert_eq!(out.len(), 15);
}
