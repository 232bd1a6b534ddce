use backend::war::{
    at_war_lookup_needed, characters_at_war, collect_entities_from_war, row_is_at_war,
    CharacterAffiliation, WarCache, WarDetail, WarEntity,
};
use std::collections::HashSet;

fn set(ids: &[i64]) -> HashSet<i64> {
    ids.iter().copied().collect()
}

fn cache(corps: &[i64], alliances: &[i64]) -> WarCache {
    let mut c = WarCache::new();
    c.replace(set(corps), set(alliances));
    c
}

#[test]
fn new_cache_is_empty() {
    let c = WarCache::new();
    assert!(c.corporations.is_empty());
    assert!(c.alliances.is_empty());
    assert!(c.is_empty());
    assert!(!c.is_at_war(Some(1), Some(2)));
    let d = WarCache::default();
    assert!(d.is_empty());
}

#[test]
fn contains_checks_the_right_set() {
    let c = cache(&[10, 11], &[99]);
    assert!(c.contains_corporation(10));
    assert!(c.contains_corporation(11));
    assert!(!c.contains_corporation(99));
    assert!(c.contains_alliance(99));
    assert!(!c.contains_alliance(10));
}

#[test]
fn at_war_by_corporation_or_alliance() {
    let c = cache(&[10], &[99]);
    assert!(c.is_at_war(Some(10), None));
    assert!(c.is_at_war(Some(10), Some(5)));
    assert!(c.is_at_war(Some(7), Some(99)));
    assert!(c.is_at_war(None, Some(99)));
    assert!(!c.is_at_war(Some(7), Some(5)));
    assert!(!c.is_at_war(None, None));
    assert!(!c.is_at_war(Some(99), Some(10)));
}

#[test]
fn replace_swaps_both_sets() {
    let mut c = cache(&[1], &[2]);
    c.replace(set(&[3]), set(&[]));
    assert!(!c.contains_corporation(1));
    assert!(c.contains_corporation(3));
    assert!(!c.contains_alliance(2));
    assert!(!c.is_empty());
    c.replace(set(&[]), set(&[]));
    assert!(c.is_empty());
}

fn entity(c: Option<i64>, a: Option<i64>) -> WarEntity {
    WarEntity { corporation_id: c, alliance_id: a }
}

#[test]
fn collects_every_side_of_a_war() {
    let war = WarDetail {
        id: 7,
        aggressor: entity(Some(1), None),
        defender: entity(Some(2), Some(20)),
        allies: vec![entity(None, Some(30)), entity(Some(1), Some(20)), entity(None, None)],
        finished: None,
    };
    let (corps, alliances) = collect_entities_from_war(&war);
    assert_eq!(corps, set(&[1, 2]));
    assert_eq!(alliances, set(&[20, 30]));
}

#[test]
fn collects_from_a_war_without_allies() {
    let war = WarDetail {
        id: 8,
        aggressor: entity(None, Some(5)),
        defender: entity(Some(6), None),
        allies: vec![],
        finished: Some("2024-01-01T00:00:00Z".to_string()),
    };
    let (corps, alliances) = collect_entities_from_war(&war);
    assert_eq!(corps, set(&[6]));
    assert_eq!(alliances, set(&[5]));
}

#[test]
fn war_sides_are_at_war_once_cached() {
    let war = WarDetail {
        id: 9,
        aggressor: entity(Some(100), Some(200)),
        defender: entity(Some(101), None),
        allies: vec![entity(None, Some(300))],
        finished: None,
    };
    let (corps, alliances) = collect_entities_from_war(&war);
    let mut c = WarCache::new();
    c.replace(corps, alliances);
    assert!(c.is_at_war(Some(100), Some(200)));
    assert!(c.is_at_war(Some(101), None));
    assert!(c.is_at_war(Some(555), Some(300)));
    assert!(!c.is_at_war(Some(555), Some(556)));
}

fn row(c: Option<i64>, a: Option<i64>) -> Option<CharacterAffiliation> {
    Some(CharacterAffiliation { corporation_id: c, alliance_id: a })
}

#[test]
fn row_at_war_needs_a_row() {
    let c = cache(&[10], &[99]);
    assert!(!row_is_at_war(&c, &None));
    assert!(row_is_at_war(&c, &row(Some(10), None)));
    assert!(row_is_at_war(&c, &row(Some(1), Some(99))));
    assert!(!row_is_at_war(&c, &row(Some(1), Some(2))));
    assert!(!row_is_at_war(&c, &row(None, None)));
}

#[test]
fn lookup_needed_only_with_ids_and_wars() {
    let c = cache(&[10], &[]);
    assert!(at_war_lookup_needed(&c, &[1, 2]));
    assert!(!at_war_lookup_needed(&c, &[]));
    let empty = WarCache::new();
    assert!(!at_war_lookup_needed(&empty, &[1, 2]));
    let only_alliances = cache(&[], &[4]);
    assert!(at_war_lookup_needed(&only_alliances, &[1]));
}

#[test]
fn characters_at_war_picks_rows_at_war() {
    let c = cache(&[10], &[99]);
    let lookups = vec![
        (1, row(Some(10), None)),
        (2, row(Some(11), Some(99))),
        (3, row(Some(11), Some(98))),
        (4, None),
        (5, row(None, None)),
    ];
    assert_eq!(characters_at_war(&c, &lookups), set(&[1, 2]));
    assert_eq!(characters_at_war(&c, &vec![]), set(&[]));
    assert_eq!(characters_at_war(&WarCache::new(), &lookups), set(&[]));
}

#[test]
fn clone_keeps_both_sets() {
    let c = cache(&[10, 11], &[99]);
    let d = c.clone();
    assert_eq!(d.corporations, set(&[10, 11]));
    assert_eq!(d.alliances, set(&[99]));
    assert_eq!(WarCache::new().clone().corporations, set(&[]));
}

#[test]
fn collected_sets_ignore_side_order() {
    let war = WarDetail {
        id: 1,
        aggressor: entity(Some(1), Some(10)),
        defender: entity(Some(2), None),
        allies: vec![entity(Some(3), None), entity(None, Some(30))],
        finished: None,
    };
    let swapped = WarDetail {
        id: 1,
        aggressor: entity(Some(2), None),
        defender: entity(Some(1), Some(10)),
        allies: vec![entity(None, Some(30)), entity(Some(3), None)],
        finished: None,
    };
    assert_eq!(collect_entities_from_war(&war), collect_entities_from_war(&swapped));
}
