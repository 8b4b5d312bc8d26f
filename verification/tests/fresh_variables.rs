use linked_data_sparql::{FreshVariables, Variable};
use std::collections::HashSet;

#[test]
fn first_names_are_prefix_and_count() {
    let mut fresh = FreshVariables::new();
    assert_eq!(fresh.next().as_str(), "fresh_0");
    assert_eq!(fresh.next().as_str(), "fresh_1");
    for _ in 2..10 {
        fresh.next();
    }
    assert_eq!(fresh.next().as_str(), "fresh_10");
    for _ in 11..1234 {
        fresh.next();
    }
    assert_eq!(fresh.next().as_str(), "fresh_1234");
}

#[test]
fn hundred_thousand_names_are_distinct() {
    let mut fresh = FreshVariables::new();
    let mut seen: HashSet<String> = HashSet::new();
    for _ in 0..100_000 {
        let name = fresh.next().as_str().to_string();
        assert!(seen.insert(name));
    }
    assert_eq!(seen.len(), 100_000);
}

#[test]
fn remaining_counts_down() {
    let mut fresh = FreshVariables::new();
    assert_eq!(fresh.remaining(), u64::MAX);
    fresh.next();
    fresh.next();
    assert_eq!(fresh.remaining(), u64::MAX - 2);
}

#[test]
fn try_next_gives_the_same_names_as_next() {
    let mut a = FreshVariables::new();
    let mut b = FreshVariables::new();
    for _ in 0..25 {
        let x = a.next();
        let y = b.try_next().unwrap();
        assert_eq!(x.as_str(), y.as_str());
    }
    assert_eq!(a.remaining(), b.remaining());
}

#[test]
fn caller_names_cannot_be_reserved() {
    assert!(Variable::new("fresh_0".to_string()).is_none());
    assert!(Variable::new("fresh_".to_string()).is_none());
    assert!(Variable::new("fresh_anything".to_string()).is_none());
    assert_eq!(Variable::new("fresh".to_string()).unwrap().as_str(), "fresh");
    assert_eq!(Variable::new("b".to_string()).unwrap().as_str(), "b");
    assert_eq!(Variable::new("".to_string()).unwrap().as_str(), "");
    assert_eq!(Variable::new("xfresh_0".to_string()).unwrap().as_str(), "xfresh_0");
}

#[test]
fn minted_names_differ_from_caller_names() {
    let mut fresh = FreshVariables::new();
    for _ in 0..100 {
        let minted = fresh.next();
        assert!(Variable::new(minted.as_str().to_string()).is_none());
    }
}

#[test]
fn starts_with_compares_by_character() {
    assert!(linked_data_sparql::term::starts_with("héllo", "hé"));
    assert!(linked_data_sparql::term::starts_with("abc", ""));
    assert!(linked_data_sparql::term::starts_with("abc", "abc"));
    assert!(!linked_data_sparql::term::starts_with("ab", "abc"));
    assert!(!linked_data_sparql::term::starts_with("abd", "abc"));
}
