use std::collections::BTreeMap;

use cfgrammar::Cfg;
use cfgrammar::Rule;
use cfgrammar::NO_START;

fn table(entries: Vec<(u64, Vec<Rule>)>) -> BTreeMap<u64, Vec<Rule>> {
    let mut rules = BTreeMap::new();
    for (variable, alternatives) in entries {
        rules.insert(variable, alternatives);
    }
    rules
}

fn names(entries: Vec<(u64, &str)>) -> BTreeMap<u64, String> {
    let mut symbol_map = BTreeMap::new();
    for (symbol, name) in entries {
        symbol_map.insert(symbol, name.to_string());
    }
    symbol_map
}

#[test]
fn new_grammar_is_empty() {
    let cfg = Cfg::new(2);
    assert_eq!(cfg.get_start(), NO_START);
    assert_eq!(cfg.get_start(), 0);
    assert!(!cfg.is_variable(cfg.get_start()));
    for symbol in 0..10u64 {
        assert_eq!(cfg.name(symbol), None);
    }
    for variable in 3..10u64 {
        assert!(cfg.get_rules(variable).is_none());
    }
}

#[test]
fn new_grammar_has_no_start_variable_under_any_threshold() {
    for last_token in [0u64, 1, 7, u64::MAX - 1, u64::MAX] {
        let cfg = Cfg::new(last_token);
        assert!(cfg.is_token(cfg.get_start()));
    }
}

#[test]
fn threshold_splits_tokens_from_variables() {
    let cfg = Cfg::new(5);
    for symbol in 0..=5u64 {
        assert!(cfg.is_token(symbol));
        assert!(!cfg.is_variable(symbol));
    }
    for symbol in [6u64, 7, 100, u64::MAX] {
        assert!(!cfg.is_token(symbol));
        assert!(cfg.is_variable(symbol));
    }
}

#[test]
fn threshold_zero_has_one_token() {
    let cfg = Cfg::new(0);
    assert!(cfg.is_token(0));
    assert!(cfg.is_variable(1));
    assert!(cfg.is_variable(u64::MAX));
}

#[test]
fn largest_threshold_leaves_no_variable() {
    let cfg = Cfg::new(u64::MAX);
    assert!(cfg.is_token(0));
    assert!(cfg.is_token(u64::MAX));
    assert!(!cfg.is_variable(u64::MAX));
}

#[test]
fn threshold_does_not_move() {
    let mut cfg = Cfg::new(3);
    cfg.add_rule(4, vec![0, 9]);
    cfg.add_rule(9, vec![]);
    cfg.set_name(2, "two".to_string());
    cfg.set_name(9, "nine".to_string());
    for symbol in 0..=3u64 {
        assert!(cfg.is_token(symbol));
    }
    for symbol in 4..12u64 {
        assert!(cfg.is_variable(symbol));
    }
}

#[test]
fn from_pieces_rejects_token_as_start() {
    for start in [0u64, 1, 2] {
        let rules = table(vec![(3, vec![vec![0, 4]]), (4, vec![vec![1]])]);
        assert!(Cfg::from_pieces(rules, BTreeMap::new(), start, 2).is_none());
    }
}

#[test]
fn from_pieces_rejects_token_as_start_with_empty_table() {
    assert!(Cfg::from_pieces(BTreeMap::new(), BTreeMap::new(), 7, 7).is_none());
    assert!(Cfg::from_pieces(BTreeMap::new(), BTreeMap::new(), 0, 0).is_none());
}

#[test]
fn from_pieces_rejects_every_start_under_largest_threshold() {
    for start in [0u64, 5, u64::MAX] {
        let rules = table(vec![(3, vec![vec![0]])]);
        assert!(Cfg::from_pieces(rules, BTreeMap::new(), start, u64::MAX).is_none());
    }
}

#[test]
fn from_pieces_rejects_dangling_variable() {
    let rules = table(vec![(3, vec![vec![4]])]);
    assert!(Cfg::from_pieces(rules, BTreeMap::new(), 3, 2).is_none());
}

#[test]
fn from_pieces_rejects_dangling_variable_whatever_the_start() {
    for start in [0u64, 2, 3, 4, 5, 100] {
        let rules = table(vec![(3, vec![vec![0, 5]]), (4, vec![vec![1]])]);
        assert!(Cfg::from_pieces(rules, BTreeMap::new(), start, 2).is_none());
    }
}

#[test]
fn from_pieces_finds_dangling_variable_anywhere() {
    let rules = table(
        vec![
            (3, vec![vec![0], vec![1, 4]]),
            (4, vec![vec![], vec![3, 3], vec![0, 1, 2, 9]]),
        ],
    );
    assert!(Cfg::from_pieces(rules, BTreeMap::new(), 3, 2).is_none());
}

#[test]
fn from_pieces_accepts_start_without_rules() {
    let rules = table(vec![(3, vec![vec![0]])]);
    let cfg = Cfg::from_pieces(rules, BTreeMap::new(), 4, 2).expect("no rule dangles");
    assert_eq!(cfg.get_start(), 4);
    assert!(cfg.get_rules(4).is_none());
}

#[test]
fn from_pieces_rejects_start_that_dangles_in_a_rule() {
    let rules = table(vec![(3, vec![vec![4]])]);
    assert!(Cfg::from_pieces(rules, BTreeMap::new(), 4, 2).is_none());
}

#[test]
fn from_pieces_accepts_closed_grammar() {
    let rules = table(vec![(3, vec![vec![0, 4], vec![1]]), (4, vec![vec![3, 2], vec![]])]);
    let cfg = Cfg::from_pieces(rules, BTreeMap::new(), 3, 2).expect("closed grammar");
    assert_eq!(cfg.get_start(), 3);
    let of_three: &[Rule] = &[vec![0, 4], vec![1]];
    let of_four: &[Rule] = &[vec![3, 2], vec![]];
    assert_eq!(cfg.get_rules(3), Some(of_three));
    assert_eq!(cfg.get_rules(4), Some(of_four));
    assert!(cfg.get_rules(5).is_none());
    assert!(cfg.is_token(2));
    assert!(cfg.is_variable(3));
}

#[test]
fn from_pieces_accepts_rule_that_mentions_its_own_variable() {
    let rules = table(vec![(1, vec![vec![1, 0], vec![0]])]);
    let cfg = Cfg::from_pieces(rules, BTreeMap::new(), 1, 0).expect("closed grammar");
    assert_eq!(cfg.get_start(), 1);
}

#[test]
fn from_pieces_accepts_empty_table() {
    let cfg = Cfg::from_pieces(BTreeMap::new(), BTreeMap::new(), 8, 7).expect("no rule dangles");
    assert_eq!(cfg.get_start(), 8);
    assert!(cfg.get_rules(8).is_none());
}

#[test]
fn from_pieces_keeps_names() {
    let rules = table(vec![(3, vec![vec![0]])]);
    let symbol_map = names(vec![(0, "zero"), (3, "S"), (40, "unused")]);
    let cfg = Cfg::from_pieces(rules, symbol_map, 3, 2).expect("closed grammar");
    assert_eq!(cfg.name(0), Some("zero"));
    assert_eq!(cfg.name(3), Some("S"));
    assert_eq!(cfg.name(40), Some("unused"));
    assert_eq!(cfg.name(1), None);
}

#[test]
fn from_pieces_takes_the_table_as_it_is() {
    let rules = table(vec![(1, vec![vec![0]]), (3, vec![])]);
    let cfg = Cfg::from_pieces(rules, BTreeMap::new(), 3, 2).expect("no rule dangles");
    let none: &[Rule] = &[];
    assert_eq!(cfg.get_rules(3), Some(none));
}

#[test]
fn from_pieces_grammar_can_grow() {
    let rules = table(vec![(3, vec![vec![0]])]);
    let mut cfg = Cfg::from_pieces(rules, BTreeMap::new(), 3, 2).expect("closed grammar");
    cfg.add_rule(3, vec![1, 3]);
    cfg.add_rule(4, vec![2]);
    let of_three: &[Rule] = &[vec![0], vec![1, 3]];
    let of_four: &[Rule] = &[vec![2]];
    assert_eq!(cfg.get_rules(3), Some(of_three));
    assert_eq!(cfg.get_rules(4), Some(of_four));
    assert_eq!(cfg.get_start(), 3);
}

#[test]
fn add_rule_appends_in_order() {
    let mut cfg = Cfg::new(0);
    cfg.add_rule(1, vec![0]);
    cfg.add_rule(1, vec![0, 0]);
    let expected: &[Rule] = &[vec![0], vec![0, 0]];
    assert_eq!(cfg.get_rules(1), Some(expected));
}

#[test]
fn add_rule_neither_sorts_nor_merges() {
    let mut cfg = Cfg::new(0);
    cfg.add_rule(1, vec![0, 0]);
    cfg.add_rule(1, vec![0]);
    cfg.add_rule(1, vec![0, 0]);
    let expected: &[Rule] = &[vec![0, 0], vec![0], vec![0, 0]];
    assert_eq!(cfg.get_rules(1), Some(expected));
}

#[test]
fn add_rule_leaves_other_variables_alone() {
    let mut cfg = Cfg::new(1);
    cfg.add_rule(2, vec![0]);
    cfg.add_rule(5, vec![1, 2]);
    cfg.add_rule(2, vec![5]);
    let of_two: &[Rule] = &[vec![0], vec![5]];
    let of_five: &[Rule] = &[vec![1, 2]];
    assert_eq!(cfg.get_rules(2), Some(of_two));
    assert_eq!(cfg.get_rules(5), Some(of_five));
    assert!(cfg.get_rules(3).is_none());
    assert_eq!(cfg.get_start(), NO_START);
    assert_eq!(cfg.name(2), None);
}

#[test]
fn add_rule_asks_nothing_of_the_body() {
    let mut cfg = Cfg::new(1);
    cfg.add_rule(2, vec![9, 0, 7]);
    let expected: &[Rule] = &[vec![9, 0, 7]];
    assert_eq!(cfg.get_rules(2), Some(expected));
    assert!(cfg.get_rules(9).is_none());
}

#[test]
fn add_rule_takes_the_largest_variable() {
    let mut cfg = Cfg::new(u64::MAX - 1);
    cfg.add_rule(u64::MAX, vec![0]);
    let expected: &[Rule] = &[vec![0]];
    assert_eq!(cfg.get_rules(u64::MAX), Some(expected));
}

#[test]
fn empty_body_is_a_rule() {
    let mut cfg = Cfg::new(0);
    assert!(cfg.get_rules(1).is_none());
    cfg.add_rule(1, vec![]);
    let expected: &[Rule] = &[vec![]];
    assert_eq!(cfg.get_rules(1), Some(expected));
    assert_eq!(cfg.get_rules(1).map(|alternatives| alternatives.len()), Some(1));
    assert!(cfg.get_rules(2).is_none());
}

#[test]
fn set_name_replaces() {
    let mut cfg = Cfg::new(0);
    assert_eq!(cfg.set_name(5, "A".to_string()), None);
    assert_eq!(cfg.set_name(5, "B".to_string()), Some("A".to_string()));
    assert_eq!(cfg.name(5), Some("B"));
}

#[test]
fn set_name_names_tokens_and_variables() {
    let mut cfg = Cfg::new(3);
    assert_eq!(cfg.set_name(0, "plus".to_string()), None);
    assert_eq!(cfg.set_name(3, "minus".to_string()), None);
    assert_eq!(cfg.set_name(4, "Expr".to_string()), None);
    assert_eq!(cfg.name(0), Some("plus"));
    assert_eq!(cfg.name(3), Some("minus"));
    assert_eq!(cfg.name(4), Some("Expr"));
    assert_eq!(cfg.name(1), None);
    assert!(cfg.get_rules(4).is_none());
}

#[test]
fn set_name_leaves_rules_and_start_alone() {
    let mut cfg = Cfg::new(0);
    cfg.add_rule(1, vec![0]);
    cfg.set_name(1, "S".to_string());
    cfg.set_name(1, "".to_string());
    let expected: &[Rule] = &[vec![0]];
    assert_eq!(cfg.get_rules(1), Some(expected));
    assert_eq!(cfg.get_start(), NO_START);
    assert_eq!(cfg.name(1), Some(""));
}

#[test]
fn undefined_symbols_have_neither_name_nor_rules() {
    let mut cfg = Cfg::new(2);
    cfg.add_rule(3, vec![4]);
    cfg.set_name(5, "five".to_string());
    assert_eq!(cfg.name(3), None);
    assert_eq!(cfg.name(4), None);
    assert_eq!(cfg.name(0), None);
    assert!(cfg.get_rules(4).is_none());
    assert!(cfg.get_rules(5).is_none());
    assert!(cfg.get_rules(u64::MAX).is_none());
}
