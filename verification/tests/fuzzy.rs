use himalaya_repl::chars::chars_of;
use himalaya_repl::fuzzy::{score, score_str, RUN_BONUS};

#[test]
fn run_bonus_value() {
    assert_eq!(RUN_BONUS, 16);
}

#[test]
fn empty_pattern_matches_everything_with_score_zero() {
    assert_eq!(score_str("", ""), Some(0));
    assert_eq!(score_str("", "account"), Some(0));
    assert_eq!(score_str("", "x"), Some(0));
}

#[test]
fn contiguous_prefix_scores_a_bonus_for_each_neighbour() {
    assert_eq!(score_str("a", "account"), Some(0));
    assert_eq!(score_str("ac", "account"), Some(16));
    assert_eq!(score_str("acc", "account"), Some(32));
    assert_eq!(score_str("account", "account"), Some(96));
}

#[test]
fn a_later_start_costs_one_per_position() {
    assert_eq!(score_str("e", "delete"), Some(-1));
    assert_eq!(score_str("st", "list"), Some(14));
    assert_eq!(score_str("re", "thread"), Some(14));
    assert_eq!(score_str("d", "thread"), Some(-5));
}

#[test]
fn scattered_characters_earn_no_bonus() {
    assert_eq!(score_str("lt", "list"), Some(0));
    assert_eq!(score_str("ct", "account"), Some(-1));
    assert_eq!(score_str("re", "write"), Some(-1));
    assert_eq!(score_str("mg", "message"), Some(0));
}

#[test]
fn the_leftmost_placement_is_scored() {
    assert_eq!(score_str("ab", "a_ab"), Some(0));
    assert_eq!(score_str("ab", "xabab"), Some(15));
    assert_eq!(score_str("aba", "abxa"), Some(16));
}

#[test]
fn matching_ignores_ascii_case() {
    assert_eq!(score_str("ACC", "account"), Some(32));
    assert_eq!(score_str("acc", "ACCOUNT"), Some(32));
    assert_eq!(score_str("aCc", "AcCount"), Some(32));
    assert_eq!(score_str("é", "É"), None);
    assert_eq!(score_str("é", "é"), Some(0));
}

#[test]
fn non_subsequences_are_discarded() {
    assert_eq!(score_str("xyz", "account"), None);
    assert_eq!(score_str("ca", "account"), None);
    assert_eq!(score_str("accountt", "account"), None);
    assert_eq!(score_str("a", ""), None);
    assert_eq!(score_str("tt", "account"), None);
    assert_eq!(score_str("m", "read"), None);
}

#[test]
fn score_on_characters_agrees_with_score_on_strings() {
    for (pattern, name) in
        [("acc", "account"), ("", "list"), ("zz", "list"), ("St", "liST"), ("日", "今日")].iter()
    {
        assert_eq!(score(&chars_of(pattern), &chars_of(name)), score_str(pattern, name));
    }
    assert_eq!(score_str("日", "今日"), Some(-1));
}
