use tuisage::highlight::{build_highlighted_text, highlight_segments, ItemContext};
use tuisage::matching::{
    compute_match_scores, find_adjacent_match, find_first_match, fuzzy_match, fuzzy_match_indices, fuzzy_match_score,
    item_match_state, FilterableItem, MatchScores, ScoreTable,
};

#[test]
fn test_fuzzy_match() {
    assert!(fuzzy_match("config", "cfg"));
    assert!(fuzzy_match("config", "con"));
    assert!(fuzzy_match("config", "config"));
    assert!(!fuzzy_match("config", "xyz"));
    assert!(fuzzy_match("deploy", "dpl"));
    assert!(!fuzzy_match("deploy", "dpx"));
    assert!(fuzzy_match("hello world", "hwd"));
}

#[test]
fn test_fuzzy_match_with_pattern_indices() {
    let (score, indices) = fuzzy_match_indices("config", "cfg");
    assert!(score > 0, "Should match 'cfg' in 'config'");
    assert_eq!(indices, vec![0, 3, 5], "Should match c, f, g");

    let (score, indices) = fuzzy_match_indices("foo bar baz", "foo baz");
    assert!(score > 0, "Should match multi-word pattern");
    assert!(indices.contains(&0));
    assert!(indices.len() >= 6);

    let (score, indices) = fuzzy_match_indices("config", "xyz");
    assert_eq!(score, 0, "Should not match 'xyz'");
    assert!(indices.is_empty(), "No indices for non-match");

    let (score, indices) = fuzzy_match_indices("MyConfig", "myconf");
    assert!(score > 0, "Should match case-insensitively");
    assert_eq!(indices.len(), 6, "Should match all 6 characters");
}

#[test]
fn test_fuzzy_match_score_empty_pattern_and_miss() {
    assert_eq!(fuzzy_match_score("config", "xyz"), 0);
    assert!(fuzzy_match_score("config", "cfg") > 0);
    assert!(fuzzy_match_score("Config", "config") > 0);
}

#[test]
fn test_fuzzy_match_empty_pattern_matches() {
    assert!(fuzzy_match("anything", ""));
    assert!(!fuzzy_match("", "a"));
}

#[test]
fn test_match_scores_overall_is_best_field() {
    assert_eq!(MatchScores { name_score: 3, help_score: 7 }.overall(), 7);
    assert_eq!(MatchScores { name_score: 9, help_score: 2 }.overall(), 9);
    assert_eq!(MatchScores { name_score: 0, help_score: 0 }.overall(), 0);
}

fn item(key: &str, names: &[&str], help: Option<&str>) -> FilterableItem {
    FilterableItem {
        key: key.to_string(),
        name_texts: names.iter().map(|s| s.to_string()).collect(),
        help: help.map(|h| h.to_string()),
    }
}

#[test]
fn test_compute_match_scores_name_and_help() {
    let items = vec![
        item("verbose", &["verbose", "--verbose", "-v"], Some("Print more output")),
        item("quiet", &["quiet", "--quiet"], Some("Print nothing")),
    ];
    let table = compute_match_scores(&items, "verb");
    let v = table.get("verbose").unwrap();
    assert!(v.name_score > 0);
    let q = table.get("quiet").unwrap();
    assert_eq!(q.name_score, 0);
    let table = compute_match_scores(&items, "nothing");
    assert!(table.get("quiet").unwrap().help_score > 0);
    assert_eq!(table.get("verbose").unwrap().help_score, 0);
    assert!(table.get("missing").is_none());
}

fn table_of(entries: &[(&str, u32)]) -> ScoreTable {
    let mut t = ScoreTable::new();
    for (k, s) in entries {
        t.insert(k.to_string(), MatchScores { name_score: *s, help_score: 0 });
    }
    t
}

#[test]
fn test_find_adjacent_match_wraps() {
    let keys: Vec<String> = ["a", "b", "c", "d"].iter().map(|s| s.to_string()).collect();
    let scores = table_of(&[("a", 5), ("b", 0), ("c", 0), ("d", 4)]);
    assert_eq!(find_adjacent_match(&keys, &scores, 0, true), Some(3));
    assert_eq!(find_adjacent_match(&keys, &scores, 3, true), Some(0));
    assert_eq!(find_adjacent_match(&keys, &scores, 0, false), Some(3));
    assert_eq!(find_adjacent_match(&keys, &scores, 3, false), Some(0));
    let none = table_of(&[("a", 0), ("b", 0)]);
    assert_eq!(find_adjacent_match(&keys, &none, 1, true), None);
}

#[test]
fn test_find_first_match_keeps_current_when_matching() {
    let keys: Vec<String> = ["a", "b", "c"].iter().map(|s| s.to_string()).collect();
    let scores = table_of(&[("a", 0), ("b", 2), ("c", 3)]);
    assert_eq!(find_first_match(&keys, &scores, 2), Some(2));
    assert_eq!(find_first_match(&keys, &scores, 0), Some(1));
    let none = table_of(&[("a", 0), ("b", 0), ("c", 0)]);
    assert_eq!(find_first_match(&keys, &none, 0), None);
}

#[test]
fn test_item_match_state_and_context() {
    let scores = table_of(&[("a", 0), ("b", 2)]);
    assert_eq!(item_match_state("a", &scores), (false, false, false));
    assert_eq!(item_match_state("b", &scores), (true, true, false));
    assert_eq!(item_match_state("zzz", &scores), (true, false, false));
    let ctx = ItemContext::new("b", true, &scores);
    assert!(ctx.is_selected && ctx.is_match && ctx.name_matches && !ctx.help_matches);
}

#[test]
fn test_highlight_segments_split_by_positions() {
    let runs = highlight_segments("config", &vec![0, 3, 5]);
    let expected: Vec<(String, bool)> = vec![
        ("c".to_string(), true),
        ("on".to_string(), false),
        ("f".to_string(), true),
        ("i".to_string(), false),
        ("g".to_string(), true),
    ];
    assert_eq!(runs, expected);
    // A position past the text is skipped; the rest stays plain.
    let runs = highlight_segments("abc", &vec![1, 9]);
    assert_eq!(runs, vec![("a".to_string(), false), ("b".to_string(), true), ("c".to_string(), false)]);
    // No positions: the whole text is one plain run.
    assert_eq!(highlight_segments("abc", &vec![]), vec![("abc".to_string(), false)]);
}

#[test]
fn test_build_highlighted_text_follows_fuzzy_match() {
    let runs = build_highlighted_text("config", "cfg");
    let highlighted: String = runs.iter().filter(|(_, h)| *h).map(|(s, _)| s.as_str()).collect();
    assert_eq!(highlighted, "cfg");
    let all: String = runs.iter().map(|(s, _)| s.as_str()).collect();
    assert_eq!(all, "config");
    assert_eq!(build_highlighted_text("config", "xyz"), vec![("config".to_string(), false)]);
}
