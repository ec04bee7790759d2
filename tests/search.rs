use rgrep::output::Segment;
use rgrep::search::{classify, highlighter_for, search_lines, select_lines, MatchKind, Needle, Strategy};

fn four_lines() -> Vec<String> {
    vec![
        "This is a test line.".to_string(),
        "Another line without the keyword.".to_string(),
        "Test again with test.".to_string(),
        "No matches here.".to_string(),
    ]
}

fn five_lines() -> Vec<String> {
    let mut lines = four_lines();
    lines.push("This line contains the number 123.".to_string());
    lines
}

#[test]
fn test_normal_string_search() {
    let lines = four_lines();
    let result = search_lines(lines.clone(), "test", false, false);
    assert_eq!(result.len(), 2);
    assert!(result.contains(&"This is a test line.".to_string()));
    assert!(result.contains(&"Test again with test.".to_string()));
}

#[test]
fn test_normal_string_search_ignore_case() {
    let lines = four_lines();
    let result = search_lines(lines.clone(), "TEST", true, false);
    assert_eq!(result.len(), 2);
    assert!(result.contains(&"This is a test line.".to_string()));
    assert!(result.contains(&"Test again with test.".to_string()));
}

#[test]
fn test_normal_string_invert() {
    let lines = four_lines();
    let result = search_lines(lines.clone(), "test", false, true);
    assert_eq!(result.len(), 2);
    assert!(result.contains(&"Another line without the keyword.".to_string()));
    assert!(result.contains(&"No matches here.".to_string()));
}

#[test]
fn test_normal_string_invert_ignore_case() {
    let lines = four_lines();
    let result = search_lines(lines.clone(), "TEST", true, true);
    assert_eq!(result.len(), 2);
    assert!(result.contains(&"Another line without the keyword.".to_string()));
    assert!(result.contains(&"No matches here.".to_string()));
}

#[test]
fn test_regex_search() {
    let lines = five_lines();
    let result = search_lines(lines.clone(), r"\btest\b", false, false);
    assert_eq!(result.len(), 2);
    assert!(result.contains(&"This is a test line.".to_string()));
    assert!(result.contains(&"Test again with test.".to_string()));
}

#[test]
fn test_regex_search_ignore_case() {
    let lines = five_lines();
    let result = search_lines(lines.clone(), r"\bTEST\b", true, false);
    assert_eq!(result.len(), 2);
    assert!(result.contains(&"This is a test line.".to_string()));
    assert!(result.contains(&"Test again with test.".to_string()));
}

#[test]
fn test_regex_invert() {
    let lines = five_lines();
    let result = search_lines(lines.clone(), r"\btest\b", false, true);
    assert_eq!(result.len(), 3);
    assert!(result.contains(&"Another line without the keyword.".to_string()));
    assert!(result.contains(&"No matches here.".to_string()));
    assert!(result.contains(&"This line contains the number 123.".to_string()));
}

#[test]
fn test_regex_invert_ignore_case() {
    let lines = five_lines();
    let result = search_lines(lines.clone(), r"\bTEST\b", true, true);
    assert_eq!(result.len(), 3);
    assert!(result.contains(&"Another line without the keyword.".to_string()));
    assert!(result.contains(&"No matches here.".to_string()));
    assert!(result.contains(&"This line contains the number 123.".to_string()));
}

#[test]
fn test_empty_lines() {
    let lines: Vec<String> = vec![];
    let result = search_lines(lines.clone(), "test", false, false);
    assert_eq!(result.len(), 0);
}

#[test]
fn test_no_matches() {
    let lines = vec!["This is a line.".to_string(), "Another line.".to_string()];
    let result = search_lines(lines.clone(), "test", false, false);
    assert_eq!(result.len(), 0);
}

#[test]
fn test_invalid_regex() {
    let lines = vec![
        "This is a test line.".to_string(),
        "Another line without the keyword.".to_string(),
    ];
    let result = search_lines(lines.clone(), "[a-z", false, false);
    assert_eq!(result.len(), 0);
}

#[test]
fn results_keep_input_order() {
    assert_eq!(
        search_lines(four_lines(), "test", false, false),
        vec!["This is a test line.".to_string(), "Test again with test.".to_string()]
    );
    assert_eq!(
        search_lines(four_lines(), "TEST", true, false),
        vec!["This is a test line.".to_string(), "Test again with test.".to_string()]
    );
    assert_eq!(
        search_lines(four_lines(), "test", false, true),
        vec!["Another line without the keyword.".to_string(), "No matches here.".to_string()]
    );
    assert_eq!(
        search_lines(five_lines(), r"\btest\b", false, false),
        vec!["This is a test line.".to_string(), "Test again with test.".to_string()]
    );
}

#[test]
fn literal_and_inverse_split_the_input() {
    let lines = vec![
        "abc".to_string(),
        "xbcx".to_string(),
        "abc".to_string(),
        "zzz".to_string(),
    ];
    let kept = Strategy::NormalString.find_lines(lines.clone(), "bc", false);
    let dropped = Strategy::NormalStringInvert.find_lines(lines.clone(), "bc", false);
    assert_eq!(kept, vec!["abc".to_string(), "xbcx".to_string(), "abc".to_string()]);
    assert_eq!(dropped, vec!["zzz".to_string()]);
    assert_eq!(kept.len() + dropped.len(), lines.len());
}

#[test]
fn pattern_and_inverse_split_the_input() {
    let lines = five_lines();
    let kept = Strategy::RegexString.find_lines(lines.clone(), "[0-9]+", false);
    let dropped = Strategy::RegexStringInvert.find_lines(lines.clone(), "[0-9]+", false);
    assert_eq!(kept, vec!["This line contains the number 123.".to_string()]);
    assert_eq!(dropped.len(), 4);
    assert!(!dropped.contains(&kept[0]));
}

#[test]
fn needles_with_equal_lowercase_agree() {
    let lines = vec!["Straße".to_string(), "STRASSE".to_string(), "street".to_string()];
    assert_eq!(
        search_lines(lines.clone(), "STRASSE", true, false),
        search_lines(lines.clone(), "strasse", true, false)
    );
    assert_eq!(
        search_lines(lines.clone(), "strasse", true, false),
        vec!["STRASSE".to_string()]
    );
}

#[test]
fn case_folding_is_unicode_aware() {
    let lines = vec!["ÉCOLE".to_string(), "ecole".to_string()];
    assert_eq!(search_lines(lines, "école", true, false), vec!["ÉCOLE".to_string()]);
}

#[test]
fn empty_input_under_every_flag() {
    for ci in [false, true] {
        for inv in [false, true] {
            for needle in ["test", r"\d+", "[a-z"] {
                assert!(search_lines(Vec::new(), needle, ci, inv).is_empty());
            }
        }
    }
}

#[test]
fn rejected_pattern_is_searched_literally() {
    assert_eq!(classify("[a-z"), MatchKind::Literal);
    assert_eq!(classify(r"\btest\b"), MatchKind::Pattern);
    let lines = vec!["range [a-z here".to_string(), "abc".to_string()];
    assert_eq!(search_lines(lines.clone(), "[a-z", false, false), vec!["range [a-z here".to_string()]);
    assert_eq!(search_lines(lines, "[A-Z", true, true), vec!["abc".to_string()]);
}

#[test]
fn empty_needle_keeps_every_line() {
    assert_eq!(search_lines(four_lines(), "", false, false), four_lines());
}

#[test]
fn select_lines_by_flags() {
    let lines = vec!["a".to_string(), "b".to_string(), "c".to_string()];
    let hits = vec![true, false, true];
    assert_eq!(select_lines(lines.clone(), &hits, false), vec!["a".to_string(), "c".to_string()]);
    assert_eq!(select_lines(lines, &hits, true), vec!["b".to_string()]);
}

#[test]
fn highlight_literal_occurrences() {
    let h = highlighter_for("[a-z", false).unwrap();
    assert_eq!(
        h.segments("x[a-zy[a-z"),
        vec![
            Segment { start: 0, end: 1, highlighted: false },
            Segment { start: 1, end: 5, highlighted: true },
            Segment { start: 5, end: 6, highlighted: false },
            Segment { start: 6, end: 10, highlighted: true },
        ]
    );
}

#[test]
fn highlight_pattern_ignoring_case() {
    let h = highlighter_for(r"\btest\b", true).unwrap();
    assert_eq!(
        h.segments("Test again with test."),
        vec![
            Segment { start: 0, end: 4, highlighted: true },
            Segment { start: 4, end: 16, highlighted: false },
            Segment { start: 16, end: 20, highlighted: true },
            Segment { start: 20, end: 21, highlighted: false },
        ]
    );
    assert_eq!(
        h.segments("nothing"),
        vec![Segment { start: 0, end: 7, highlighted: false }]
    );
    assert!(h.segments("").is_empty());
}
