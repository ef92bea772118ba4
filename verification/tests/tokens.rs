use himalaya_repl::tokens::{ends_with_whitespace, split_tokens};

fn v(text: &str) -> Vec<char> {
    text.chars().collect()
}

fn split(text: &str) -> Vec<String> {
    split_tokens(&v(text)).iter().map(|t| t.iter().collect::<String>()).collect()
}

#[test]
fn split_agrees_with_split_whitespace() {
    let samples = [
        "",
        " ",
        "   \t ",
        "a",
        " a",
        "a ",
        "account list",
        "  account   list  ",
        "message move 42 INBOX",
        "tab\tseparated\nlines",
        "no\u{a0}break",
        "wide\u{3000}space",
        "日本語 ünï",
        "x\u{2003}y\u{85}z",
    ];
    for text in samples.iter() {
        let expected: Vec<String> = text.split_whitespace().map(|t| t.to_string()).collect();
        assert_eq!(split(text), expected, "{:?}", text);
    }
}

#[test]
fn split_of_nothing_is_empty() {
    assert!(split("").is_empty());
    assert!(split(" \t\n").is_empty());
}

#[test]
fn split_keeps_order_and_content() {
    assert_eq!(split(" message  m"), vec!["message".to_string(), "m".to_string()]);
}

#[test]
fn trailing_space_is_seen() {
    assert!(!ends_with_whitespace(&v("")));
    assert!(!ends_with_whitespace(&v("a")));
    assert!(!ends_with_whitespace(&v(" a")));
    assert!(ends_with_whitespace(&v("a ")));
    assert!(ends_with_whitespace(&v("a\t")));
    assert!(ends_with_whitespace(&v(" ")));
    assert!(ends_with_whitespace(&v("a\u{3000}")));
}
