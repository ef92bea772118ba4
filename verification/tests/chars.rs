use himalaya_repl::chars::{
    chars_of, chars_of_each, copy_chars, extend_chars, is_whitespace, join_by, lex_less,
    same_chars, string_of, strings_of, to_lower,
};

fn v(text: &str) -> Vec<char> {
    text.chars().collect()
}

#[test]
fn whitespace_is_the_unicode_property() {
    let mut code: u32 = 0;
    while code <= 0x10FFFF {
        if let Some(c) = char::from_u32(code) {
            assert_eq!(is_whitespace(c), c.is_whitespace(), "U+{:04X}", code);
        }
        code += 1;
    }
}

#[test]
fn lower_folds_ascii_letters_only() {
    let mut code: u32 = 0;
    while code <= 0x10FFFF {
        if let Some(c) = char::from_u32(code) {
            assert_eq!(to_lower(c), c.to_ascii_lowercase(), "U+{:04X}", code);
        }
        code += 1;
    }
    assert_eq!(to_lower('A'), 'a');
    assert_eq!(to_lower('Z'), 'z');
    assert_eq!(to_lower('É'), 'É');
}

#[test]
fn lexical_order_agrees_with_string_order() {
    let samples = [
        "", "a", "b", "ab", "abc", "abd", "B", "add", "delete", "read", "reply", "é", "z", "日本",
        "flag", "folder", "list", "lisT", "list ",
    ];
    for a in samples.iter() {
        for b in samples.iter() {
            assert_eq!(lex_less(&v(a), &v(b)), a < b, "{:?} < {:?}", a, b);
        }
    }
}

#[test]
fn same_chars_is_equality() {
    assert!(same_chars(&v(""), &v("")));
    assert!(same_chars(&v("abc"), &v("abc")));
    assert!(!same_chars(&v("abc"), &v("abd")));
    assert!(!same_chars(&v("abc"), &v("ab")));
    assert!(!same_chars(&v("ab"), &v("abc")));
    assert!(!same_chars(&v("Abc"), &v("abc")));
}

#[test]
fn chars_of_and_string_of_are_inverse() {
    for text in ["", "a", "account list", "日本語 ünï 𝄞", " \t\n"].iter() {
        assert_eq!(chars_of(text), v(text));
        assert_eq!(string_of(&v(text)), text.to_string());
        assert_eq!(string_of(&chars_of(text)), text.to_string());
    }
}

#[test]
fn string_of_appends_each_character_in_order() {
    assert_eq!(string_of(&vec!['a', 'b', 'c']), "abc");
    assert_eq!(string_of(&vec!['c', 'b', 'a']), "cba");
    assert_eq!(string_of(&vec!['€']).len(), 3);
}

#[test]
fn copy_chars_copies() {
    assert_eq!(copy_chars(&v("héllo")), v("héllo"));
    assert_eq!(copy_chars(&v("")), v(""));
}

#[test]
fn strings_of_converts_each() {
    assert_eq!(
        strings_of(&vec![v("doctor"), v(""), v("lïst")]),
        vec!["doctor".to_string(), "".to_string(), "lïst".to_string()]
    );
    assert!(strings_of(&Vec::new()).is_empty());
}

#[test]
fn chars_of_each_converts_each() {
    assert_eq!(
        chars_of_each(&vec!["ab".to_string(), "".to_string(), "é".to_string()]),
        vec![v("ab"), v(""), v("é")]
    );
    assert!(chars_of_each(&Vec::new()).is_empty());
}

#[test]
fn extend_chars_appends() {
    let mut to = v("ab");
    extend_chars(&mut to, &v("cd"));
    assert_eq!(to, v("abcd"));
    extend_chars(&mut to, &v(""));
    assert_eq!(to, v("abcd"));
    let mut empty = v("");
    extend_chars(&mut empty, &v("x"));
    assert_eq!(empty, v("x"));
}

#[test]
fn join_by_puts_the_separator_between() {
    assert_eq!(join_by(&Vec::new(), &v(", ")), v(""));
    assert_eq!(join_by(&vec![v("a")], &v(", ")), v("a"));
    assert_eq!(join_by(&vec![v("a"), v("b"), v("c")], &v(", ")), v("a, b, c"));
    assert_eq!(join_by(&vec![v(""), v("")], &v("-")), v("-"));
    assert_eq!(join_by(&vec![v("a"), v("b")], &v("")), v("ab"));
}
