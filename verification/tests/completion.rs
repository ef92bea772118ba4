use himalaya_repl::completer::{complete, ranked_matches, split_line};
use himalaya_repl::grammar::{CommandGrammar, CommandNode};
use himalaya_repl::text_buffer::TextBuffer;

fn typed(text: &str) -> TextBuffer {
    let mut buffer = TextBuffer::new();
    for c in text.chars() {
        buffer.insert_char(c);
    }
    buffer
}

fn tab(text: &str) -> (String, usize, Vec<String>) {
    let grammar = CommandGrammar::standard();
    let mut buffer = typed(text);
    let list = complete(&grammar, &mut buffer);
    (buffer.text(), buffer.cursor(), list)
}

fn strings(names: &[&str]) -> Vec<String> {
    names.iter().map(|n| n.to_string()).collect()
}

#[test]
fn unique_root_match_is_completed() {
    let grammar = CommandGrammar::standard();
    let mut buffer = typed("acc");
    let list = complete(&grammar, &mut buffer);
    assert_eq!(buffer.text(), "account ");
    assert_eq!(buffer.cursor(), 8);
    assert!(list.is_empty());
}

#[test]
fn trailing_space_lists_children_in_lexical_order() {
    let grammar = CommandGrammar::standard();
    let mut buffer = typed("account ");
    let list = complete(&grammar, &mut buffer);
    assert_eq!(list, vec!["doctor".to_string(), "list".to_string()]);
    assert_eq!(buffer.text(), "account ");
    assert_eq!(buffer.cursor(), 8);
}

#[test]
fn no_match_changes_nothing() {
    let grammar = CommandGrammar::standard();
    let mut buffer = typed("xyz");
    let list = complete(&grammar, &mut buffer);
    assert!(list.is_empty());
    assert_eq!(buffer.text(), "xyz");
    assert_eq!(buffer.cursor(), 3);
}

#[test]
fn unique_match_below_a_group_is_completed() {
    let grammar = CommandGrammar::standard();
    let mut buffer = typed("message m");
    let list = complete(&grammar, &mut buffer);
    assert!(list.is_empty());
    assert_eq!(buffer.text(), "message move ");
    assert_eq!(buffer.cursor(), 13);
}

#[test]
fn empty_line_lists_the_roots_in_lexical_order() {
    assert_eq!(
        tab(""),
        ("".to_string(), 0, strings(&["account", "envelope", "flag", "folder", "message"]))
    );
    assert_eq!(
        tab("   "),
        ("   ".to_string(), 3, strings(&["account", "envelope", "flag", "folder", "message"]))
    );
}

#[test]
fn every_group_lists_its_children_in_lexical_order() {
    assert_eq!(tab("folder ").2, strings(&["add", "delete", "expunge", "list", "purge"]));
    assert_eq!(tab("envelope ").2, strings(&["list", "thread"]));
    assert_eq!(tab("flag ").2, strings(&["add", "remove", "set"]));
    assert_eq!(
        tab("message ").2,
        strings(&["copy", "delete", "forward", "move", "read", "reply", "thread", "write"])
    );
}

#[test]
fn ambiguous_matches_are_listed_by_score_then_name() {
    assert_eq!(
        tab("message re"),
        ("message re".to_string(), 10, strings(&["read", "reply", "thread", "write"]))
    );
    assert_eq!(tab("e"), ("e".to_string(), 1, strings(&["envelope", "message", "folder"])));
    assert_eq!(tab("f"), ("f".to_string(), 1, strings(&["flag", "folder"])));
    assert_eq!(tab("folder e").2, strings(&["expunge", "delete", "purge"]));
}

#[test]
fn ambiguous_listing_leaves_the_cursor_where_it_was() {
    let grammar = CommandGrammar::standard();
    let mut buffer = typed("account ");
    buffer.move_left();
    buffer.move_left();
    buffer.move_left();
    let list = complete(&grammar, &mut buffer);
    assert_eq!(list, strings(&["doctor", "list"]));
    assert_eq!(buffer.cursor(), 5);
    assert_eq!(buffer.text(), "account ");
}

#[test]
fn completion_moves_the_cursor_to_the_end() {
    let grammar = CommandGrammar::standard();
    let mut buffer = typed("message m");
    for _ in 0..6 {
        buffer.move_left();
    }
    let list = complete(&grammar, &mut buffer);
    assert!(list.is_empty());
    assert_eq!(buffer.text(), "message move ");
    assert_eq!(buffer.cursor(), 13);
}

#[test]
fn completion_replaces_the_partial_token_by_the_name() {
    assert_eq!(tab("ACC"), ("account ".to_string(), 8, Vec::new()));
    assert_eq!(tab("at"), ("account ".to_string(), 8, Vec::new()));
    assert_eq!(tab("  message   mv"), ("  message   move ".to_string(), 17, Vec::new()));
    assert_eq!(tab("flag\tst"), ("flag\tset ".to_string(), 9, Vec::new()));
}

#[test]
fn repeated_completion_descends_the_grammar() {
    let grammar = CommandGrammar::standard();
    let mut buffer = typed("mes");
    assert!(complete(&grammar, &mut buffer).is_empty());
    assert_eq!(buffer.text(), "message ");
    buffer.insert_char('w');
    assert_eq!(complete(&grammar, &mut buffer), strings(&["write", "forward"]));
    assert_eq!(buffer.text(), "message w");
    buffer.insert_char('i');
    assert!(complete(&grammar, &mut buffer).is_empty());
    assert_eq!(buffer.text(), "message write ");
    assert_eq!(buffer.cursor(), 14);
    assert!(complete(&grammar, &mut buffer).is_empty());
    assert_eq!(buffer.text(), "message write ");
}

#[test]
fn unknown_committed_token_gives_nothing() {
    assert_eq!(tab("bogus "), ("bogus ".to_string(), 6, Vec::new()));
    assert_eq!(tab("bogus l"), ("bogus l".to_string(), 7, Vec::new()));
    assert_eq!(tab("acc list"), ("acc list".to_string(), 8, Vec::new()));
    assert_eq!(tab("Account "), ("Account ".to_string(), 8, Vec::new()));
}

#[test]
fn nothing_follows_a_leaf() {
    assert_eq!(tab("account list "), ("account list ".to_string(), 13, Vec::new()));
    assert_eq!(tab("account list x"), ("account list x".to_string(), 14, Vec::new()));
}

#[test]
fn a_single_child_is_completed_without_typing() {
    let grammar = CommandGrammar::new(vec![
        CommandNode::group("only", vec![CommandNode::leaf("child")]),
        CommandNode::leaf("other"),
    ])
    .unwrap();
    let mut buffer = typed("only ");
    let list = complete(&grammar, &mut buffer);
    assert!(list.is_empty());
    assert_eq!(buffer.text(), "only child ");
    assert_eq!(buffer.cursor(), 11);
}

#[test]
fn listing_does_not_depend_on_the_order_of_the_grammar() {
    let forward = CommandGrammar::new(vec![
        CommandNode::leaf("beta"),
        CommandNode::leaf("alpha"),
        CommandNode::leaf("gamma"),
        CommandNode::leaf("abba"),
    ])
    .unwrap();
    let backward = CommandGrammar::new(vec![
        CommandNode::leaf("abba"),
        CommandNode::leaf("gamma"),
        CommandNode::leaf("alpha"),
        CommandNode::leaf("beta"),
    ])
    .unwrap();
    for text in ["", "a", "b", "ba", "A"].iter() {
        let mut one = typed(text);
        let mut two = typed(text);
        assert_eq!(complete(&forward, &mut one), complete(&backward, &mut two), "{:?}", text);
        assert_eq!(one.text(), two.text());
    }
    let mut buffer = typed("a");
    assert_eq!(complete(&forward, &mut buffer), strings(&["abba", "alpha", "gamma", "beta"]));
    let mut buffer = typed("ba");
    assert_eq!(complete(&forward, &mut buffer), strings(&["beta", "abba"]));
}

#[test]
fn an_empty_grammar_offers_nothing() {
    let grammar = CommandGrammar::new(Vec::new()).unwrap();
    let mut buffer = typed("a");
    assert!(complete(&grammar, &mut buffer).is_empty());
    assert_eq!(buffer.text(), "a");
}

fn split(text: &str) -> (Vec<String>, String) {
    let (path, partial) = split_line(&text.chars().collect());
    (path.iter().map(|t| t.iter().collect()).collect(), partial.iter().collect())
}

#[test]
fn trailing_space_commits_every_token() {
    assert_eq!(split("account "), (strings(&["account"]), "".to_string()));
    assert_eq!(split("account list\t"), (strings(&["account", "list"]), "".to_string()));
    assert_eq!(split("   "), (Vec::new(), "".to_string()));
    assert_eq!(split(""), (Vec::new(), "".to_string()));
}

#[test]
fn the_last_token_is_partial_without_trailing_space() {
    assert_eq!(split("acc"), (Vec::new(), "acc".to_string()));
    assert_eq!(split("message m"), (strings(&["message"]), "m".to_string()));
    assert_eq!(split("  a  b   c"), (strings(&["a", "b"]), "c".to_string()));
    assert_eq!(split(" x"), (Vec::new(), "x".to_string()));
}

fn matches(text: &str) -> Vec<String> {
    let grammar = CommandGrammar::standard();
    ranked_matches(&grammar, &text.chars().collect())
        .iter()
        .map(|name| name.iter().collect())
        .collect()
}

#[test]
fn ranked_matches_are_what_completion_decides_on() {
    assert_eq!(matches("acc"), strings(&["account"]));
    assert_eq!(matches("account "), strings(&["doctor", "list"]));
    assert_eq!(matches("xyz"), Vec::<String>::new());
    assert_eq!(matches("message m"), strings(&["move"]));
    assert_eq!(matches("message re"), strings(&["read", "reply", "thread", "write"]));
    assert_eq!(matches("bogus "), Vec::<String>::new());
    assert_eq!(matches(""), strings(&["account", "envelope", "flag", "folder", "message"]));
}
