use himalaya_repl::grammar::{CommandGrammar, CommandNode};
use himalaya_repl::input_loop::{command_depth, InputLoop, KeyEvent, Outcome};

fn type_text(session: &mut InputLoop, grammar: &CommandGrammar, text: &str) {
    for c in text.chars() {
        let outcome = session.handle(grammar, KeyEvent::Char(c));
        assert!(matches!(outcome, Outcome::Continue));
    }
}

fn submit(text: &str) -> (InputLoop, Outcome) {
    let grammar = CommandGrammar::standard();
    let mut session = InputLoop::new();
    type_text(&mut session, &grammar, text);
    let outcome = session.handle(&grammar, KeyEvent::Enter);
    (session, outcome)
}

fn words(text: &str) -> Vec<Vec<char>> {
    text.split_whitespace().map(|t| t.chars().collect()).collect()
}

#[test]
fn a_new_session_shows_nothing() {
    let frame = InputLoop::new().frame();
    assert_eq!(frame.buffer_text, "");
    assert_eq!(frame.cursor_offset, 0);
    assert!(frame.completion_candidates.is_empty());
    assert_eq!(frame.log_text, "");
}

#[test]
fn character_keys_are_inserted() {
    let grammar = CommandGrammar::standard();
    let mut session = InputLoop::new();
    type_text(&mut session, &grammar, "flag ädd");
    let frame = session.frame();
    assert_eq!(frame.buffer_text, "flag ädd");
    assert_eq!(frame.cursor_offset, 8);
    assert_eq!(frame.log_text, "");
}

#[test]
fn editing_keys_edit_the_buffer() {
    let grammar = CommandGrammar::standard();
    let mut session = InputLoop::new();
    type_text(&mut session, &grammar, "abc");
    assert!(matches!(session.handle(&grammar, KeyEvent::Left), Outcome::Continue));
    assert_eq!(session.frame().cursor_offset, 2);
    assert!(matches!(session.handle(&grammar, KeyEvent::Backspace), Outcome::Continue));
    assert_eq!(session.frame().buffer_text, "ac");
    assert_eq!(session.frame().cursor_offset, 1);
    assert!(matches!(session.handle(&grammar, KeyEvent::Right), Outcome::Continue));
    assert_eq!(session.frame().cursor_offset, 2);
    assert!(matches!(session.handle(&grammar, KeyEvent::Right), Outcome::Continue));
    assert_eq!(session.frame().cursor_offset, 2);
    session.handle(&grammar, KeyEvent::Char('d'));
    assert_eq!(session.frame().buffer_text, "acd");
    assert_eq!(session.frame().log_text, "");
}

#[test]
fn tab_completes_a_unique_match() {
    let grammar = CommandGrammar::standard();
    let mut session = InputLoop::new();
    type_text(&mut session, &grammar, "acc");
    assert!(matches!(session.handle(&grammar, KeyEvent::Tab), Outcome::Continue));
    let frame = session.frame();
    assert_eq!(frame.buffer_text, "account ");
    assert_eq!(frame.cursor_offset, 8);
    assert!(frame.completion_candidates.is_empty());
    assert_eq!(frame.log_text, "");
}

#[test]
fn tab_lists_ambiguous_matches() {
    let grammar = CommandGrammar::standard();
    let mut session = InputLoop::new();
    type_text(&mut session, &grammar, "account ");
    session.handle(&grammar, KeyEvent::Tab);
    let frame = session.frame();
    assert_eq!(frame.buffer_text, "account ");
    assert_eq!(frame.cursor_offset, 8);
    assert_eq!(frame.completion_candidates, vec!["doctor".to_string(), "list".to_string()]);
}

#[test]
fn each_tab_replaces_the_list() {
    let grammar = CommandGrammar::standard();
    let mut session = InputLoop::new();
    type_text(&mut session, &grammar, "flag ");
    session.handle(&grammar, KeyEvent::Tab);
    assert_eq!(session.frame().completion_candidates, vec!["add", "remove", "set"]);
    session.handle(&grammar, KeyEvent::Char('s'));
    assert_eq!(session.frame().completion_candidates, vec!["add", "remove", "set"]);
    session.handle(&grammar, KeyEvent::Tab);
    assert!(session.frame().completion_candidates.is_empty());
    assert_eq!(session.frame().buffer_text, "flag set ");
    session.handle(&grammar, KeyEvent::Tab);
    assert!(session.frame().completion_candidates.is_empty());
    assert_eq!(session.frame().buffer_text, "flag set ");
}

#[test]
fn tab_without_match_clears_the_list() {
    let grammar = CommandGrammar::standard();
    let mut session = InputLoop::new();
    session.handle(&grammar, KeyEvent::Tab);
    assert_eq!(session.frame().completion_candidates.len(), 5);
    type_text(&mut session, &grammar, "xyz");
    session.handle(&grammar, KeyEvent::Tab);
    assert!(session.frame().completion_candidates.is_empty());
    assert_eq!(session.frame().buffer_text, "xyz");
    assert_eq!(session.frame().cursor_offset, 3);
}

#[test]
fn enter_logs_the_line_and_empties_the_buffer() {
    let (session, _) = submit("account list");
    let frame = session.frame();
    assert_eq!(frame.buffer_text, "");
    assert_eq!(frame.cursor_offset, 0);
    assert_eq!(frame.log_text, "account list\n");
}

#[test]
fn enter_adds_exactly_one_line_each_time() {
    let grammar = CommandGrammar::standard();
    let mut session = InputLoop::new();
    for (count, line) in ["account list", "nonsense", "x", "flag add seen"].iter().enumerate() {
        type_text(&mut session, &grammar, line);
        let before = session.frame().log_text;
        session.handle(&grammar, KeyEvent::Enter);
        let frame = session.frame();
        assert_eq!(frame.log_text, format!("{}{}\n", before, line));
        assert_eq!(frame.log_text.lines().count(), count + 1);
        assert_eq!(frame.log_text.lines().last(), Some(*line));
        assert_eq!(frame.buffer_text, "");
        assert_eq!(frame.cursor_offset, 0);
    }
}

#[test]
fn enter_with_the_cursor_in_the_middle_logs_the_whole_line() {
    let grammar = CommandGrammar::standard();
    let mut session = InputLoop::new();
    type_text(&mut session, &grammar, "flag set");
    session.handle(&grammar, KeyEvent::Left);
    session.handle(&grammar, KeyEvent::Left);
    session.handle(&grammar, KeyEvent::Enter);
    assert_eq!(session.frame().log_text, "flag set\n");
    assert_eq!(session.frame().cursor_offset, 0);
}

#[test]
fn enter_on_a_leaf_path_dispatches() {
    let (_, outcome) = submit("account list");
    match outcome {
        Outcome::Dispatch { path, arguments } => {
            assert_eq!(path, vec!["account".to_string(), "list".to_string()]);
            assert_eq!(arguments, "");
        },
        other => panic!("{:?}", other),
    }
}

#[test]
fn enter_hands_the_rest_of_the_line_over_as_arguments() {
    let (_, outcome) = submit("  message   move 42   INBOX  ");
    match outcome {
        Outcome::Dispatch { path, arguments } => {
            assert_eq!(path, vec!["message".to_string(), "move".to_string()]);
            assert_eq!(arguments, "42 INBOX");
        },
        other => panic!("{:?}", other),
    }
    let (_, outcome) = submit("flag add 7 seen");
    match outcome {
        Outcome::Dispatch { path, arguments } => {
            assert_eq!(path, vec!["flag".to_string(), "add".to_string()]);
            assert_eq!(arguments, "7 seen");
        },
        other => panic!("{:?}", other),
    }
}

#[test]
fn enter_on_an_unknown_command_reports_not_found() {
    for text in ["hello", "account", "account bogus", "Account list", "acc list", "", "   "].iter()
    {
        let (session, outcome) = submit(text);
        match outcome {
            Outcome::NotFound { line } => assert_eq!(line, *text),
            other => panic!("{:?}", other),
        }
        assert_eq!(session.frame().log_text, format!("{}\n", text));
        assert_eq!(session.frame().buffer_text, "");
    }
}

#[test]
fn enter_keeps_the_listed_completions() {
    let grammar = CommandGrammar::standard();
    let mut session = InputLoop::new();
    type_text(&mut session, &grammar, "envelope ");
    session.handle(&grammar, KeyEvent::Tab);
    session.handle(&grammar, KeyEvent::Enter);
    assert_eq!(session.frame().completion_candidates, vec!["list", "thread"]);
}

#[test]
fn control_keys_quit_and_change_nothing() {
    let grammar = CommandGrammar::standard();
    let mut session = InputLoop::new();
    type_text(&mut session, &grammar, "fl");
    session.handle(&grammar, KeyEvent::Left);
    assert!(matches!(session.handle(&grammar, KeyEvent::CtrlC), Outcome::Quit));
    assert!(matches!(session.handle(&grammar, KeyEvent::CtrlD), Outcome::Quit));
    let frame = session.frame();
    assert_eq!(frame.buffer_text, "fl");
    assert_eq!(frame.cursor_offset, 1);
    assert_eq!(frame.log_text, "");
}

#[test]
fn record_appends_a_line_to_the_log() {
    let grammar = CommandGrammar::standard();
    let mut session = InputLoop::new();
    type_text(&mut session, &grammar, "nope");
    session.handle(&grammar, KeyEvent::Enter);
    session.record("nope: command not found");
    type_text(&mut session, &grammar, "ab");
    session.record("");
    let frame = session.frame();
    assert_eq!(frame.log_text, "nope\nnope: command not found\n\n");
    assert_eq!(frame.buffer_text, "ab");
    assert_eq!(frame.cursor_offset, 2);
}

#[test]
fn not_found_is_reported_through_the_log() {
    let (mut session, outcome) = submit("nope now");
    match outcome {
        Outcome::NotFound { line } => session.report_not_found(&line),
        other => panic!("{:?}", other),
    }
    let frame = session.frame();
    assert_eq!(frame.log_text, "nope now\nnope now: command not found\n");
    assert_eq!(frame.buffer_text, "");
    let mut fresh = InputLoop::new();
    fresh.report_not_found("");
    assert_eq!(fresh.frame().log_text, ": command not found\n");
}

#[test]
fn the_log_only_grows() {
    let grammar = CommandGrammar::standard();
    let mut session = InputLoop::new();
    let keys = [
        KeyEvent::Char('a'),
        KeyEvent::Tab,
        KeyEvent::Enter,
        KeyEvent::Left,
        KeyEvent::Char('x'),
        KeyEvent::Backspace,
        KeyEvent::Right,
        KeyEvent::Enter,
        KeyEvent::CtrlC,
        KeyEvent::Tab,
        KeyEvent::Enter,
        KeyEvent::CtrlD,
    ];
    let mut before = session.frame().log_text;
    for key in keys.iter() {
        session.handle(&grammar, *key);
        let after = session.frame().log_text;
        assert!(after.starts_with(&before));
        if !matches!(key, KeyEvent::Enter) {
            assert_eq!(after, before);
        }
        before = after;
    }
    assert_eq!(before, "a\n\n\n");
}

#[test]
fn command_depth_counts_the_tokens_of_the_path() {
    let grammar = CommandGrammar::standard();
    assert_eq!(command_depth(&grammar, &words("account list")), Some(2));
    assert_eq!(command_depth(&grammar, &words("message delete 1 2 3")), Some(2));
    assert_eq!(command_depth(&grammar, &words("account")), None);
    assert_eq!(command_depth(&grammar, &words("")), None);
    assert_eq!(command_depth(&grammar, &words("list account")), None);
    let deep = CommandGrammar::new(vec![
        CommandNode::leaf("quit"),
        CommandNode::group(
            "a",
            vec![CommandNode::group("b", vec![CommandNode::leaf("c")]), CommandNode::leaf("d")],
        ),
    ])
    .unwrap();
    assert_eq!(command_depth(&deep, &words("quit now")), Some(1));
    assert_eq!(command_depth(&deep, &words("a b c d")), Some(3));
    assert_eq!(command_depth(&deep, &words("a d c")), Some(2));
    assert_eq!(command_depth(&deep, &words("a b")), None);
    assert_eq!(command_depth(&deep, &words("a b x")), None);
}
