use himalaya_repl::command::{
    join_bodies, not_found_message, other_folders, parse, plan, plan_path, trim, ReplCommand, Step,
};

const WORDS: [(&str, ReplCommand); 10] = [
    ("select", ReplCommand::Select),
    ("unselect", ReplCommand::Unselect),
    ("list", ReplCommand::List),
    ("read", ReplCommand::Read),
    ("write", ReplCommand::Write),
    ("reply", ReplCommand::Reply),
    ("forward", ReplCommand::Forward),
    ("copy", ReplCommand::Copy),
    ("move", ReplCommand::Move),
    ("delete", ReplCommand::Delete),
];

#[test]
fn each_word_names_its_command() {
    for (word, command) in WORDS.iter() {
        assert_eq!(parse(word), Some(*command));
        assert_eq!(parse(&format!("  {}\t\n", word)), Some(*command));
    }
}

#[test]
fn other_lines_name_no_command() {
    for line in ["", " ", "Select", "selec", "select folder", "list list", "create", "quit"].iter()
    {
        assert_eq!(parse(line), None, "{:?}", line);
    }
}

#[test]
fn trim_agrees_with_str_trim() {
    for line in
        ["", " ", "a", " a", "a ", "  a b  ", "\t\n x \u{3000}", "\u{a0}é\u{2003}", "   \t"].iter()
    {
        let chars: Vec<char> = line.chars().collect();
        let got: String = trim(&chars).iter().collect();
        assert_eq!(got, line.trim(), "{:?}", line);
    }
}

#[test]
fn commands_on_a_folder_need_one() {
    for (_, command) in WORDS.iter() {
        let expected = !matches!(
            command,
            ReplCommand::Select | ReplCommand::Unselect | ReplCommand::Write
        );
        assert_eq!(command.needs_folder(), expected, "{:?}", command);
    }
}

#[test]
fn plan_runs_what_can_run() {
    for (word, command) in WORDS.iter() {
        assert_eq!(plan(word, true), Step::Run(*command));
        let without = if command.needs_folder() { Step::NeedsFolder } else { Step::Run(*command) };
        assert_eq!(plan(word, false), without);
    }
    assert_eq!(plan(" list ", false), Step::NeedsFolder);
    assert_eq!(plan(" write ", false), Step::Run(ReplCommand::Write));
}

#[test]
fn plan_reports_unknown_lines() {
    assert_eq!(plan("bogus", true), Step::NotFound);
    assert_eq!(plan("bogus", false), Step::NotFound);
    assert_eq!(plan("", false), Step::NotFound);
}

#[test]
fn not_found_message_names_the_trimmed_line() {
    assert_eq!(not_found_message("bogus"), "bogus: command not found");
    assert_eq!(not_found_message("  two words \n"), "two words: command not found");
    assert_eq!(not_found_message(""), ": command not found");
}

fn path(words: &[&str]) -> Vec<String> {
    words.iter().map(|w| w.to_string()).collect()
}

#[test]
fn command_paths_stand_for_commands() {
    let known = [
        (["envelope", "list"], ReplCommand::List),
        (["message", "read"], ReplCommand::Read),
        (["message", "write"], ReplCommand::Write),
        (["message", "reply"], ReplCommand::Reply),
        (["message", "forward"], ReplCommand::Forward),
        (["message", "copy"], ReplCommand::Copy),
        (["message", "move"], ReplCommand::Move),
        (["message", "delete"], ReplCommand::Delete),
    ];
    for (words, command) in known.iter() {
        assert_eq!(plan_path(&path(words), true), Step::Run(*command));
        let without = if command.needs_folder() { Step::NeedsFolder } else { Step::Run(*command) };
        assert_eq!(plan_path(&path(words), false), without);
    }
    assert_eq!(plan_path(&path(&["message", "write"]), false), Step::Run(ReplCommand::Write));
}

#[test]
fn other_command_paths_stand_for_none() {
    for words in [
        vec![],
        vec!["message"],
        vec!["message", "thread"],
        vec!["envelope", "thread"],
        vec!["envelope", "read"],
        vec!["account", "list"],
        vec!["folder", "list"],
        vec!["flag", "add"],
        vec!["message", "read", "1"],
        vec!["Message", "read"],
    ]
    .iter()
    {
        assert_eq!(plan_path(&path(words), true), Step::NotFound, "{:?}", words);
        assert_eq!(plan_path(&path(words), false), Step::NotFound, "{:?}", words);
    }
}

#[test]
fn other_folders_leave_the_source_out() {
    let folders = path(&["INBOX", "Sent", "Drafts", "INBOX", "inbox"]);
    assert_eq!(other_folders(&folders, "INBOX"), path(&["Sent", "Drafts", "inbox"]));
    assert_eq!(other_folders(&folders, "Sent"), path(&["INBOX", "Drafts", "INBOX", "inbox"]));
    assert_eq!(other_folders(&folders, "Trash"), folders);
    assert_eq!(other_folders(&path(&["INBOX"]), "INBOX"), Vec::<String>::new());
    assert_eq!(other_folders(&Vec::new(), "INBOX"), Vec::<String>::new());
}

#[test]
fn bodies_are_joined_by_an_empty_line() {
    assert_eq!(join_bodies(&Vec::new()), "");
    assert_eq!(join_bodies(&path(&["one"])), "one");
    assert_eq!(join_bodies(&path(&["one", "two"])), "one\n\ntwo");
    assert_eq!(join_bodies(&path(&["a", "", "ç"])), "a\n\n\n\nç");
}
