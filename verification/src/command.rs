//! The one-word commands of the prompt: which word names which command, and
//! what a command needs before it can run.

use vstd::prelude::*;
use crate::chars::{
    chars_of, chars_of_each, is_space, is_whitespace, join_by, joined_by, same_chars, string_of,
    texts,
};
use crate::tokens::{lemma_skip_spaces, skip_spaces};

verus! {

/// A command of the prompt.
#[derive(Clone, Copy, Debug, PartialEq, Eq, Structural)]
pub enum ReplCommand {
    Select,
    Unselect,
    List,
    Read,
    Write,
    Reply,
    Forward,
    Copy,
    Move,
    Delete,
}

/// What is done with a line that was read at the prompt.
#[derive(Clone, Copy, Debug, PartialEq, Eq, Structural)]
pub enum Step {
    /// Run the command.
    Run(ReplCommand),
    /// The command works on a folder and none is selected: say so and read
    /// the next line.
    NeedsFolder,
    /// The line names no command: say so and read the next line.
    NotFound,
}

/// The end of what is left of `s` before `end` once the whitespace at its
/// end is taken off.
pub open spec fn trim_end(s: Seq<char>, end: int) -> int
    decreases end,
{
    if 0 < end <= s.len() && is_space(s[end - 1]) {
        trim_end(s, end - 1)
    } else {
        end
    }
}

/// `s` without the whitespace at its start and at its end.
pub open spec fn trimmed(s: Seq<char>) -> Seq<char> {
    let start = skip_spaces(s, 0);
    let end = trim_end(s, s.len() as int);
    if start <= end {
        s.subrange(start, end)
    } else {
        Seq::empty()
    }
}

/// The command that the word `word` names.
pub open spec fn command_named(word: Seq<char>) -> Option<ReplCommand> {
    if word == "select"@ {
        Some(ReplCommand::Select)
    } else if word == "unselect"@ {
        Some(ReplCommand::Unselect)
    } else if word == "list"@ {
        Some(ReplCommand::List)
    } else if word == "read"@ {
        Some(ReplCommand::Read)
    } else if word == "write"@ {
        Some(ReplCommand::Write)
    } else if word == "reply"@ {
        Some(ReplCommand::Reply)
    } else if word == "forward"@ {
        Some(ReplCommand::Forward)
    } else if word == "copy"@ {
        Some(ReplCommand::Copy)
    } else if word == "move"@ {
        Some(ReplCommand::Move)
    } else if word == "delete"@ {
        Some(ReplCommand::Delete)
    } else {
        None
    }
}

impl ReplCommand {
    /// The commands that work on the selected folder. Selecting and
    /// unselecting a folder and writing a new message do not.
    pub open spec fn spec_needs_folder(self) -> bool {
        self != ReplCommand::Select && self != ReplCommand::Unselect && self != ReplCommand::Write
    }

    /// Tells whether the command works on the selected folder.
    pub fn needs_folder(&self) -> (r: bool)
        ensures
            r == self.spec_needs_folder(),
    {
        match self {
            ReplCommand::Select | ReplCommand::Unselect | ReplCommand::Write => false,
            _ => true,
        }
    }
}

/// What is done with the line `line`, given whether a folder is selected.
pub open spec fn step_for(line: Seq<char>, folder_selected: bool) -> Step {
    match command_named(trimmed(line)) {
        Some(command) => if command.spec_needs_folder() && !folder_selected {
            Step::NeedsFolder
        } else {
            Step::Run(command)
        },
        None => Step::NotFound,
    }
}

/// The command of the prompt that a command path of the grammar stands
/// for: listing envelopes, and what is done with a message but threading.
pub open spec fn command_at(path: Seq<Seq<char>>) -> Option<ReplCommand> {
    if path.len() != 2 {
        None
    } else if path[0] == "envelope"@ {
        if path[1] == "list"@ {
            Some(ReplCommand::List)
        } else {
            None
        }
    } else if path[0] == "message"@ {
        if path[1] == "read"@ {
            Some(ReplCommand::Read)
        } else if path[1] == "write"@ {
            Some(ReplCommand::Write)
        } else if path[1] == "reply"@ {
            Some(ReplCommand::Reply)
        } else if path[1] == "forward"@ {
            Some(ReplCommand::Forward)
        } else if path[1] == "copy"@ {
            Some(ReplCommand::Copy)
        } else if path[1] == "move"@ {
            Some(ReplCommand::Move)
        } else if path[1] == "delete"@ {
            Some(ReplCommand::Delete)
        } else {
            None
        }
    } else {
        None
    }
}

/// What is done with the command path `path`, given whether a folder is
/// selected.
pub open spec fn step_for_path(path: Seq<Seq<char>>, folder_selected: bool) -> Step {
    match command_at(path) {
        Some(command) => if command.spec_needs_folder() && !folder_selected {
            Step::NeedsFolder
        } else {
            Step::Run(command)
        },
        None => Step::NotFound,
    }
}

/// Tells whether `word` holds the characters of `text`.
fn is_word(word: &String, text: &str) -> (r: bool)
    ensures
        r == (word@ == text@),
{
    same_chars(&chars_of(word.as_str()), &chars_of(text))
}

/// Decides what is done with the command path `path`: the command it stands
/// for is run, unless it works on a folder and none is selected.
pub fn plan_path(path: &Vec<String>, folder_selected: bool) -> (r: Step)
    ensures
        r == step_for_path(texts(path@), folder_selected),
{
    let ghost names = texts(path@);
    if path.len() != 2 {
        return Step::NotFound;
    }
    assert(names[0] == path@[0]@ && names[1] == path@[1]@);
    let group = &path[0];
    let leaf = &path[1];
    let command = if is_word(group, "envelope") {
        if is_word(leaf, "list") {
            ReplCommand::List
        } else {
            return Step::NotFound;
        }
    } else if is_word(group, "message") {
        if is_word(leaf, "read") {
            ReplCommand::Read
        } else if is_word(leaf, "write") {
            ReplCommand::Write
        } else if is_word(leaf, "reply") {
            ReplCommand::Reply
        } else if is_word(leaf, "forward") {
            ReplCommand::Forward
        } else if is_word(leaf, "copy") {
            ReplCommand::Copy
        } else if is_word(leaf, "move") {
            ReplCommand::Move
        } else if is_word(leaf, "delete") {
            ReplCommand::Delete
        } else {
            return Step::NotFound;
        }
    } else {
        return Step::NotFound;
    };
    if command.needs_folder() && !folder_selected {
        Step::NeedsFolder
    } else {
        Step::Run(command)
    }
}

/// `line` without the whitespace at its start and at its end.
pub fn trim(line: &Vec<char>) -> (r: Vec<char>)
    ensures
        r@ == trimmed(line@),
{
    let mut start: usize = 0;
    while start < line.len() && is_whitespace(line[start])
        invariant
            start <= line@.len(),
            skip_spaces(line@, start as int) == skip_spaces(line@, 0),
        decreases line@.len() - start,
    {
        start += 1;
    }
    let mut end: usize = line.len();
    while end > 0 && is_whitespace(line[end - 1])
        invariant
            end <= line@.len(),
            trim_end(line@, end as int) == trim_end(line@, line@.len() as int),
        decreases end,
    {
        end -= 1;
    }
    let mut out: Vec<char> = Vec::new();
    let mut i: usize = start;
    while i < end
        invariant
            start <= i,
            end <= line@.len(),
            start <= end ==> i <= end,
            start <= end ==> out@ == line@.subrange(start as int, i as int),
            start > end ==> out@ == Seq::<char>::empty(),
        decreases end - i,
    {
        out.push(line[i]);
        assert(line@.subrange(start as int, i + 1) == line@.subrange(start as int, i as int).push(
            line@[i as int],
        ));
        i += 1;
    }
    out
}

/// The command that `line` names once the whitespace around it is taken off.
pub fn parse(line: &str) -> (r: Option<ReplCommand>)
    ensures
        r == command_named(trimmed(line@)),
{
    let word = trim(&chars_of(line));
    if same_chars(&word, &chars_of("select")) {
        Some(ReplCommand::Select)
    } else if same_chars(&word, &chars_of("unselect")) {
        Some(ReplCommand::Unselect)
    } else if same_chars(&word, &chars_of("list")) {
        Some(ReplCommand::List)
    } else if same_chars(&word, &chars_of("read")) {
        Some(ReplCommand::Read)
    } else if same_chars(&word, &chars_of("write")) {
        Some(ReplCommand::Write)
    } else if same_chars(&word, &chars_of("reply")) {
        Some(ReplCommand::Reply)
    } else if same_chars(&word, &chars_of("forward")) {
        Some(ReplCommand::Forward)
    } else if same_chars(&word, &chars_of("copy")) {
        Some(ReplCommand::Copy)
    } else if same_chars(&word, &chars_of("move")) {
        Some(ReplCommand::Move)
    } else if same_chars(&word, &chars_of("delete")) {
        Some(ReplCommand::Delete)
    } else {
        None
    }
}

/// Decides what is done with the line `line`: the command it names is run,
/// unless it works on a folder and none is selected.
pub fn plan(line: &str, folder_selected: bool) -> (r: Step)
    ensures
        r == step_for(line@, folder_selected),
{
    match parse(line) {
        Some(command) => if command.needs_folder() && !folder_selected {
            Step::NeedsFolder
        } else {
            Step::Run(command)
        },
        None => Step::NotFound,
    }
}

/// The names other than `source`.
pub open spec fn other_than(source: Seq<char>) -> spec_fn(Seq<char>) -> bool {
    |name: Seq<char>| name != source
}

/// The folders that a message of the folder `source` can be copied or moved
/// to: those of `folders` that are not `source`, in order.
pub fn other_folders(folders: &Vec<String>, source: &str) -> (r: Vec<String>)
    ensures
        texts(r@) == texts(folders@).filter(other_than(source@)),
{
    let ghost all = texts(folders@);
    let ghost pred = other_than(source@);
    let mut out: Vec<String> = Vec::new();
    let mut i: usize = 0;
    proof {
        reveal(Seq::filter);
        assert(texts(out@) =~= all.take(0).filter(pred));
    }
    while i < folders.len()
        invariant
            i <= folders@.len(),
            all == texts(folders@),
            pred == other_than(source@),
            texts(out@) == all.take(i as int).filter(pred),
        decreases folders@.len() - i,
    {
        proof {
            let upto = all.take(i as int);
            assert(all.take(i + 1) == upto.push(folders@[i as int]@));
            upto.lemma_filter_push(folders@[i as int]@, pred);
        }
        if !is_word(&folders[i], source) {
            let name = folders[i].clone();
            assert(texts(out@.push(name)) =~= texts(out@).push(name@));
            out.push(name);
        }
        i += 1;
    }
    assert(all.take(all.len() as int) == all);
    out
}

/// The texts of `bodies`, in order, with an empty line between each two.
pub fn join_bodies(bodies: &Vec<String>) -> (r: String)
    ensures
        r@ == joined_by(texts(bodies@), "\n\n"@),
{
    string_of(&join_by(&chars_of_each(bodies), &chars_of("\n\n")))
}

/// What the user is told of a line that names no command.
pub fn not_found_message(line: &str) -> (r: String)
    ensures
        r@ == trimmed(line@) + ": command not found"@,
{
    let word = trim(&chars_of(line));
    let mut out = string_of(&word);
    out.append(": command not found");
    out
}

/// What is left once whitespace is taken off holds none at its start or
/// end.
pub proof fn lemma_trimmed_has_no_margin(s: Seq<char>)
    ensures
        trimmed(s).len() > 0 ==> !is_space(trimmed(s).first()) && !is_space(trimmed(s).last()),
{
    lemma_skip_spaces(s, 0);
    lemma_trim_end(s, s.len() as int);
}

/// Where taking whitespace off the end stops: at or before `end`, and behind
/// a character that is no whitespace if behind any.
pub proof fn lemma_trim_end(s: Seq<char>, end: int)
    requires
        0 <= end <= s.len(),
    ensures
        0 <= trim_end(s, end) <= end,
        trim_end(s, end) > 0 ==> !is_space(s[trim_end(s, end) - 1]),
    decreases end,
{
    if 0 < end && is_space(s[end - 1]) {
        lemma_trim_end(s, end - 1);
    }
}

} // verus!
