//! The loop of the command line: what each key does to the line under edit,
//! to the list of completions and to the log of submitted lines, and what a
//! submitted line asks for.

use vstd::prelude::*;
use crate::chars::{
    chars_of, copy_chars, extend_chars, join_by, joined_by, string_of, strings_of, texts, views,
};
use crate::completer::{complete, completion_of, survivors};
use crate::grammar::{
    children_at, find, forest_of, lemma_children_at_push, position, CommandGrammar, CommandNode,
    Tree,
};
use crate::text_buffer::{BufferState, TextBuffer};
use crate::tokens::{split_tokens, tokens};

verus! {

/// A key, as the loop tells keys apart.
#[derive(Clone, Copy, Debug, PartialEq, Eq, Structural)]
pub enum KeyEvent {
    /// A key that stands for a character.
    Char(char),
    Backspace,
    Left,
    Right,
    Tab,
    Enter,
    CtrlC,
    CtrlD,
}

/// What the loop asks of its surroundings after a key.
#[derive(Debug)]
pub enum Outcome {
    /// Nothing: go on reading keys.
    Continue,
    /// Run the command at `path` with the rest of the line as its
    /// `arguments`.
    Dispatch { path: Vec<String>, arguments: String },
    /// The submitted `line` names no command that can be run.
    NotFound { line: String },
    /// End the loop.
    Quit,
}

/// What the loop holds between keys.
pub struct LoopState {
    pub buffer: BufferState,
    pub completions: Seq<Seq<char>>,
    pub log: Seq<char>,
}

/// How many of the tokens from `k` on lead from the commands `f` to a
/// command that can be run, counted from the first token of all: each token
/// names a command exactly, and the last of them the first one met without
/// sub-commands. `None` if a token names no command or the tokens end before
/// such a command is met.
pub open spec fn leaf_depth(f: Seq<Tree>, tokens: Seq<Seq<char>>, k: int) -> Option<int>
    decreases tokens.len() - k,
{
    if k < 0 || k >= tokens.len() {
        None
    } else {
        let i = find(f, tokens[k]);
        if 0 <= i < f.len() {
            if f[i].children.len() == 0 {
                Some(k + 1)
            } else {
                leaf_depth(f[i].children, tokens, k + 1)
            }
        } else {
            None
        }
    }
}

/// The first `depth` of the tokens are the path of a command that can be
/// run: the last of them names, among the commands that the ones before it
/// lead to, one without sub-commands.
pub open spec fn is_leaf_path(g: Seq<Tree>, tokens: Seq<Seq<char>>, depth: int) -> bool {
    &&& 1 <= depth <= tokens.len()
    &&& {
        let level = children_at(g, tokens.take(depth - 1));
        let i = find(level, tokens[depth - 1]);
        0 <= i < level.len() && level[i].children.len() == 0
    }
}

/// One token further, the commands reached are the sub-commands of the
/// command that the token names, and none if it names none.
pub proof fn lemma_level_step(g: Seq<Tree>, tokens: Seq<Seq<char>>, k: int)
    requires
        0 <= k < tokens.len(),
    ensures
        children_at(g, tokens.take(k + 1)) == {
            let level = children_at(g, tokens.take(k));
            let i = find(level, tokens[k]);
            if 0 <= i < level.len() {
                level[i].children
            } else {
                Seq::empty()
            }
        },
{
    let level = children_at(g, tokens.take(k));
    lemma_children_at_push(g, tokens.take(k), tokens[k]);
    assert(tokens.take(k).push(tokens[k]) == tokens.take(k + 1));
    let one = seq![tokens[k]];
    assert(one.skip(1).len() == 0);
    let i = find(level, tokens[k]);
    if 0 <= i < level.len() {
        assert(children_at(level[i].children, one.skip(1)) == level[i].children);
    }
}

/// Once no command is reached, none is reached by more tokens.
pub proof fn lemma_nothing_below_nothing(g: Seq<Tree>, tokens: Seq<Seq<char>>, k: int, m: int)
    requires
        0 <= k <= m <= tokens.len(),
        children_at(g, tokens.take(k)).len() == 0,
    ensures
        children_at(g, tokens.take(m)).len() == 0,
    decreases m - k,
{
    if k < m {
        lemma_level_step(g, tokens, k);
        lemma_nothing_below_nothing(g, tokens, k + 1, m);
    }
}

/// From the commands that the first `k` tokens lead to, the walk ends after
/// `depth` tokens exactly if the first `depth` tokens are the path of a
/// command that can be run.
proof fn lemma_leaf_depth_from(g: Seq<Tree>, tokens: Seq<Seq<char>>, k: int, depth: int)
    requires
        0 <= k <= tokens.len(),
    ensures
        leaf_depth(children_at(g, tokens.take(k)), tokens, k) == Some(depth) <==> k < depth
            && is_leaf_path(g, tokens, depth),
    decreases tokens.len() - k,
{
    if k < tokens.len() {
        let level = children_at(g, tokens.take(k));
        let i = find(level, tokens[k]);
        lemma_level_step(g, tokens, k);
        if 0 <= i < level.len() && level[i].children.len() > 0 {
            lemma_leaf_depth_from(g, tokens, k + 1, depth);
        } else if k + 1 < depth <= tokens.len() {
            lemma_nothing_below_nothing(g, tokens, k + 1, depth - 1);
        }
    }
}

/// A submitted line is dispatched exactly if some of its first tokens are
/// the path of a command that can be run, and then with those tokens as the
/// path. No line has two such paths.
pub proof fn lemma_dispatch_iff_leaf_path(g: Seq<Tree>, tokens: Seq<Seq<char>>, depth: int)
    ensures
        leaf_depth(g, tokens, 0) == Some(depth) <==> is_leaf_path(g, tokens, depth),
{
    assert(tokens.take(0).len() == 0);
    lemma_leaf_depth_from(g, tokens, 0, depth);
}

/// How often `c` occurs in `s`.
pub open spec fn count_of(s: Seq<char>, c: char) -> nat
    decreases s.len(),
{
    if s.len() == 0 {
        0
    } else {
        count_of(s.drop_last(), c) + if s.last() == c {
            1nat
        } else {
            0nat
        }
    }
}

/// The log `log` with the line `line` added.
pub open spec fn logged(log: Seq<char>, line: Seq<char>) -> Seq<char> {
    log + line + seq!['\n']
}

/// The state after the line under edit was submitted: the line is added to
/// the log and the buffer is empty again.
pub open spec fn submitted(s: LoopState) -> LoopState {
    LoopState {
        buffer: BufferState::empty(),
        completions: s.completions,
        log: logged(s.log, s.buffer.text),
    }
}

/// What a submitted `line` asks for under the grammar `g`.
pub open spec fn asks_for(g: Seq<Tree>, line: Seq<char>, outcome: Outcome) -> bool {
    match leaf_depth(g, tokens(line), 0) {
        Some(depth) => {
            &&& outcome matches Outcome::Dispatch { path, arguments }
            &&& texts(path@) == tokens(line).take(depth)
            &&& arguments@ == joined_by(tokens(line).skip(depth), seq![' '])
        },
        None => {
            &&& outcome matches Outcome::NotFound { line: reported }
            &&& reported@ == line
        },
    }
}

/// Counting over two sequences, one after the other.
pub proof fn lemma_count_of_concat(a: Seq<char>, b: Seq<char>, c: char)
    ensures
        count_of(a + b, c) == count_of(a, c) + count_of(b, c),
    decreases b.len(),
{
    if b.len() == 0 {
        assert(a + b == a);
    } else {
        assert((a + b).drop_last() == a + b.drop_last());
        lemma_count_of_concat(a, b.drop_last(), c);
    }
}

/// Submitting empties the buffer and puts the cursor at the start, and the
/// log gains the submitted text followed by a line break and nothing else. A
/// text without a line break adds exactly one line to the log.
pub proof fn lemma_submit_adds_one_line(s: LoopState)
    ensures
        submitted(s).buffer.text.len() == 0,
        submitted(s).buffer.cursor == 0,
        submitted(s).log == s.log + s.buffer.text + seq!['\n'],
        count_of(s.buffer.text, '\n') == 0 ==> count_of(submitted(s).log, '\n') == count_of(
            s.log,
            '\n',
        ) + 1,
{
    let line = s.buffer.text;
    lemma_count_of_concat(s.log, line, '\n');
    lemma_count_of_concat(s.log + line, seq!['\n'], '\n');
    assert(seq!['\n'].drop_last() == Seq::<char>::empty());
    assert(count_of(Seq::<char>::empty(), '\n') == 0);
    assert(count_of(seq!['\n'], '\n') == 1);
}

/// The length of the command path among `tokens`, if they name a command
/// that can be run.
pub fn command_depth(grammar: &CommandGrammar, tokens: &Vec<Vec<char>>) -> (r: Option<usize>)
    ensures
        r is Some <==> leaf_depth(grammar@, views(tokens@), 0) is Some,
        r is Some ==> r->0 == leaf_depth(grammar@, views(tokens@), 0)->0,
        r is Some ==> 1 <= r->0 <= tokens@.len(),
{
    let ghost all = views(tokens@);
    let mut current: &[CommandNode] = grammar.roots();
    let mut k: usize = 0;
    while k < tokens.len()
        invariant
            k <= tokens@.len(),
            all == views(tokens@),
            leaf_depth(grammar@, all, 0) == leaf_depth(forest_of(current@), all, k as int),
        decreases tokens@.len() - k,
    {
        let i = position(current, &tokens[k]);
        if i >= current.len() {
            return None;
        }
        if current[i].is_leaf() {
            return Some(k + 1);
        }
        current = current[i].children();
        k += 1;
    }
    None
}

/// The command line between keys: the line under edit, the completions
/// listed last, and the log of the lines submitted so far.
pub struct InputLoop {
    buffer: TextBuffer,
    completions: Vec<String>,
    log: Vec<char>,
}

impl View for InputLoop {
    type V = LoopState;

    closed spec fn view(&self) -> LoopState {
        LoopState {
            buffer: self.buffer@,
            completions: texts(self.completions@),
            log: self.log@,
        }
    }
}

/// What is shown of the command line: the text under edit, the cursor as a
/// count of characters, the completions, and the log.
#[derive(Debug)]
pub struct Frame {
    pub buffer_text: String,
    pub cursor_offset: usize,
    pub completion_candidates: Vec<String>,
    pub log_text: String,
}

impl InputLoop {
    /// A command line with nothing typed, listed or logged.
    pub fn new() -> (r: InputLoop)
        ensures
            r@.buffer == BufferState::empty(),
            r@.completions.len() == 0,
            r@.log.len() == 0,
    {
        InputLoop { buffer: TextBuffer::new(), completions: Vec::new(), log: Vec::new() }
    }

    /// What is shown of the command line.
    pub fn frame(&self) -> (r: Frame)
        ensures
            r.buffer_text@ == self@.buffer.text,
            r.cursor_offset == self@.buffer.cursor,
            texts(r.completion_candidates@) == self@.completions,
            r.log_text@ == self@.log,
    {
        let mut candidates: Vec<String> = Vec::new();
        let mut i: usize = 0;
        while i < self.completions.len()
            invariant
                i <= self.completions@.len(),
                candidates@.len() == i,
                forall|k: int| 0 <= k < i ==> (#[trigger] candidates@[k])@ == self.completions@[k]@,
            decreases self.completions@.len() - i,
        {
            candidates.push(self.completions[i].clone());
            i += 1;
        }
        assert(texts(candidates@) =~= self@.completions);
        Frame {
            buffer_text: self.buffer.text(),
            cursor_offset: self.buffer.cursor(),
            completion_candidates: candidates,
            log_text: string_of(&self.log),
        }
    }

    /// Adds `text` to the log as a line of its own: what running a command
    /// gave, or why it could not be run.
    pub fn record(&mut self, text: &str)
        ensures
            final(self)@.log == logged(old(self)@.log, text@),
            final(self)@.buffer == old(self)@.buffer,
            final(self)@.completions == old(self)@.completions,
    {
        let line = chars_of(text);
        self.append_line(&line);
    }

    /// Reports through the log that `line` names no command that can be
    /// run.
    pub fn report_not_found(&mut self, line: &str)
        ensures
            final(self)@.log == logged(old(self)@.log, line@ + ": command not found"@),
            final(self)@.buffer == old(self)@.buffer,
            final(self)@.completions == old(self)@.completions,
    {
        let mut report = chars_of(line);
        extend_chars(&mut report, &chars_of(": command not found"));
        self.append_line(&report);
    }

    /// Adds `line` and a line break to the log.
    fn append_line(&mut self, line: &Vec<char>)
        ensures
            final(self)@.log == logged(old(self)@.log, line@),
            final(self)@.buffer == old(self)@.buffer,
            final(self)@.completions == old(self)@.completions,
    {
        extend_chars(&mut self.log, line);
        self.log.push('\n');
    }

    /// Takes the line under edit as submitted: adds it to the log, empties
    /// the buffer, and tells what the line asks for.
    fn submit(&mut self, grammar: &CommandGrammar) -> (r: Outcome)
        ensures
            final(self)@ == submitted(old(self)@),
            asks_for(grammar@, old(self)@.buffer.text, r),
    {
        let line = copy_chars(self.buffer.chars());
        self.append_line(&line);
        self.buffer.reset();
        let words = split_tokens(&line);
        match command_depth(grammar, &words) {
            Some(depth) => {
                let mut path_words = words;
                let rest = path_words.split_off(depth);
                let mut space: Vec<char> = Vec::new();
                space.push(' ');
                let arguments = string_of(&join_by(&rest, &space));
                let path = strings_of(&path_words);
                proof {
                    let all = tokens(line@);
                    assert(views(rest@) =~= all.skip(depth as int));
                    assert(space@ == seq![' ']);
                    assert(texts(path@) =~= all.take(depth as int));
                }
                Outcome::Dispatch { path, arguments }
            },
            None => Outcome::NotFound { line: string_of(&line) },
        }
    }

    /// Takes one key in.
    ///
    /// A character is inserted at the cursor. Backspace deletes before the
    /// cursor, Left and Right move it. Tab completes the line against
    /// `grammar` and replaces the list of completions. Enter submits the
    /// line. Ctrl-C and Ctrl-D end the loop and change nothing. Only Enter
    /// touches the log, and only by adding to it.
    pub fn handle(&mut self, grammar: &CommandGrammar, event: KeyEvent) -> (r: Outcome)
        ensures
            old(self)@.log.is_prefix_of(final(self)@.log),
            match event {
                KeyEvent::Char(c) => {
                    &&& r is Continue
                    &&& final(self)@ == (LoopState {
                        buffer: old(self)@.buffer.insert_char(c),
                        ..old(self)@
                    })
                },
                KeyEvent::Backspace => {
                    &&& r is Continue
                    &&& final(self)@ == (LoopState {
                        buffer: old(self)@.buffer.delete_char_before_cursor(),
                        ..old(self)@
                    })
                },
                KeyEvent::Left => {
                    &&& r is Continue
                    &&& final(self)@ == (LoopState {
                        buffer: old(self)@.buffer.move_left(),
                        ..old(self)@
                    })
                },
                KeyEvent::Right => {
                    &&& r is Continue
                    &&& final(self)@ == (LoopState {
                        buffer: old(self)@.buffer.move_right(),
                        ..old(self)@
                    })
                },
                KeyEvent::Tab => {
                    let found = survivors(grammar@, old(self)@.buffer.text);
                    &&& r is Continue
                    &&& final(self)@.log == old(self)@.log
                    &&& completion_of(
                        old(self)@.buffer.text,
                        found,
                        final(self)@.buffer.text,
                        final(self)@.completions,
                    )
                    &&& found.len() == 1 ==> final(self)@.buffer == BufferState::filled(
                        final(self)@.buffer.text,
                    )
                    &&& found.len() != 1 ==> final(self)@.buffer == old(self)@.buffer
                },
                KeyEvent::Enter => {
                    &&& final(self)@ == submitted(old(self)@)
                    &&& asks_for(grammar@, old(self)@.buffer.text, r)
                },
                KeyEvent::CtrlC | KeyEvent::CtrlD => {
                    &&& r is Quit
                    &&& final(self)@ == old(self)@
                },
            },
    {
        match event {
            KeyEvent::Char(c) => {
                self.buffer.insert_char(c);
                Outcome::Continue
            },
            KeyEvent::Backspace => {
                self.buffer.delete_char_before_cursor();
                Outcome::Continue
            },
            KeyEvent::Left => {
                self.buffer.move_left();
                Outcome::Continue
            },
            KeyEvent::Right => {
                self.buffer.move_right();
                Outcome::Continue
            },
            KeyEvent::Tab => {
                self.completions = complete(grammar, &mut self.buffer);
                Outcome::Continue
            },
            KeyEvent::Enter => self.submit(grammar),
            KeyEvent::CtrlC | KeyEvent::CtrlD => Outcome::Quit,
        }
    }
}

} // verus!
