//! The edit buffer of the command line: a sequence of characters and a cursor
//! that counts characters from the start.

use vstd::prelude::*;
use crate::chars::string_of;

verus! {

/// What a buffer holds: its characters and the position of its cursor.
pub struct BufferState {
    pub text: Seq<char>,
    pub cursor: int,
}

impl BufferState {
    /// The cursor lies on or between the characters.
    pub open spec fn wf(self) -> bool {
        0 <= self.cursor <= self.text.len()
    }

    /// No characters, cursor at the start.
    pub open spec fn empty() -> BufferState {
        BufferState { text: Seq::empty(), cursor: 0 }
    }

    /// `pos` bounded to the positions a cursor may take.
    pub open spec fn clamp(self, pos: int) -> int {
        if pos < 0 {
            0
        } else if pos > self.text.len() {
            self.text.len() as int
        } else {
            pos
        }
    }

    /// `c` inserted at the cursor, the cursor one further.
    pub open spec fn insert_char(self, c: char) -> BufferState {
        let at = self.clamp(self.cursor);
        BufferState { text: self.text.insert(at, c), cursor: at + 1 }
    }

    /// The character before the cursor removed and the cursor one back;
    /// the text unchanged with the cursor at the start.
    pub open spec fn delete_char_before_cursor(self) -> BufferState {
        let at = self.clamp(self.cursor);
        if at > 0 {
            BufferState { text: self.text.remove(at - 1), cursor: at - 1 }
        } else {
            BufferState { text: self.text, cursor: at }
        }
    }

    /// The cursor one character back, staying at the start.
    pub open spec fn move_left(self) -> BufferState {
        BufferState { text: self.text, cursor: self.clamp(self.cursor - 1) }
    }

    /// The cursor one character on, staying at the end.
    pub open spec fn move_right(self) -> BufferState {
        BufferState { text: self.text, cursor: self.clamp(self.cursor + 1) }
    }

    /// `text` as the whole content, the cursor behind it.
    pub open spec fn filled(text: Seq<char>) -> BufferState {
        BufferState { text, cursor: text.len() as int }
    }
}

/// Every operation leaves the cursor within the text, whatever it was given:
/// each routes the cursor through `clamp`.
pub proof fn lemma_operations_give_wf(b: BufferState, c: char)
    ensures
        0 <= b.clamp(b.cursor) <= b.text.len(),
        BufferState::empty().wf(),
        b.insert_char(c).wf(),
        b.delete_char_before_cursor().wf(),
        b.move_left().wf(),
        b.move_right().wf(),
        BufferState::filled(b.text).wf(),
{
}

/// Moving left and then right brings the cursor back, unless it stood at the
/// start; there it ends one character in, or stays put in an empty buffer.
pub proof fn lemma_left_then_right(b: BufferState)
    requires
        b.wf(),
    ensures
        b.cursor > 0 ==> b.move_left().move_right() == b,
        b.cursor == 0 ==> b.move_left().move_right().cursor == b.clamp(1),
        b.move_left().move_right().text == b.text,
{
}

/// Moving right and then left brings the cursor back, unless it stood at the
/// end; there it ends one character before the end, or stays put in an empty
/// buffer.
pub proof fn lemma_right_then_left(b: BufferState)
    requires
        b.wf(),
    ensures
        b.cursor < b.text.len() ==> b.move_right().move_left() == b,
        b.cursor == b.text.len() ==> b.move_right().move_left().cursor == b.clamp(
            b.text.len() - 1,
        ),
        b.move_right().move_left().text == b.text,
{
}

impl BufferState {
    /// The cursor moved back `n` times.
    pub open spec fn move_left_by(self, n: nat) -> BufferState
        decreases n,
    {
        if n == 0 {
            self
        } else {
            self.move_left().move_left_by((n - 1) as nat)
        }
    }

    /// The cursor moved on `n` times.
    pub open spec fn move_right_by(self, n: nat) -> BufferState
        decreases n,
    {
        if n == 0 {
            self
        } else {
            self.move_right().move_right_by((n - 1) as nat)
        }
    }
}

/// Moving back `n` times leaves the text and takes the cursor `n` characters
/// back, or to the start where fewer stand before it.
pub proof fn lemma_move_left_by(b: BufferState, n: nat)
    requires
        b.wf(),
    ensures
        b.move_left_by(n).text == b.text,
        b.move_left_by(n).cursor == if b.cursor >= n {
            b.cursor - n
        } else {
            0
        },
    decreases n,
{
    if n > 0 {
        lemma_move_left_by(b.move_left(), (n - 1) as nat);
    }
}

/// Moving on `n` times leaves the text and takes the cursor `n` characters
/// on, or to the end where fewer stand behind it.
pub proof fn lemma_move_right_by(b: BufferState, n: nat)
    requires
        b.wf(),
    ensures
        b.move_right_by(n).text == b.text,
        b.move_right_by(n).cursor == if b.cursor + n <= b.text.len() {
            b.cursor + n
        } else {
            b.text.len() as int
        },
    decreases n,
{
    if n > 0 {
        lemma_move_right_by(b.move_right(), (n - 1) as nat);
    }
}

/// Any number of moves one way followed by as many the other way brings the
/// cursor back, unless a boundary was met on the way.
pub proof fn lemma_moves_cancel(b: BufferState, n: nat)
    requires
        b.wf(),
    ensures
        b.cursor >= n ==> b.move_left_by(n).move_right_by(n) == b,
        b.cursor + n <= b.text.len() ==> b.move_right_by(n).move_left_by(n) == b,
{
    lemma_move_left_by(b, n);
    lemma_move_right_by(b, n);
    lemma_move_right_by(b.move_left_by(n), n);
    lemma_move_left_by(b.move_right_by(n), n);
}

/// Inserting a character, whatever its encoded width, makes the text exactly
/// one character longer, and deleting right after gives back the buffer as it
/// was.
pub proof fn lemma_insert_then_delete(b: BufferState, c: char)
    requires
        b.wf(),
    ensures
        b.insert_char(c).text.len() == b.text.len() + 1,
        b.insert_char(c).text[b.cursor] == c,
        b.insert_char(c).delete_char_before_cursor() == b,
{
    let after = b.insert_char(c);
    assert(after.text.remove(after.cursor - 1) =~= b.text);
}

/// A line of text under edit, with a cursor between its characters.
pub struct TextBuffer {
    content: Vec<char>,
    cursor: usize,
}

impl View for TextBuffer {
    type V = BufferState;

    closed spec fn view(&self) -> BufferState {
        BufferState { text: self.content@, cursor: self.cursor as int }
    }
}

impl TextBuffer {
    /// An empty buffer.
    pub fn new() -> (r: TextBuffer)
        ensures
            r@ == BufferState::empty(),
    {
        TextBuffer { content: Vec::new(), cursor: 0 }
    }

    /// The number of characters held.
    pub fn char_count(&self) -> (r: usize)
        ensures
            r == self@.text.len(),
    {
        self.content.len()
    }

    /// The cursor, as a count of characters from the start.
    pub fn cursor(&self) -> (r: usize)
        ensures
            r == self@.cursor,
    {
        self.cursor
    }

    /// The characters held.
    pub fn chars(&self) -> (r: &Vec<char>)
        ensures
            r@ == self@.text,
    {
        &self.content
    }

    /// The content as a string.
    pub fn text(&self) -> (r: String)
        ensures
            r@ == self@.text,
    {
        string_of(&self.content)
    }

    /// Bounds `pos` to the positions the cursor may take.
    pub fn clamp(&self, pos: usize) -> (r: usize)
        ensures
            r == self@.clamp(pos as int),
            r <= self@.text.len(),
    {
        if pos > self.content.len() {
            self.content.len()
        } else {
            pos
        }
    }

    /// Inserts `c` at the cursor and moves the cursor behind it.
    pub fn insert_char(&mut self, c: char)
        ensures
            final(self)@ == old(self)@.insert_char(c),
            final(self)@.wf(),
    {
        let at = self.clamp(self.cursor);
        self.content.insert(at, c);
        assert(at < self.content.len() <= usize::MAX);
        self.cursor = self.clamp(at + 1);
    }

    /// Removes the character before the cursor and moves the cursor one back;
    /// does nothing with the cursor at the start.
    pub fn delete_char_before_cursor(&mut self)
        ensures
            final(self)@ == old(self)@.delete_char_before_cursor(),
            final(self)@.wf(),
    {
        let at = self.clamp(self.cursor);
        if at > 0 {
            self.content.remove(at - 1);
            self.cursor = at - 1;
        } else {
            self.cursor = at;
        }
    }

    /// Moves the cursor one character back; it stays at the start.
    pub fn move_left(&mut self)
        ensures
            final(self)@ == old(self)@.move_left(),
            final(self)@.wf(),
    {
        let back = if self.cursor > 0 {
            self.cursor - 1
        } else {
            0
        };
        self.cursor = self.clamp(back);
    }

    /// Moves the cursor one character on; it stays at the end.
    pub fn move_right(&mut self)
        ensures
            final(self)@ == old(self)@.move_right(),
            final(self)@.wf(),
    {
        let on = if self.cursor < self.content.len() {
            self.cursor + 1
        } else {
            self.cursor
        };
        self.cursor = self.clamp(on);
    }

    /// Clears the content and puts the cursor at the start.
    pub fn reset(&mut self)
        ensures
            final(self)@ == BufferState::empty(),
    {
        self.content.clear();
        self.cursor = self.clamp(0);
    }

    /// Replaces the content by `content` and puts the cursor behind it.
    pub fn fill(&mut self, content: Vec<char>)
        ensures
            final(self)@ == BufferState::filled(content@),
    {
        self.content = content;
        self.cursor = self.clamp(self.content.len());
    }
}

} // verus!
