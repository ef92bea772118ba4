//! Envelopes as the list of messages shows them: what is known of a message
//! without its body, the flags it carries, and the table the list is drawn
//! as.

use vstd::prelude::*;
use vstd::std_specs::cmp::PartialEqSpecImpl;
use vstd::std_specs::convert::{FromSpec, FromSpecImpl};
use crate::color::Color;

verus! {

/// `comfy_table::presets::ASCII_MARKDOWN`: the preset of the table drawing
/// crate under which a table comes out as Markdown writes one. The contract
/// states the constant's value.
#[verifier::external_body]
fn ascii_markdown() -> (r: &'static str)
    ensures
        r@ == "||  |-|||           "@,
{
    comfy_table::presets::ASCII_MARKDOWN
}

/// A flag, as plain values.
pub enum FlagView {
    Seen,
    Answered,
    Flagged,
    Deleted,
    Draft,
    Custom(Seq<char>),
}

/// A flag that a message carries.
#[derive(Clone, Debug)]
pub enum Flag {
    Seen,
    Answered,
    Flagged,
    Deleted,
    Draft,
    Custom(String),
}

impl View for Flag {
    type V = FlagView;

    open spec fn view(&self) -> FlagView {
        match self {
            Flag::Seen => FlagView::Seen,
            Flag::Answered => FlagView::Answered,
            Flag::Flagged => FlagView::Flagged,
            Flag::Deleted => FlagView::Deleted,
            Flag::Draft => FlagView::Draft,
            Flag::Custom(name) => FlagView::Custom(name@),
        }
    }
}

impl PartialEq for Flag {
    fn eq(&self, other: &Flag) -> (r: bool) {
        match self {
            Flag::Seen => matches!(other, Flag::Seen),
            Flag::Answered => matches!(other, Flag::Answered),
            Flag::Flagged => matches!(other, Flag::Flagged),
            Flag::Deleted => matches!(other, Flag::Deleted),
            Flag::Draft => matches!(other, Flag::Draft),
            Flag::Custom(a) => match other {
                Flag::Custom(b) => *a == *b,
                _ => false,
            },
        }
    }
}

impl PartialEqSpecImpl for Flag {
    open spec fn obeys_eq_spec() -> bool {
        true
    }

    open spec fn eq_spec(&self, other: &Flag) -> bool {
        self@ == other@
    }
}

impl Eq for Flag {

}

/// The flags of a message: a set, held in the order in which the flags came.
#[derive(Clone, Debug)]
pub struct Flags {
    items: Vec<Flag>,
}

impl View for Flags {
    type V = Set<FlagView>;

    closed spec fn view(&self) -> Set<FlagView> {
        Set::new(|f: FlagView| exists|i: int| 0 <= i < self.items@.len() && self.items@[i]@ == f)
    }
}

impl Flags {
    /// No flags.
    pub fn new() -> (r: Flags)
        ensures
            r@ == Set::<FlagView>::empty(),
    {
        let r = Flags { items: Vec::new() };
        assert(r@ =~= Set::<FlagView>::empty());
        r
    }

    /// Tells whether `flag` is among the flags.
    pub fn contains(&self, flag: &Flag) -> (r: bool)
        ensures
            r == self@.contains(flag@),
    {
        let mut i: usize = 0;
        while i < self.items.len()
            invariant
                i <= self.items@.len(),
                forall|k: int| 0 <= k < i ==> (#[trigger] self.items@[k])@ != flag@,
            decreases self.items@.len() - i,
        {
            if self.items[i] == *flag {
                return true;
            }
            i += 1;
        }
        false
    }

    /// Adds `flag` to the flags. Returns whether it was not among them
    /// before.
    pub fn insert(&mut self, flag: Flag) -> (r: bool)
        ensures
            final(self)@ == old(self)@.insert(flag@),
            r == !old(self)@.contains(flag@),
    {
        if self.contains(&flag) {
            assert(self@ =~= self@.insert(flag@));
            false
        } else {
            let ghost before = self.items@;
            self.items.push(flag);
            proof {
                assert forall|f: FlagView| self@.contains(f) <==> old(self)@.insert(flag@).contains(
                    f,
                ) by {
                    if old(self)@.contains(f) {
                        let i = choose|i: int| 0 <= i < before.len() && before[i]@ == f;
                        assert(self.items@[i]@ == f);
                    }
                    if f == flag@ {
                        assert(self.items@[before.len() as int]@ == f);
                    }
                }
                assert(self@ =~= old(self)@.insert(flag@));
            }
            true
        }
    }

    /// The set of the flags of `flags`.
    pub fn from_vec(flags: Vec<Flag>) -> (r: Flags)
        ensures
            r@ == Set::new(|f: FlagView| exists|i: int| 0 <= i < flags@.len() && flags@[i]@ == f),
    {
        let mut out = Flags::new();
        let mut rest = flags;
        let ghost all = flags@;
        while rest.len() > 0
            invariant
                rest@.len() <= all.len(),
                rest@ == all.take(rest@.len() as int),
                out@ == Set::new(
                    |f: FlagView| exists|i: int| rest@.len() <= i < all.len() && all[i]@ == f,
                ),
            decreases rest@.len(),
        {
            let ghost before = out@;
            let ghost at = rest@.len() - 1;
            let flag = rest.pop().unwrap();
            assert(flag == all[at]);
            out.insert(flag);
            assert(out@ =~= Set::new(
                |f: FlagView| exists|i: int| rest@.len() <= i < all.len() && all[i]@ == f,
            )) by {
                assert forall|f: FlagView| out@.contains(f) implies exists|i: int|
                    rest@.len() <= i < all.len() && all[i]@ == f by {
                    if before.contains(f) {
                        let i = choose|i: int| at + 1 <= i < all.len() && all[i]@ == f;
                        assert(rest@.len() <= i < all.len() && all[i]@ == f);
                    } else {
                        assert(all[at]@ == f);
                    }
                }
                assert forall|f: FlagView|
                    (exists|i: int| rest@.len() <= i < all.len() && all[i]@ == f) implies out@.contains(
                    f,
                ) by {
                    let i = choose|i: int| rest@.len() <= i < all.len() && all[i]@ == f;
                    if i > at {
                        assert(before.contains(f));
                    }
                }
            }
        }
        out
    }
}

impl Default for Flags {
    fn default() -> (r: Flags)
        ensures
            r@ == Set::<FlagView>::empty(),
    {
        Flags::new()
    }
}

/// A sender or a recipient.
#[derive(Clone, Debug)]
pub struct Mailbox {
    pub name: Option<String>,
    pub addr: String,
}

impl Mailbox {
    /// What the list shows of the mailbox: its name, or its address where it
    /// has no name.
    pub open spec fn spec_shown(self) -> Seq<char> {
        match self.name {
            Some(name) => name@,
            None => self.addr@,
        }
    }

    /// What the list shows of the mailbox: its name, or its address where it
    /// has no name.
    pub fn shown(&self) -> (r: &str)
        ensures
            r@ == self.spec_shown(),
    {
        match &self.name {
            Some(name) => name.as_str(),
            None => self.addr.as_str(),
        }
    }
}

impl Default for Mailbox {
    fn default() -> (r: Mailbox)
        ensures
            r.name is None,
            r.addr@ == Seq::<char>::empty(),
    {
        Mailbox { name: None, addr: String::new() }
    }
}

/// What the list of messages knows of one message.
#[derive(Clone, Debug)]
pub struct Envelope {
    pub id: String,
    pub flags: Flags,
    pub subject: String,
    pub from: Mailbox,
    pub to: Mailbox,
    pub date: String,
    pub has_attachment: bool,
}

impl Default for Envelope {
    fn default() -> (r: Envelope)
        ensures
            r.id@ == Seq::<char>::empty(),
            r.flags@ == Set::<FlagView>::empty(),
            r.subject@ == Seq::<char>::empty(),
            r.from.name is None,
            r.from.addr@ == Seq::<char>::empty(),
            r.to.name is None,
            r.to.addr@ == Seq::<char>::empty(),
            r.date@ == Seq::<char>::empty(),
            !r.has_attachment,
    {
        Envelope {
            id: String::new(),
            flags: Flags::new(),
            subject: String::new(),
            from: Mailbox::default(),
            to: Mailbox::default(),
            date: String::new(),
            has_attachment: false,
        }
    }
}

/// How the table of envelopes is drawn: the preset of its borders, the
/// characters that mark a message in the flags column, and the color of each
/// column. What is not set takes a fixed default.
#[derive(Clone, Debug)]
pub struct ListEnvelopesTableConfig {
    pub preset: Option<String>,
    pub unseen_char: Option<char>,
    pub replied_char: Option<char>,
    pub flagged_char: Option<char>,
    pub attachment_char: Option<char>,
    pub id_color: Option<Color>,
    pub flags_color: Option<Color>,
    pub subject_color: Option<Color>,
    pub sender_color: Option<Color>,
    pub date_color: Option<Color>,
}

/// The character that marks a message in the flags column: `chosen`, or
/// `fallback` where none is set, if the mark applies, and a blank if not.
pub open spec fn mark(chosen: Option<char>, fallback: char, applies: bool) -> char {
    if applies {
        match chosen {
            Some(c) => c,
            None => fallback,
        }
    } else {
        ' '
    }
}

/// The color of a column: `chosen`, or `fallback` where none is set.
pub open spec fn tint(chosen: Option<Color>, fallback: Color) -> Color {
    match chosen {
        Some(c) => c,
        None => fallback,
    }
}

impl ListEnvelopesTableConfig {
    /// The preset of the table's borders: the one set, or the one that draws
    /// the table as Markdown writes it.
    pub open spec fn spec_preset(self) -> Seq<char> {
        match self.preset {
            Some(preset) => preset@,
            None => "||  |-|||           "@,
        }
    }

    /// The preset of the table's borders.
    pub fn preset(&self) -> (r: &str)
        ensures
            r@ == self.spec_preset(),
    {
        match &self.preset {
            Some(preset) => preset.as_str(),
            None => ascii_markdown(),
        }
    }

    /// The mark of a message that was answered: `R` where none is set.
    pub fn replied_char(&self, replied: bool) -> (r: char)
        ensures
            r == mark(self.replied_char, 'R', replied),
    {
        if replied {
            self.replied_char.unwrap_or('R')
        } else {
            ' '
        }
    }

    /// The mark of a message that is flagged: `!` where none is set.
    pub fn flagged_char(&self, flagged: bool) -> (r: char)
        ensures
            r == mark(self.flagged_char, '!', flagged),
    {
        if flagged {
            self.flagged_char.unwrap_or('!')
        } else {
            ' '
        }
    }

    /// The mark of a message with an attachment: `@` where none is set.
    pub fn attachment_char(&self, attachment: bool) -> (r: char)
        ensures
            r == mark(self.attachment_char, '@', attachment),
    {
        if attachment {
            self.attachment_char.unwrap_or('@')
        } else {
            ' '
        }
    }

    /// The mark of a message that was not read yet: `*` where none is set.
    pub fn unseen_char(&self, unseen: bool) -> (r: char)
        ensures
            r == mark(self.unseen_char, '*', unseen),
    {
        if unseen {
            self.unseen_char.unwrap_or('*')
        } else {
            ' '
        }
    }

    /// The color of the column of identifiers: red where none is set.
    pub fn id_color(&self) -> (r: Color)
        ensures
            r == tint(self.id_color, Color::Red),
    {
        self.id_color.unwrap_or(Color::Red)
    }

    /// The color of the column of flags: the terminal's own where none is
    /// set.
    pub fn flags_color(&self) -> (r: Color)
        ensures
            r == tint(self.flags_color, Color::Reset),
    {
        self.flags_color.unwrap_or(Color::Reset)
    }

    /// The color of the column of subjects: green where none is set.
    pub fn subject_color(&self) -> (r: Color)
        ensures
            r == tint(self.subject_color, Color::Green),
    {
        self.subject_color.unwrap_or(Color::Green)
    }

    /// The color of the column of senders: blue where none is set.
    pub fn sender_color(&self) -> (r: Color)
        ensures
            r == tint(self.sender_color, Color::Blue),
    {
        self.sender_color.unwrap_or(Color::Blue)
    }

    /// The color of the column of dates: dark yellow where none is set.
    pub fn date_color(&self) -> (r: Color)
        ensures
            r == tint(self.date_color, Color::DarkYellow),
    {
        self.date_color.unwrap_or(Color::DarkYellow)
    }
}

impl Default for ListEnvelopesTableConfig {
    fn default() -> (r: ListEnvelopesTableConfig)
        ensures
            r.preset is None,
            r.unseen_char is None,
            r.replied_char is None,
            r.flagged_char is None,
            r.attachment_char is None,
            r.id_color is None,
            r.flags_color is None,
            r.subject_color is None,
            r.sender_color is None,
            r.date_color is None,
    {
        ListEnvelopesTableConfig {
            preset: None,
            unseen_char: None,
            replied_char: None,
            flagged_char: None,
            attachment_char: None,
            id_color: None,
            flags_color: None,
            subject_color: None,
            sender_color: None,
            date_color: None,
        }
    }
}

/// A cell of the table, as plain values.
pub struct CellView {
    pub content: Seq<char>,
    pub bold: bool,
    pub fg: Color,
}

/// A cell of the table: its text, whether it is drawn bold, and its color.
#[derive(Clone, Debug)]
pub struct Cell {
    pub content: String,
    pub bold: bool,
    pub fg: Color,
}

impl View for Cell {
    type V = CellView;

    open spec fn view(&self) -> CellView {
        CellView { content: self.content@, bold: self.bold, fg: self.fg }
    }
}

/// A row of the table: its cells, and how many lines of text it may take.
#[derive(Clone, Debug)]
pub struct Row {
    pub cells: Vec<Cell>,
    pub max_height: Option<usize>,
}

impl Row {
    /// The cells of the row, as plain values.
    pub open spec fn spec_cells(self) -> Seq<CellView> {
        Seq::new(self.cells@.len(), |i: int| self.cells@[i]@)
    }
}

impl Envelope {
    /// Whether the message was not read yet: it does not carry the flag
    /// `Seen`.
    pub open spec fn spec_unseen(self) -> bool {
        !self.flags@.contains(FlagView::Seen)
    }

    /// The flags column of the message: the marks for flagged, unseen,
    /// attachment and replied, in this order.
    pub open spec fn spec_flags_column(self, config: ListEnvelopesTableConfig) -> Seq<char> {
        seq![
            mark(config.flagged_char, '!', self.flags@.contains(FlagView::Flagged)),
            mark(config.unseen_char, '*', self.spec_unseen()),
            mark(config.attachment_char, '@', self.has_attachment),
            mark(config.replied_char, 'R', self.flags@.contains(FlagView::Answered)),
        ]
    }

    /// The cells of the message's row: identifier, flags, subject, sender and
    /// date, each in the color of its column, and all bold where the message
    /// was not read yet.
    pub open spec fn spec_row(self, config: ListEnvelopesTableConfig) -> Seq<CellView> {
        let bold = self.spec_unseen();
        seq![
            CellView { content: self.id@, bold, fg: tint(config.id_color, Color::Red) },
            CellView {
                content: self.spec_flags_column(config),
                bold,
                fg: tint(config.flags_color, Color::Reset),
            },
            CellView { content: self.subject@, bold, fg: tint(config.subject_color, Color::Green) },
            CellView {
                content: self.from.spec_shown(),
                bold,
                fg: tint(config.sender_color, Color::Blue),
            },
            CellView { content: self.date@, bold, fg: tint(config.date_color, Color::DarkYellow) },
        ]
    }

    /// The flags column of the message.
    pub fn flags_column(&self, config: &ListEnvelopesTableConfig) -> (r: String)
        ensures
            r@ == self.spec_flags_column(*config),
    {
        let unseen = !self.flags.contains(&Flag::Seen);
        let mut flags = String::new();
        flags.push(config.flagged_char(self.flags.contains(&Flag::Flagged)));
        flags.push(config.unseen_char(unseen));
        flags.push(config.attachment_char(self.has_attachment));
        flags.push(config.replied_char(self.flags.contains(&Flag::Answered)));
        assert(flags@ =~= self.spec_flags_column(*config));
        flags
    }

    /// The row of the message in the table, one line high.
    pub fn to_row(&self, config: &ListEnvelopesTableConfig) -> (r: Row)
        ensures
            r.spec_cells() == self.spec_row(*config),
            r.max_height == Some(1usize),
    {
        let bold = !self.flags.contains(&Flag::Seen);
        let mut cells: Vec<Cell> = Vec::new();
        cells.push(Cell { content: self.id.clone(), bold, fg: config.id_color() });
        cells.push(Cell { content: self.flags_column(config), bold, fg: config.flags_color() });
        cells.push(Cell { content: self.subject.clone(), bold, fg: config.subject_color() });
        cells.push(
            Cell { content: self.from.shown().to_owned(), bold, fg: config.sender_color() },
        );
        cells.push(Cell { content: self.date.clone(), bold, fg: config.date_color() });
        let r = Row { cells, max_height: Some(1) };
        assert(r.spec_cells() =~= self.spec_row(*config));
        r
    }
}

/// The envelopes of a list, in the order in which they are shown.
#[derive(Clone, Debug)]
pub struct Envelopes(Vec<Envelope>);

impl View for Envelopes {
    type V = Seq<Envelope>;

    closed spec fn view(&self) -> Seq<Envelope> {
        self.0@
    }
}

impl Envelopes {
    /// The list of `envelopes`.
    pub fn new(envelopes: Vec<Envelope>) -> (r: Envelopes)
        ensures
            r@ == envelopes@,
    {
        Envelopes(envelopes)
    }

    /// The envelopes of the list.
    pub fn as_vec(&self) -> (r: &Vec<Envelope>)
        ensures
            r@ == self@,
    {
        &self.0
    }
}

impl Default for Envelopes {
    fn default() -> (r: Envelopes)
        ensures
            r@ == Seq::<Envelope>::empty(),
    {
        Envelopes(Vec::new())
    }
}

/// The table of a list of envelopes: the envelopes, the width the table is
/// drawn at, if one is fixed, and how it is drawn.
pub struct EnvelopesTable {
    envelopes: Envelopes,
    width: Option<u16>,
    config: ListEnvelopesTableConfig,
}

impl EnvelopesTable {
    /// The envelopes of the table.
    pub closed spec fn spec_envelopes(self) -> Envelopes {
        self.envelopes
    }

    /// The width the table is drawn at, if one is fixed.
    pub closed spec fn spec_width(self) -> Option<u16> {
        self.width
    }

    /// How the table is drawn.
    pub closed spec fn spec_config(self) -> ListEnvelopesTableConfig {
        self.config
    }

    /// The envelopes of the table.
    pub fn envelopes(&self) -> (r: &Envelopes)
        ensures
            *r == self.spec_envelopes(),
    {
        &self.envelopes
    }

    /// The width the table is drawn at, if one is fixed.
    pub fn width(&self) -> (r: Option<u16>)
        ensures
            r == self.spec_width(),
    {
        self.width
    }

    /// How the table is drawn.
    pub fn config(&self) -> (r: &ListEnvelopesTableConfig)
        ensures
            *r == self.spec_config(),
    {
        &self.config
    }

    /// The table drawn at `width`, or as wide as its content asks where
    /// `width` is `None`.
    pub fn with_some_width(self, width: Option<u16>) -> (r: EnvelopesTable)
        ensures
            r.spec_width() == width,
            r.spec_envelopes() == self.spec_envelopes(),
            r.spec_config() == self.spec_config(),
    {
        let mut table = self;
        table.width = width;
        table
    }

    /// The table with the border preset `preset`.
    pub fn with_some_preset(self, preset: Option<String>) -> (r: EnvelopesTable)
        ensures
            r.spec_config() == (ListEnvelopesTableConfig { preset, ..self.spec_config() }),
            r.spec_envelopes() == self.spec_envelopes(),
            r.spec_width() == self.spec_width(),
    {
        let mut table = self;
        table.config.preset = preset;
        table
    }

    /// The table with `c` as the mark of unseen messages.
    pub fn with_some_unseen_char(self, c: Option<char>) -> (r: EnvelopesTable)
        ensures
            r.spec_config() == (ListEnvelopesTableConfig { unseen_char: c, ..self.spec_config() }),
            r.spec_envelopes() == self.spec_envelopes(),
            r.spec_width() == self.spec_width(),
    {
        let mut table = self;
        table.config.unseen_char = c;
        table
    }

    /// The table with `c` as the mark of answered messages.
    pub fn with_some_replied_char(self, c: Option<char>) -> (r: EnvelopesTable)
        ensures
            r.spec_config() == (ListEnvelopesTableConfig { replied_char: c, ..self.spec_config() }),
            r.spec_envelopes() == self.spec_envelopes(),
            r.spec_width() == self.spec_width(),
    {
        let mut table = self;
        table.config.replied_char = c;
        table
    }

    /// The table with `c` as the mark of flagged messages.
    pub fn with_some_flagged_char(self, c: Option<char>) -> (r: EnvelopesTable)
        ensures
            r.spec_config() == (ListEnvelopesTableConfig { flagged_char: c, ..self.spec_config() }),
            r.spec_envelopes() == self.spec_envelopes(),
            r.spec_width() == self.spec_width(),
    {
        let mut table = self;
        table.config.flagged_char = c;
        table
    }

    /// The table with `c` as the mark of messages with an attachment.
    pub fn with_some_attachment_char(self, c: Option<char>) -> (r: EnvelopesTable)
        ensures
            r.spec_config() == (ListEnvelopesTableConfig {
                attachment_char: c,
                ..self.spec_config()
            }),
            r.spec_envelopes() == self.spec_envelopes(),
            r.spec_width() == self.spec_width(),
    {
        let mut table = self;
        table.config.attachment_char = c;
        table
    }

    /// The table with the column of identifiers in `color`.
    pub fn with_some_id_color(self, color: Option<Color>) -> (r: EnvelopesTable)
        ensures
            r.spec_config() == (ListEnvelopesTableConfig { id_color: color, ..self.spec_config() }),
            r.spec_envelopes() == self.spec_envelopes(),
            r.spec_width() == self.spec_width(),
    {
        let mut table = self;
        table.config.id_color = color;
        table
    }

    /// The table with the column of flags in `color`.
    pub fn with_some_flags_color(self, color: Option<Color>) -> (r: EnvelopesTable)
        ensures
            r.spec_config() == (ListEnvelopesTableConfig {
                flags_color: color,
                ..self.spec_config()
            }),
            r.spec_envelopes() == self.spec_envelopes(),
            r.spec_width() == self.spec_width(),
    {
        let mut table = self;
        table.config.flags_color = color;
        table
    }

    /// The table with the column of subjects in `color`.
    pub fn with_some_subject_color(self, color: Option<Color>) -> (r: EnvelopesTable)
        ensures
            r.spec_config() == (ListEnvelopesTableConfig {
                subject_color: color,
                ..self.spec_config()
            }),
            r.spec_envelopes() == self.spec_envelopes(),
            r.spec_width() == self.spec_width(),
    {
        let mut table = self;
        table.config.subject_color = color;
        table
    }

    /// The table with the column of senders in `color`.
    pub fn with_some_sender_color(self, color: Option<Color>) -> (r: EnvelopesTable)
        ensures
            r.spec_config() == (ListEnvelopesTableConfig {
                sender_color: color,
                ..self.spec_config()
            }),
            r.spec_envelopes() == self.spec_envelopes(),
            r.spec_width() == self.spec_width(),
    {
        let mut table = self;
        table.config.sender_color = color;
        table
    }

    /// The table with the column of dates in `color`.
    pub fn with_some_date_color(self, color: Option<Color>) -> (r: EnvelopesTable)
        ensures
            r.spec_config() == (ListEnvelopesTableConfig {
                date_color: color,
                ..self.spec_config()
            }),
            r.spec_envelopes() == self.spec_envelopes(),
            r.spec_width() == self.spec_width(),
    {
        let mut table = self;
        table.config.date_color = color;
        table
    }

    /// The titles of the columns.
    pub fn header() -> (r: Vec<&'static str>)
        ensures
            r@.len() == 5,
            r@[0]@ == "ID"@,
            r@[1]@ == "FLAGS"@,
            r@[2]@ == "SUBJECT"@,
            r@[3]@ == "FROM"@,
            r@[4]@ == "DATE"@,
    {
        vec!["ID", "FLAGS", "SUBJECT", "FROM", "DATE"]
    }

    /// The rows of the table: one for each envelope, in order.
    pub fn rows(&self) -> (r: Vec<Row>)
        ensures
            r@.len() == self.spec_envelopes()@.len(),
            forall|i: int|
                0 <= i < r@.len() ==> (#[trigger] r@[i]).spec_cells() == self.spec_envelopes()@[i].spec_row(
                    self.spec_config(),
                ) && r@[i].max_height == Some(1usize),
    {
        let all = self.envelopes.as_vec();
        let mut out: Vec<Row> = Vec::new();
        let mut i: usize = 0;
        while i < all.len()
            invariant
                i <= all@.len(),
                all@ == self.spec_envelopes()@,
                out@.len() == i,
                forall|k: int|
                    0 <= k < i ==> (#[trigger] out@[k]).spec_cells() == all@[k].spec_row(
                        self.spec_config(),
                    ) && out@[k].max_height == Some(1usize),
            decreases all@.len() - i,
        {
            out.push(all[i].to_row(&self.config));
            i += 1;
        }
        out
    }
}

/// The table made from envelopes alone holds them, has no fixed width, and
/// is drawn as the defaults say.
pub proof fn lemma_table_from_envelopes(envelopes: Envelopes)
    ensures
        ({
            let table = <EnvelopesTable as FromSpec<Envelopes>>::from_spec(envelopes);
            &&& table.spec_envelopes() == envelopes
            &&& table.spec_width() == None::<u16>
            &&& table.spec_config().preset is None
            &&& table.spec_config().unseen_char is None
            &&& table.spec_config().replied_char is None
            &&& table.spec_config().flagged_char is None
            &&& table.spec_config().attachment_char is None
            &&& table.spec_config().id_color is None
            &&& table.spec_config().flags_color is None
            &&& table.spec_config().subject_color is None
            &&& table.spec_config().sender_color is None
            &&& table.spec_config().date_color is None
        }),
{
}

impl From<Envelopes> for EnvelopesTable {
    fn from(envelopes: Envelopes) -> (r: EnvelopesTable) {
        EnvelopesTable {
            envelopes,
            width: None,
            config: ListEnvelopesTableConfig {
                preset: None,
                unseen_char: None,
                replied_char: None,
                flagged_char: None,
                attachment_char: None,
                id_color: None,
                flags_color: None,
                subject_color: None,
                sender_color: None,
                date_color: None,
            },
        }
    }
}

impl FromSpecImpl<Envelopes> for EnvelopesTable {
    open spec fn obeys_from_spec() -> bool {
        true
    }

    closed spec fn from_spec(envelopes: Envelopes) -> EnvelopesTable {
        EnvelopesTable {
            envelopes,
            width: None,
            config: ListEnvelopesTableConfig {
                preset: None,
                unseen_char: None,
                replied_char: None,
                flagged_char: None,
                attachment_char: None,
                id_color: None,
                flags_color: None,
                subject_color: None,
                sender_color: None,
                date_color: None,
            },
        }
    }
}

} // verus!
