use himalaya_repl::color::Color;
use himalaya_repl::envelope::{
    Cell, Envelope, Envelopes, EnvelopesTable, Flag, Flags, ListEnvelopesTableConfig, Mailbox,
};

fn envelope(id: &str, flags: Vec<Flag>, name: Option<&str>, attachment: bool) -> Envelope {
    Envelope {
        id: id.to_string(),
        flags: Flags::from_vec(flags),
        subject: format!("subject {}", id),
        from: Mailbox { name: name.map(|n| n.to_string()), addr: "from@localhost".to_string() },
        to: Mailbox { name: None, addr: "to@localhost".to_string() },
        date: "2024-01-01 10:00".to_string(),
        has_attachment: attachment,
    }
}

fn contents(cells: &[Cell]) -> Vec<String> {
    cells.iter().map(|c| c.content.clone()).collect()
}

#[test]
fn flags_compare_by_kind_and_name() {
    assert!(Flag::Seen == Flag::Seen);
    assert!(Flag::Seen != Flag::Answered);
    assert!(Flag::Draft != Flag::Deleted);
    assert!(Flag::Flagged == Flag::Flagged);
    assert!(Flag::Custom("a".to_string()) == Flag::Custom("a".to_string()));
    assert!(Flag::Custom("a".to_string()) != Flag::Custom("b".to_string()));
    assert!(Flag::Custom("Seen".to_string()) != Flag::Seen);
}

#[test]
fn flags_are_a_set() {
    let mut flags = Flags::new();
    assert!(!flags.contains(&Flag::Seen));
    assert!(flags.insert(Flag::Seen));
    assert!(!flags.insert(Flag::Seen));
    assert!(flags.insert(Flag::Custom("x".to_string())));
    assert!(!flags.insert(Flag::Custom("x".to_string())));
    assert!(flags.insert(Flag::Custom("y".to_string())));
    assert!(flags.contains(&Flag::Seen));
    assert!(flags.contains(&Flag::Custom("x".to_string())));
    assert!(flags.contains(&Flag::Custom("y".to_string())));
    assert!(!flags.contains(&Flag::Custom("z".to_string())));
    assert!(!flags.contains(&Flag::Draft));
}

#[test]
fn flags_from_a_vector_hold_each_flag() {
    let flags = Flags::from_vec(vec![Flag::Draft, Flag::Seen, Flag::Draft]);
    assert!(flags.contains(&Flag::Draft));
    assert!(flags.contains(&Flag::Seen));
    assert!(!flags.contains(&Flag::Answered));
    assert!(!Flags::from_vec(Vec::new()).contains(&Flag::Seen));
    assert!(!Flags::default().contains(&Flag::Seen));
}

#[test]
fn defaults_are_empty() {
    let mailbox = Mailbox::default();
    assert_eq!(mailbox.name, None);
    assert_eq!(mailbox.addr, "");
    let envelope = Envelope::default();
    assert_eq!(envelope.id, "");
    assert_eq!(envelope.subject, "");
    assert_eq!(envelope.date, "");
    assert_eq!(envelope.from.addr, "");
    assert_eq!(envelope.to.name, None);
    assert!(!envelope.has_attachment);
    assert!(!envelope.flags.contains(&Flag::Seen));
    assert!(Envelopes::default().as_vec().is_empty());
    let config = ListEnvelopesTableConfig::default();
    assert_eq!(config.preset, None);
    assert_eq!(config.unseen_char, None);
    assert_eq!(config.date_color, None);
}

#[test]
fn mailbox_shows_name_or_address() {
    let named = Mailbox { name: Some("Ann".to_string()), addr: "ann@localhost".to_string() };
    assert_eq!(named.shown(), "Ann");
    let bare = Mailbox { name: None, addr: "bob@localhost".to_string() };
    assert_eq!(bare.shown(), "bob@localhost");
}

#[test]
fn default_preset_is_the_markdown_one() {
    let config = ListEnvelopesTableConfig::default();
    assert_eq!(config.preset(), "||  |-|||           ");
    assert_eq!(config.preset(), comfy_table::presets::ASCII_MARKDOWN);
    assert_eq!(config.preset().chars().count(), 20);
}

#[test]
fn a_set_preset_is_used() {
    let mut config = ListEnvelopesTableConfig::default();
    config.preset = Some("custom".to_string());
    assert_eq!(config.preset(), "custom");
}

#[test]
fn default_marks() {
    let config = ListEnvelopesTableConfig::default();
    assert_eq!(config.replied_char(true), 'R');
    assert_eq!(config.flagged_char(true), '!');
    assert_eq!(config.attachment_char(true), '@');
    assert_eq!(config.unseen_char(true), '*');
    assert_eq!(config.replied_char(false), ' ');
    assert_eq!(config.flagged_char(false), ' ');
    assert_eq!(config.attachment_char(false), ' ');
    assert_eq!(config.unseen_char(false), ' ');
}

#[test]
fn set_marks() {
    let mut config = ListEnvelopesTableConfig::default();
    config.replied_char = Some('r');
    config.flagged_char = Some('f');
    config.attachment_char = Some('a');
    config.unseen_char = Some('u');
    assert_eq!(config.replied_char(true), 'r');
    assert_eq!(config.flagged_char(true), 'f');
    assert_eq!(config.attachment_char(true), 'a');
    assert_eq!(config.unseen_char(true), 'u');
    assert_eq!(config.replied_char(false), ' ');
    assert_eq!(config.flagged_char(false), ' ');
    assert_eq!(config.attachment_char(false), ' ');
    assert_eq!(config.unseen_char(false), ' ');
}

#[test]
fn default_and_set_colors() {
    let mut config = ListEnvelopesTableConfig::default();
    assert_eq!(config.id_color(), Color::Red);
    assert_eq!(config.flags_color(), Color::Reset);
    assert_eq!(config.subject_color(), Color::Green);
    assert_eq!(config.sender_color(), Color::Blue);
    assert_eq!(config.date_color(), Color::DarkYellow);
    config.id_color = Some(Color::Rgb { r: 1, g: 2, b: 3 });
    config.flags_color = Some(Color::AnsiValue(7));
    config.subject_color = Some(Color::Grey);
    config.sender_color = Some(Color::Reset);
    config.date_color = Some(Color::DarkCyan);
    assert_eq!(config.id_color(), Color::Rgb { r: 1, g: 2, b: 3 });
    assert_eq!(config.flags_color(), Color::AnsiValue(7));
    assert_eq!(config.subject_color(), Color::Grey);
    assert_eq!(config.sender_color(), Color::Reset);
    assert_eq!(config.date_color(), Color::DarkCyan);
}

#[test]
fn flags_column_marks_in_fixed_order() {
    let config = ListEnvelopesTableConfig::default();
    assert_eq!(envelope("1", vec![Flag::Seen], None, false).flags_column(&config), "    ");
    assert_eq!(envelope("1", vec![], None, false).flags_column(&config), " *  ");
    assert_eq!(
        envelope("1", vec![Flag::Flagged, Flag::Answered], None, true).flags_column(&config),
        "!*@R"
    );
    assert_eq!(
        envelope("1", vec![Flag::Seen, Flag::Answered], None, false).flags_column(&config),
        "   R"
    );
    assert_eq!(
        envelope("1", vec![Flag::Seen, Flag::Flagged], None, true).flags_column(&config),
        "! @ "
    );
    let mut custom = ListEnvelopesTableConfig::default();
    custom.flagged_char = Some('F');
    custom.unseen_char = Some('U');
    custom.attachment_char = Some('A');
    custom.replied_char = Some('✓');
    assert_eq!(
        envelope("1", vec![Flag::Flagged, Flag::Answered], None, true).flags_column(&custom),
        "FUA✓"
    );
}

#[test]
fn row_of_an_unseen_message_is_bold() {
    let config = ListEnvelopesTableConfig::default();
    let row = envelope("7", vec![Flag::Flagged], Some("Ann"), true).to_row(&config);
    assert_eq!(row.max_height, Some(1));
    assert_eq!(
        contents(&row.cells),
        vec!["7", "!*@ ", "subject 7", "Ann", "2024-01-01 10:00"]
    );
    assert!(row.cells.iter().all(|c| c.bold));
    let colors: Vec<Color> = row.cells.iter().map(|c| c.fg).collect();
    assert_eq!(
        colors,
        vec![Color::Red, Color::Reset, Color::Green, Color::Blue, Color::DarkYellow]
    );
}

#[test]
fn row_of_a_seen_message_is_plain() {
    let mut config = ListEnvelopesTableConfig::default();
    config.id_color = Some(Color::Cyan);
    config.sender_color = Some(Color::Magenta);
    let row = envelope("8", vec![Flag::Seen, Flag::Custom("x".to_string())], None, false)
        .to_row(&config);
    assert_eq!(
        contents(&row.cells),
        vec!["8", "    ", "subject 8", "from@localhost", "2024-01-01 10:00"]
    );
    assert!(row.cells.iter().all(|c| !c.bold));
    let colors: Vec<Color> = row.cells.iter().map(|c| c.fg).collect();
    assert_eq!(
        colors,
        vec![Color::Cyan, Color::Reset, Color::Green, Color::Magenta, Color::DarkYellow]
    );
}

#[test]
fn envelopes_keep_their_order() {
    let list = Envelopes::new(vec![
        envelope("b", vec![], None, false),
        envelope("a", vec![], None, false),
    ]);
    let ids: Vec<String> = list.as_vec().iter().map(|e| e.id.clone()).collect();
    assert_eq!(ids, vec!["b", "a"]);
    assert!(Envelopes::new(Vec::new()).as_vec().is_empty());
}

#[test]
fn table_starts_without_width_and_with_defaults() {
    let table = EnvelopesTable::from(Envelopes::new(vec![envelope("1", vec![], None, false)]));
    assert_eq!(table.width(), None);
    assert_eq!(table.config().preset, None);
    assert_eq!(table.config().id_color, None);
    assert_eq!(table.envelopes().as_vec().len(), 1);
    assert_eq!(EnvelopesTable::header(), vec!["ID", "FLAGS", "SUBJECT", "FROM", "DATE"]);
}

#[test]
fn table_builders_set_one_thing_each() {
    let table = EnvelopesTable::from(Envelopes::new(vec![envelope("1", vec![], None, true)]))
        .with_some_width(Some(80))
        .with_some_preset(Some("p".to_string()))
        .with_some_unseen_char(Some('u'))
        .with_some_replied_char(Some('r'))
        .with_some_flagged_char(Some('f'))
        .with_some_attachment_char(Some('a'))
        .with_some_id_color(Some(Color::Black))
        .with_some_flags_color(Some(Color::White))
        .with_some_subject_color(Some(Color::DarkRed))
        .with_some_sender_color(Some(Color::DarkGreen))
        .with_some_date_color(Some(Color::DarkBlue));
    assert_eq!(table.width(), Some(80));
    let config = table.config();
    assert_eq!(config.preset, Some("p".to_string()));
    assert_eq!(config.unseen_char, Some('u'));
    assert_eq!(config.replied_char, Some('r'));
    assert_eq!(config.flagged_char, Some('f'));
    assert_eq!(config.attachment_char, Some('a'));
    assert_eq!(config.id_color, Some(Color::Black));
    assert_eq!(config.flags_color, Some(Color::White));
    assert_eq!(config.subject_color, Some(Color::DarkRed));
    assert_eq!(config.sender_color, Some(Color::DarkGreen));
    assert_eq!(config.date_color, Some(Color::DarkBlue));
    assert_eq!(table.envelopes().as_vec().len(), 1);
    let table = table.with_some_width(None).with_some_unseen_char(None);
    assert_eq!(table.width(), None);
    assert_eq!(table.config().unseen_char, None);
    assert_eq!(table.config().replied_char, Some('r'));
}

#[test]
fn table_rows_follow_the_envelopes() {
    let table = EnvelopesTable::from(Envelopes::new(vec![
        envelope("1", vec![Flag::Seen], Some("Ann"), false),
        envelope("2", vec![Flag::Answered], None, true),
    ]))
    .with_some_unseen_char(Some('N'))
    .with_some_date_color(Some(Color::Yellow));
    let rows = table.rows();
    assert_eq!(rows.len(), 2);
    assert_eq!(
        contents(&rows[0].cells),
        vec!["1", "    ", "subject 1", "Ann", "2024-01-01 10:00"]
    );
    assert_eq!(
        contents(&rows[1].cells),
        vec!["2", " N@R", "subject 2", "from@localhost", "2024-01-01 10:00"]
    );
    assert!(!rows[0].cells[0].bold);
    assert!(rows[1].cells[4].bold);
    assert_eq!(rows[1].cells[4].fg, Color::Yellow);
    assert_eq!(rows[0].max_height, Some(1));
    assert!(EnvelopesTable::from(Envelopes::default()).rows().is_empty());
}
