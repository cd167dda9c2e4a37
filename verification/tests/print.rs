use coral::{Entry, Level, Message, Reason, Span};

fn span_at(file: &str, line: usize, column: usize) -> Span {
    Span {
        file_name: file.to_string(),
        byte_start: 0,
        byte_end: 1,
        line_start: line,
        line_end: line,
        column_start: column,
        column_end: column + 1,
        is_primary: true,
        text: Vec::new(),
        label: None,
        suggested_replacement: None,
        suggestion_applicability: None,
        expansion: None,
    }
}

fn leaf(level: Level, text: &str, file: &str) -> Message {
    Message {
        message: text.to_string(),
        code: None,
        level,
        spans: Some(vec![span_at(file, 1, 2)]),
        children: None,
        rendered: None,
    }
}

fn entry_for(message: Message) -> Entry {
    Entry {
        reason: Reason::CompilerMessage,
        package_id: "demo 0.1.0".to_string(),
        target: None,
        message: Some(message),
        profile: None,
        features: None,
        filenames: None,
        executable: None,
        fresh: None,
        color: false,
    }
}

#[test]
fn prompt_text_blanks_the_line_and_draws_the_arrow() {
    assert_eq!(coral::prompt_text(5), "     \r> ");
    assert_eq!(coral::prompt_text(0), "\r> ");
}

#[test]
fn message_width_prefixes_the_index_column() {
    let msg = leaf(Level::Warning, "dead code", "src/lib.rs");
    let line = coral::message_width(7, false, &msg, 60).expect("reportable");
    let report = msg.report(false, 60).expect("reportable");
    assert_eq!(line, format!("{:>3} {}", 7, report));
    let quiet = leaf(Level::Empty, "quiet", "src/lib.rs");
    assert_eq!(coral::message_width(7, false, &quiet, 60), None);
}

#[test]
fn entry_width_lists_one_line_per_reportable_message() {
    let child = leaf(Level::Help, "try removing it", "src/lib.rs");
    let silent_child = leaf(Level::Empty, "nothing", "src/lib.rs");
    let mut parent = leaf(Level::Warning, "unused function", "src/lib.rs");
    parent.children = Some(vec![child, silent_child]);
    let e = entry_for(parent);
    let lines = coral::entry_width(4, &e, 60);
    assert_eq!(lines.len(), 2);
    assert!(lines[0].starts_with("  4 warning"));
    assert!(lines[1].starts_with("  4    help"));
    let bare = Entry {
        message: None,
        ..entry_for(leaf(Level::Warning, "x", "y.rs"))
    };
    assert_eq!(coral::entry_width(0, &bare, 60).len(), 0);
}

#[test]
fn entries_opens_with_the_headers() {
    let list = vec![
        entry_for(leaf(Level::Warning, "first", "a.rs")),
        entry_for(leaf(Level::Error, "second", "b.rs")),
    ];
    let lines = coral::entries(false, &list);
    assert_eq!(lines.len(), 3);
    assert_eq!(lines[0], format!("    {}", Message::report_headers(false)));
    assert!(lines[1].starts_with("  0 warning"));
    assert!(lines[2].starts_with("  1   error"));
}
