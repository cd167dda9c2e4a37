use coral::{Entry, Level, Message, Reason, Span, Summary};

fn span_at(file: &str, line: usize, column: usize) -> Span {
    Span {
        file_name: file.to_string(),
        byte_start: 0,
        byte_end: 1,
        line_start: line,
        line_end: line,
        column_start: column,
        column_end: column + 1,
        is_primary: true,
        text: Vec::new(),
        label: None,
        suggested_replacement: None,
        suggestion_applicability: None,
        expansion: None,
    }
}

fn warning_message(text: &str, file: &str, line: usize, column: usize) -> Message {
    Message {
        message: text.to_string(),
        code: None,
        level: Level::Warning,
        spans: Some(vec![span_at(file, line, column)]),
        children: None,
        rendered: None,
    }
}

fn entry_of(message: Message, color: bool) -> Entry {
    Entry {
        reason: Reason::CompilerMessage,
        package_id: "demo 0.1.0".to_string(),
        target: None,
        message: Some(message),
        profile: None,
        features: None,
        filenames: None,
        executable: None,
        fresh: None,
        color,
    }
}

#[test]
fn level_format_pads_and_colors_the_name() {
    assert_eq!(Level::Warning.format(false), "warning");
    assert_eq!(Level::Error.format(false), "  error");
    assert_eq!(Level::Note.format(false), "   note");
    assert_eq!(Level::Help.format(false), "   help");
    assert_eq!(Level::Empty.format(false), "");
    assert_eq!(Level::Warning.format(true), "\u{1b}[93mwarning\u{1b}[0m");
    assert_eq!(Level::Error.format(true), "\u{1b}[91m  error\u{1b}[0m");
    assert_eq!(Level::Empty.format(true), "");
}

#[test]
fn report_lays_out_the_columns_for_the_given_width() {
    let message = warning_message("unused variable: `x`", "src/main.rs", 3, 9);
    let line = message.report(false, 100).expect("the warning is reportable");
    let expected = format!(
        "warning {:>18} at {:<8} {:<61}",
        "src/main.rs", "3:9", "unused variable: `x`"
    );
    assert_eq!(line, expected);
}

#[test]
fn report_truncates_long_file_names_and_messages() {
    let long_file = "a/very/long/path/to/some/source_file.rs";
    let message = warning_message("unused variable: `x`", long_file, 12, 34);
    let line = message.report(false, 50).expect("reportable");
    let shown_file = format!("...{}", &long_file[long_file.len() - 15..]);
    let shown_msg = format!("{}...", &"unused variable: `x`"[..8]);
    let expected = format!("warning {:>18} at {:<8} {:<11}", shown_file, "12:34", shown_msg);
    assert_eq!(line, expected);
}

#[test]
fn report_colors_each_column_when_color_is_on() {
    let message = warning_message("dead code", "src/lib.rs", 7, 1);
    let line = message.report(true, 60).expect("reportable");
    let expected = format!(
        "\u{1b}[93mwarning\u{1b}[0m \u{1b}[96m{:>18}\u{1b}[0m at \u{1b}[96m{:<8}\u{1b}[0m \u{1b}[37m{:<21}\u{1b}[0m",
        "src/lib.rs", "7:1", "dead code"
    );
    assert_eq!(line, expected);
}

#[test]
fn report_skips_messages_without_level_or_span() {
    let no_level = Message {
        message: "quiet".to_string(),
        code: None,
        level: Level::Empty,
        spans: Some(vec![span_at("a.rs", 1, 1)]),
        children: None,
        rendered: None,
    };
    assert_eq!(no_level.report(false, 100), None);
    let no_span = Message {
        message: "spanless".to_string(),
        code: None,
        level: Level::Error,
        spans: None,
        children: None,
        rendered: None,
    };
    assert_eq!(no_span.report(false, 100), None);
}

#[test]
fn report_prefers_the_flagged_primary_span() {
    let mut secondary = span_at("second.rs", 2, 2);
    secondary.is_primary = false;
    let primary = span_at("first.rs", 1, 5);
    let mut trailing = span_at("third.rs", 3, 3);
    trailing.is_primary = false;
    let message = Message {
        message: "pick the primary".to_string(),
        code: None,
        level: Level::Error,
        spans: Some(vec![secondary, primary, trailing]),
        children: None,
        rendered: None,
    };
    let line = message.report(false, 80).expect("reportable");
    assert!(line.contains("first.rs"));
    assert!(line.contains("1:5"));
}

#[test]
fn report_falls_back_to_the_last_span_without_a_flag() {
    let mut first = span_at("first.rs", 1, 1);
    first.is_primary = false;
    let mut last = span_at("last.rs", 9, 9);
    last.is_primary = false;
    let message = Message {
        message: "fall back".to_string(),
        code: None,
        level: Level::Note,
        spans: Some(vec![first, last]),
        children: None,
        rendered: None,
    };
    let line = message.report(false, 80).expect("reportable");
    assert!(line.contains("last.rs"));
    assert!(line.contains("9:9"));
}

#[test]
fn report_headers_name_the_columns() {
    let expected = format!(
        "{:>7} {:>18}    {:<8} {}",
        "Level", "File", "Line", "Message"
    );
    assert_eq!(Message::report_headers(false), expected);
    assert_eq!(coral::headers(false), format!("    {}", expected));
}

#[test]
fn entry_report_width_uses_the_entry_color() {
    let plain = entry_of(warning_message("dead code", "src/lib.rs", 7, 1), false);
    let line = plain.report_width(60).expect("reportable");
    assert!(!line.contains('\u{1b}'));
    let colored = entry_of(warning_message("dead code", "src/lib.rs", 7, 1), true);
    let line = colored.report_width(60).expect("reportable");
    assert!(line.contains('\u{1b}'));
    let silent = Entry {
        message: None,
        ..entry_of(warning_message("x", "y.rs", 1, 1), false)
    };
    assert_eq!(silent.report_width(60), None);
}

#[test]
fn dec_string_writes_decimal() {
    assert_eq!(coral::dec_string(0), "0");
    assert_eq!(coral::dec_string(42), "42");
    assert_eq!(coral::dec_string(90210), "90210");
    assert_eq!(coral::dec_string(usize::MAX), format!("{}", usize::MAX));
}

#[test]
fn paint_wraps_text_in_the_escape_only_with_color_on() {
    assert_eq!(coral::paint("96", "hello", true), "\u{1b}[96mhello\u{1b}[0m");
    assert_eq!(coral::paint("96", "hello", false), "hello");
}

#[test]
fn message_column_width_leaves_the_fixed_columns() {
    assert_eq!(coral::message_column_width(100), 61);
    assert_eq!(coral::message_column_width(42), 3);
}

#[test]
fn terminal_width_is_bounded() {
    let w = coral::terminal_width();
    assert!(w <= u16::MAX as usize);
}

#[test]
fn summary_line_reports_no_problems_or_the_counts() {
    let none = coral::summary_line(0, Summary { errors: 0, warnings: 0 }, false, 20);
    assert_eq!(none, format!("{:<20}", "No problems"));
    let colored = coral::summary_line(0, Summary { errors: 0, warnings: 0 }, true, 20);
    assert_eq!(colored, format!("\u{1b}[92m{:<20}\u{1b}[0m", "No problems"));
    let both = coral::summary_line(5, Summary { errors: 2, warnings: 1 }, false, 30);
    assert_eq!(both, format!("{:<30}", "2 errors, 1 warning"));
    let only_warnings = coral::summary_line(3, Summary { errors: 0, warnings: 3 }, false, 25);
    assert_eq!(only_warnings, format!("{:<25}", "3 warnings"));
    let one_error = coral::summary_line(1, Summary { errors: 1, warnings: 0 }, false, 12);
    assert_eq!(one_error, format!("{:<12}", "1 error"));
}

#[test]
fn progress_line_pads_or_cuts_to_the_width() {
    assert_eq!(coral::progress_line("demo", 20), format!("{:<20}", "compiled demo"));
    assert_eq!(coral::progress_line("demo", 10), "compiled d");
}
