use coral::{
    Action, Command, Entry, FsEvent, Level, Message, Orchestrator, Phase, Reason, Snapshot,
    SnapshotError, Span,
};

fn span_at(file: &str, byte_start: usize, byte_end: usize, line: usize, column: usize) -> Span {
    Span {
        file_name: file.to_string(),
        byte_start,
        byte_end,
        line_start: line,
        line_end: line,
        column_start: column,
        column_end: column + 1,
        is_primary: true,
        text: Vec::new(),
        label: None,
        suggested_replacement: None,
        suggestion_applicability: None,
        expansion: None,
    }
}

fn message_with(level: Level, text: &str, spans: Vec<Span>) -> Message {
    Message {
        message: text.to_string(),
        code: None,
        level,
        spans: Some(spans),
        children: None,
        rendered: Some(format!("rendered: {}", text)),
    }
}

fn entry_with(message: Option<Message>) -> Entry {
    Entry {
        reason: Reason::CompilerMessage,
        package_id: "demo 0.1.0".to_string(),
        target: None,
        message,
        profile: None,
        features: None,
        filenames: None,
        executable: None,
        fresh: None,
        color: false,
    }
}

fn warning_entry(file: &str, line: usize, column: usize) -> Entry {
    entry_with(Some(message_with(
        Level::Warning,
        "unused variable: `x`",
        vec![span_at(file, 10, 11, line, column)],
    )))
}

#[test]
fn one_warning_yields_snapshot_of_length_one_with_primary_span() {
    let entries = vec![warning_entry("src/main.rs", 3, 9)];
    let snapshot = Snapshot::from_run(entries, 1);
    assert_eq!(snapshot.len(), 1);
    let entry = snapshot.get(0).expect("index 0 is inside the snapshot");
    assert!(entry.is_warning());
    assert!(!entry.is_error());
    let message = entry.message.as_ref().unwrap();
    assert_eq!(message.level, Level::Warning);
    let span = message.primary_span().expect("the warning has a primary span");
    assert!(span.is_primary);
    assert_eq!(span.file_name, "src/main.rs");
    assert_eq!(span.line(), (3, 9));
}

#[test]
fn snapshot_keeps_only_reportable_entries() {
    let reportable = warning_entry("src/lib.rs", 1, 1);
    let no_message = entry_with(None);
    let empty_level = entry_with(Some(message_with(Level::Empty, "quiet", vec![span_at("a", 0, 0, 1, 1)])));
    let no_spans = entry_with(Some(Message {
        message: "spanless".to_string(),
        code: None,
        level: Level::Error,
        spans: Some(Vec::new()),
        children: None,
        rendered: None,
    }));
    let snapshot = Snapshot::from_run(vec![no_message, reportable, empty_level, no_spans], 1);
    assert_eq!(snapshot.len(), 1);
    assert!(snapshot.get(0).unwrap().is_warning());
}

#[test]
fn rerun_invalidates_all_indices_of_previous_snapshot() {
    let mut orch = Orchestrator::new();
    orch.begin_run();
    orch.complete_run(vec![warning_entry("a.rs", 1, 1), warning_entry("b.rs", 2, 2)]);
    let old_first = orch.snapshot().handle(0);
    let old_second = orch.snapshot().handle(1);
    assert!(orch.snapshot().is_valid_index(old_first));
    assert!(orch.snapshot().is_valid_index(old_second));

    orch.begin_run();
    orch.complete_run(vec![
        warning_entry("a.rs", 1, 1),
        warning_entry("b.rs", 2, 2),
        warning_entry("c.rs", 3, 3),
    ]);
    assert!(!orch.snapshot().is_valid_index(old_first));
    assert!(!orch.snapshot().is_valid_index(old_second));
    assert_ne!(orch.snapshot().generation(), old_first.generation);
    assert!(orch.snapshot().is_valid_index(orch.snapshot().handle(0)));
}

#[test]
fn burst_of_writes_in_one_window_triggers_exactly_one_run() {
    let mut orch = Orchestrator::new();
    let burst = vec![
        FsEvent::Write("src/a.rs".to_string()),
        FsEvent::Write("src/b.rs".to_string()),
        FsEvent::Write("src/a.rs".to_string()),
        FsEvent::Other,
    ];
    let run = orch.poll_fs(&burst);
    assert!(run);
    assert_eq!(orch.phase(), Phase::Running);
    orch.complete_run(Vec::new());
    assert_eq!(orch.phase(), Phase::Idle);
    let quiet: Vec<FsEvent> = vec![FsEvent::Other];
    assert!(!orch.poll_fs(&quiet));
    assert_eq!(orch.phase(), Phase::Idle);
    let none: Vec<FsEvent> = Vec::new();
    assert!(!orch.poll_fs(&none));
}

#[test]
fn show_and_fix_out_of_range_report_invalid_index_and_mutate_nothing() {
    let mut orch = Orchestrator::new();
    orch.begin_run();
    orch.complete_run(vec![warning_entry("src/main.rs", 3, 9)]);
    let generation_before = orch.snapshot().generation();

    assert_eq!(orch.snapshot().show(1), Err(SnapshotError::InvalidIndex));
    assert_eq!(orch.handle_command(Command::Show(1)), Action::InvalidIndex);
    assert_eq!(orch.handle_command(Command::Fix(7)), Action::InvalidIndex);

    assert_eq!(orch.snapshot().len(), 1);
    assert_eq!(orch.snapshot().generation(), generation_before);
    assert_eq!(orch.phase(), Phase::Idle);
    assert!(orch.snapshot().show(0).is_ok());
}

#[test]
fn show_returns_render_or_reports_none() {
    let with_render = warning_entry("src/main.rs", 3, 9);
    let without_render = entry_with(Some(Message {
        message: "no render".to_string(),
        code: None,
        level: Level::Warning,
        spans: Some(vec![span_at("x.rs", 0, 1, 1, 1)]),
        children: None,
        rendered: None,
    }));
    let snapshot = Snapshot::from_run(vec![with_render, without_render], 1);
    assert_eq!(
        snapshot.show(0),
        Ok(Some("rendered: unused variable: `x`"))
    );
    assert_eq!(snapshot.show(1), Ok(None));
}

#[test]
fn fix_command_hands_back_the_first_suggested_replacement() {
    let mut span = span_at("src/main.rs", 2, 5, 1, 3);
    span.suggested_replacement = Some("XYZ".to_string());
    let mut child = message_with(Level::Help, "try this", vec![span]);
    child.rendered = None;
    let parent = Message {
        message: "unused variable: `x`".to_string(),
        code: None,
        level: Level::Warning,
        spans: Some(vec![span_at("src/main.rs", 10, 11, 3, 9)]),
        children: Some(vec![child]),
        rendered: None,
    };
    let entry = entry_with(Some(parent));
    let mut orch = Orchestrator::new();
    orch.begin_run();
    orch.complete_run(vec![entry]);

    match orch.handle_command(Command::Fix(0)) {
        Action::ApplyFix(plan) => {
            assert_eq!(plan.file_name, "src/main.rs");
            assert_eq!(plan.byte_start, 2);
            assert_eq!(plan.byte_end, 5);
            assert_eq!(plan.replacement, "XYZ");
        }
        other => panic!("expected a fix plan, got {:?}", other),
    }
}

#[test]
fn fix_command_without_replacement_reports_no_replacement() {
    let mut orch = Orchestrator::new();
    orch.begin_run();
    orch.complete_run(vec![warning_entry("src/main.rs", 3, 9)]);
    assert_eq!(orch.handle_command(Command::Fix(0)), Action::NoReplacement);
}

#[test]
fn other_commands_map_to_their_actions() {
    let orch = Orchestrator::new();
    assert_eq!(orch.handle_command(Command::Help), Action::PrintHelp);
    assert_eq!(orch.handle_command(Command::Quit), Action::Quit);
    assert_eq!(orch.handle_command(Command::Unknown), Action::UnknownCommand);
    assert_eq!(
        orch.handle_command(Command::FixMissingIndex),
        Action::FixMissingIndex
    );
    assert_eq!(orch.handle_command(Command::FixBadIndex), Action::FixBadIndex);
}

#[test]
fn summary_counts_errors_and_warnings() {
    let error = entry_with(Some(message_with(
        Level::Error,
        "mismatched types",
        vec![span_at("src/lib.rs", 5, 6, 2, 1)],
    )));
    let snapshot = Snapshot::from_run(
        vec![
            warning_entry("a.rs", 1, 1),
            error,
            warning_entry("b.rs", 2, 2),
        ],
        1,
    );
    let summary = snapshot.summary();
    assert_eq!(summary.errors, 1);
    assert_eq!(summary.warnings, 2);
}
